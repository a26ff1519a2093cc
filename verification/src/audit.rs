//! The audit record of a patch: what was asked, read, generated, applied and
//! tested.
use vstd::prelude::*;

use crate::text::{append_chars, decimal, from_chars, str_to_string, to_chars, u64_to_string};
use crate::util::unix_now_secs;

verus! {

broadcast use vstd::string::group_string_axioms;

pub struct AuditEntry {
    pub timestamp: String,
    pub command: String,
    pub description: String,
    pub files_read: Vec<String>,
    pub diff_generated: String,
    pub diff_applied: bool,
    pub test_result: Option<String>,
    pub error: Option<String>,
}

impl AuditEntry {
    /// A fresh record of `command` on `description`, stamped `secs` seconds
    /// after the Unix epoch.
    pub fn at(secs: u64, command: &str, description: &str) -> (e: Self)
        ensures
            e.timestamp@ == decimal(secs as nat),
            e.command@ == command@,
            e.description@ == description@,
            e.files_read@.len() == 0,
            e.diff_generated@.len() == 0,
            !e.diff_applied,
            e.test_result is None,
            e.error is None,
    {
        AuditEntry {
            timestamp: u64_to_string(secs),
            command: str_to_string(command),
            description: str_to_string(description),
            files_read: Vec::new(),
            diff_generated: String::new(),
            diff_applied: false,
            test_result: None,
            error: None,
        }
    }

    /// A fresh record stamped now (see `at`).
    pub fn new(command: &str, description: &str) -> (e: Self)
        ensures
            exists|t: u64| e.timestamp@ == decimal(t as nat),
            e.command@ == command@,
            e.description@ == description@,
            e.files_read@.len() == 0,
            e.diff_generated@.len() == 0,
            !e.diff_applied,
            e.test_result is None,
            e.error is None,
    {
        let t = unix_now_secs();
        AuditEntry::at(t, command, description)
    }

    /// The log file the record is written to: `<timestamp>_<command>.json`.
    pub fn log_file_name(&self) -> (r: String)
        ensures
            r@ == self.timestamp@ + "_"@ + self.command@ + ".json"@,
    {
        let mut v = to_chars(self.timestamp.as_str());
        append_chars(&mut v, &to_chars("_"));
        append_chars(&mut v, &to_chars(self.command.as_str()));
        append_chars(&mut v, &to_chars(".json"));
        from_chars(&v)
    }
}

} // verus!
