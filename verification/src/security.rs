//! File access control: blacklisted directories, files and extensions, the
//! project-root sandbox, and the command whitelist.
use vstd::prelude::*;

use crate::text::{
    extension_of, last_dot, lemma_last_index_bound,
    chars_eq, contains_string, ends_with, has_prefix, has_suffix, lowercase, starts_with,
    string_views, strs_to_strings, sub_chars, to_chars, to_lowercase, from_chars,
};

verus! {

broadcast use vstd::string::group_string_axioms;

/// Directories whose files are never read or indexed.
pub open spec fn default_blacklisted_dirs() -> Seq<Seq<char>> {
    seq![
        ".git"@,
        "target"@,
        "node_modules"@,
        "dist"@,
        "build"@,
        "__pycache__"@,
        ".dumbcoder"@,
    ]
}

/// File name patterns that are never read or indexed.
pub open spec fn default_blacklisted_files() -> Seq<Seq<char>> {
    seq![
        ".env"@,
        ".env.local"@,
        ".env.production"@,
        "*.pem"@,
        "*.key"@,
        "id_rsa"@,
        "id_ed25519"@,
        "credentials.*"@,
        "secrets.*"@,
    ]
}

/// File extensions (lowercase) that are never read or indexed.
pub open spec fn default_blacklisted_extensions() -> Seq<Seq<char>> {
    seq!["pem"@, "key"@, "p12"@, "pfx"@, "jks"@]
}

pub struct SecurityFilter {
    pub blacklisted_dirs: Vec<String>,
    pub blacklisted_files: Vec<String>,
    pub blacklisted_extensions: Vec<String>,
    pub extra_ignore_dirs: Vec<String>,
}

/// What `glob_match` decides: `*` matches everything, `*suffix` matches
/// texts ending with `suffix`, `prefix*` texts starting with `prefix`, and any
/// other pattern only itself.
pub open spec fn glob_matches(pattern: Seq<char>, text: Seq<char>) -> bool {
    if pattern == seq!['*'] {
        true
    } else if pattern.len() > 0 && pattern[0] == '*' {
        has_suffix(text, pattern.drop_first())
    } else if pattern.len() > 0 && pattern.last() == '*' {
        has_prefix(text, pattern.drop_last())
    } else {
        pattern == text
    }
}

pub fn glob_match(pattern: &str, text: &str) -> (r: bool)
    ensures
        r == glob_matches(pattern@, text@),
{
    let p = to_chars(pattern);
    let t = to_chars(text);
    let mut star: Vec<char> = Vec::new();
    star.push('*');
    if chars_eq(&p, &star) {
        return true;
    }
    if p.len() > 0 && p[0] == '*' {
        let suffix = sub_chars(&p, 1, p.len());
        assert(suffix@ =~= p@.drop_first());
        return ends_with(&t, &suffix);
    }
    if p.len() > 0 && p[p.len() - 1] == '*' {
        let prefix = sub_chars(&p, 0, p.len() - 1);
        assert(prefix@ =~= p@.drop_last());
        return starts_with(&t, &prefix);
    }
    chars_eq(&p, &t)
}

/// The file name of a canonical path given by its components (the first
/// one being the root): its last component, if there is one after the root.
pub open spec fn file_name_of(components: Seq<Seq<char>>) -> Option<Seq<char>> {
    if components.len() >= 2 {
        Some(components.last())
    } else {
        None
    }
}

/// Whether `command` starts with one of the `allowed` commands.
pub open spec fn command_permitted(command: Seq<char>, allowed: Seq<Seq<char>>) -> bool {
    exists|i: int| 0 <= i < allowed.len() && has_prefix(command, #[trigger] allowed[i])
}

impl SecurityFilter {
    /// Whether the canonical path `path` (by its components) may be read,
    /// given the canonical project root `root`.
    pub open spec fn allows(self, path: Seq<Seq<char>>, root: Seq<Seq<char>>) -> bool {
        &&& root.len() <= path.len() && path.take(root.len() as int) == root
        &&& forall|i: int|
            0 <= i < path.len() ==> !string_views(self.blacklisted_dirs@).contains(#[trigger] path[i])
                && !string_views(self.extra_ignore_dirs@).contains(path[i])
        &&& (file_name_of(path) matches Some(n) ==> forall|j: int|
            0 <= j < self.blacklisted_files@.len() ==> !glob_matches(
                #[trigger] string_views(self.blacklisted_files@)[j],
                n,
            ))
        &&& (file_name_of(path) matches Some(n) ==> (extension_of(n) matches Some(e)
            ==> !string_views(self.blacklisted_extensions@).contains(lowercase(e))))
    }

    pub fn new(extra_ignore_dirs: Vec<String>) -> (f: Self)
        ensures
            string_views(f.blacklisted_dirs@) == default_blacklisted_dirs(),
            string_views(f.blacklisted_files@) == default_blacklisted_files(),
            string_views(f.blacklisted_extensions@) == default_blacklisted_extensions(),
            f.extra_ignore_dirs@ == extra_ignore_dirs@,
    {
        let dirs = vec![
            ".git",
            "target",
            "node_modules",
            "dist",
            "build",
            "__pycache__",
            ".dumbcoder",
        ];
        let files = vec![
            ".env",
            ".env.local",
            ".env.production",
            "*.pem",
            "*.key",
            "id_rsa",
            "id_ed25519",
            "credentials.*",
            "secrets.*",
        ];
        let exts = vec!["pem", "key", "p12", "pfx", "jks"];
        let f = Self {
            blacklisted_dirs: strs_to_strings(&dirs),
            blacklisted_files: strs_to_strings(&files),
            blacklisted_extensions: strs_to_strings(&exts),
            extra_ignore_dirs,
        };
        assert(string_views(f.blacklisted_dirs@) =~= default_blacklisted_dirs());
        assert(string_views(f.blacklisted_files@) =~= default_blacklisted_files());
        assert(string_views(f.blacklisted_extensions@) =~= default_blacklisted_extensions());
        f
    }

    /// Check if a path is allowed (not in blacklist, within project root).
    /// `path` and `project_root` are the canonical forms of the path and the
    /// root, by their components, or `None` where the path could not be
    /// resolved; an unresolved path or root is never allowed.
    #[verifier::loop_isolation(false)]
    pub fn is_path_allowed(
        &self,
        path: &Option<Vec<String>>,
        project_root: &Option<Vec<String>>,
    ) -> (r: bool)
        ensures
            r == (path.is_some() && project_root.is_some() && self.allows(
                string_views(path.unwrap()@),
                string_views(project_root.unwrap()@),
            )),
    {
        let p = match path {
            Some(p) => p,
            None => return false,
        };
        let root = match project_root {
            Some(r) => r,
            None => return false,
        };
        let ghost pv = string_views(p@);
        let ghost rv = string_views(root@);
        assert(pv.len() == p@.len() && rv.len() == root@.len());
        // Must be within project root
        if root.len() > p.len() {
            return false;
        }
        let mut i: usize = 0;
        while i < root.len()
            invariant
                i <= root@.len() <= p@.len(),
                pv == string_views(p@),
                rv == string_views(root@),
                forall|j: int| 0 <= j < i ==> pv[j] == rv[j],
            decreases root.len() - i,
        {
            let a = to_chars(p[i].as_str());
            let b = to_chars(root[i].as_str());
            if !chars_eq(&a, &b) {
                assert(pv.take(rv.len() as int)[i as int] != rv[i as int]);
                return false;
            }
            i = i + 1;
        }
        assert(pv.take(rv.len() as int) =~= rv);
        // Check directory components
        let mut k: usize = 0;
        while k < p.len()
            invariant
                k <= p@.len(),
                pv == string_views(p@),
                forall|j: int|
                    0 <= j < k ==> !string_views(self.blacklisted_dirs@).contains(#[trigger] pv[j])
                        && !string_views(self.extra_ignore_dirs@).contains(pv[j]),
            decreases p.len() - k,
        {
            let name = to_chars(p[k].as_str());
            if contains_string(&self.blacklisted_dirs, &name) || contains_string(
                &self.extra_ignore_dirs,
                &name,
            ) {
                assert(pv[k as int] == name@);
                return false;
            }
            k = k + 1;
        }
        if p.len() < 2 {
            return true;
        }
        // Check filename
        let file_name = &p[p.len() - 1];
        let mut j: usize = 0;
        while j < self.blacklisted_files.len()
            invariant
                j <= self.blacklisted_files@.len(),
                p@.len() >= 2,
                file_name@ == pv.last(),
                pv == string_views(p@),
                forall|m: int|
                    0 <= m < j ==> !glob_matches(
                        #[trigger] string_views(self.blacklisted_files@)[m],
                        file_name@,
                    ),
            decreases self.blacklisted_files.len() - j,
        {
            if glob_match(self.blacklisted_files[j].as_str(), file_name.as_str()) {
                assert(file_name_of(pv) == Some(file_name@));
                assert(glob_matches(string_views(self.blacklisted_files@)[j as int], file_name@));
                return false;
            }
            j = j + 1;
        }
        // Check extension
        let name = to_chars(file_name.as_str());
        assert(file_name_of(pv) == Some(name@));
        match last_dot(&name) {
            Some(d) => {
                proof {
                    lemma_last_index_bound(name@, '.');
                }
                if d == 0 {
                    return true;
                }
                assert(d < name.len());
                let ext = from_chars(&sub_chars(&name, d + 1, name.len()));
                assert(ext@ =~= name@.skip(d + 1));
                let low = to_lowercase(ext.as_str());
                !contains_string(&self.blacklisted_extensions, &to_chars(low.as_str()))
            },
            None => true,
        }
    }

    /// Check if a command is allowed: it starts with one of the allowed commands.
    pub fn is_command_allowed(&self, command: &str, allowed_commands: &[String]) -> (r: bool)
        ensures
            r == command_permitted(command@, string_views(allowed_commands@)),
    {
        let c = to_chars(command);
        let mut i: usize = 0;
        while i < allowed_commands.len()
            invariant
                i <= allowed_commands@.len(),
                c@ == command@,
                forall|j: int| 0 <= j < i ==> !has_prefix(command@, #[trigger] allowed_commands@[j]@),
            decreases allowed_commands.len() - i,
        {
            let a = to_chars(allowed_commands[i].as_str());
            if starts_with(&c, &a) {
                assert(string_views(allowed_commands@)[i as int] == a@);
                return true;
            }
            i = i + 1;
        }
        false
    }
}

/// A path outside the project root is never allowed.
pub proof fn law_outside_root_denied(f: SecurityFilter, path: Seq<Seq<char>>, root: Seq<Seq<char>>)
    requires
        !(root.len() <= path.len() && path.take(root.len() as int) == root),
    ensures
        !f.allows(path, root),
{
}

/// A path that passes through a blacklisted or ignored directory is never allowed.
pub proof fn law_blacklisted_dir_denied(
    f: SecurityFilter,
    path: Seq<Seq<char>>,
    root: Seq<Seq<char>>,
    i: int,
)
    requires
        0 <= i < path.len(),
        string_views(f.blacklisted_dirs@).contains(path[i]) || string_views(
            f.extra_ignore_dirs@,
        ).contains(path[i]),
    ensures
        !f.allows(path, root),
{
}

/// A file whose name matches a blacklisted file pattern is never allowed.
pub proof fn law_blacklisted_file_denied(
    f: SecurityFilter,
    path: Seq<Seq<char>>,
    root: Seq<Seq<char>>,
    j: int,
)
    requires
        path.len() >= 2,
        0 <= j < f.blacklisted_files@.len(),
        glob_matches(string_views(f.blacklisted_files@)[j], path.last()),
    ensures
        !f.allows(path, root),
{
}

/// A file whose lowercased extension is blacklisted is never allowed.
pub proof fn law_blacklisted_extension_denied(
    f: SecurityFilter,
    path: Seq<Seq<char>>,
    root: Seq<Seq<char>>,
    e: Seq<char>,
)
    requires
        path.len() >= 2,
        extension_of(path.last()) == Some(e),
        string_views(f.blacklisted_extensions@).contains(lowercase(e)),
    ensures
        !f.allows(path, root),
{
}

/// The pattern `*` matches every name.
pub proof fn law_glob_star_matches_all(text: Seq<char>)
    ensures
        glob_matches(seq!['*'], text),
{
}

/// A pattern without `*` matches exactly the name equal to it.
pub proof fn law_glob_literal(pattern: Seq<char>, text: Seq<char>)
    requires
        forall|i: int| 0 <= i < pattern.len() ==> pattern[i] != '*',
    ensures
        glob_matches(pattern, text) <==> pattern == text,
{
    if pattern == seq!['*'] {
        assert(pattern[0] == '*');
    }
    if pattern.len() > 0 {
        assert(pattern[0] != '*');
        assert(pattern.last() != '*');
    }
}

/// Adding commands to the allow list never refuses a command it allowed.
pub proof fn law_command_allow_monotone(command: Seq<char>, allowed: Seq<Seq<char>>, more: Seq<Seq<char>>)
    requires
        command_permitted(command, allowed),
    ensures
        command_permitted(command, allowed + more),
{
    let i = choose|i: int| 0 <= i < allowed.len() && has_prefix(command, #[trigger] allowed[i]);
    assert((allowed + more)[i] == allowed[i]);
}

} // verus!
