//! Small text and project helpers.
use vstd::prelude::*;

use crate::text::{
    append_chars, contains_string, from_chars, str_to_string, string_views, sub_chars, to_chars,
};

verus! {

broadcast use vstd::string::group_string_axioms;

/// What `truncate` returns: the text itself when it has at most `max_chars`
/// characters, else its first `max_chars` characters followed by
/// `...(truncated)`.
pub open spec fn truncated(s: Seq<char>, max_chars: int) -> Seq<char> {
    if s.len() <= max_chars {
        s
    } else {
        s.take(max_chars) + "...(truncated)"@
    }
}

/// Truncate a string to max_chars characters.
pub fn truncate(s: &str, max_chars: usize) -> (r: String)
    ensures
        r@ == truncated(s@, max_chars as int),
{
    let v = to_chars(s);
    if v.len() <= max_chars {
        str_to_string(s)
    } else {
        let mut r = sub_chars(&v, 0, max_chars);
        append_chars(&mut r, &to_chars("...(truncated)"));
        assert(r@ =~= s@.take(max_chars as int) + "...(truncated)"@);
        from_chars(&r)
    }
}

/// A text that fits is returned unchanged; a longer one keeps exactly its
/// first `max_chars` characters before the marker.
pub proof fn law_truncate(s: Seq<char>, max_chars: int)
    requires
        0 <= max_chars,
    ensures
        s.len() <= max_chars ==> truncated(s, max_chars) == s,
        s.len() > max_chars ==> truncated(s, max_chars).take(max_chars) == s.take(max_chars),
        s.len() > max_chars ==> truncated(s, max_chars).len() == max_chars + "...(truncated)"@.len(),
{
    if s.len() > max_chars {
        assert(truncated(s, max_chars).take(max_chars) =~= s.take(max_chars));
    }
}

/// Appends `lang` when `cond` holds.
pub open spec fn add_if(v: Seq<Seq<char>>, cond: bool, lang: Seq<char>) -> Seq<Seq<char>> {
    if cond {
        v.push(lang)
    } else {
        v
    }
}

/// The languages suggested by marker files among `files` (names of the
/// files in the project root), in marker order; `unknown` when none.
pub open spec fn project_languages(files: Seq<Seq<char>>) -> Seq<Seq<char>> {
    let l1 = add_if(seq![], files.contains("Cargo.toml"@), "rust"@);
    let l2 = add_if(l1, files.contains("go.mod"@), "go"@);
    let l3 = add_if(l2, files.contains("package.json"@), "javascript/typescript"@);
    let l4 = add_if(l3, files.contains("pyproject.toml"@), "python"@);
    let l5 = add_if(l4, files.contains("setup.py"@), "python"@);
    let l6 = add_if(l5, files.contains("requirements.txt"@), "python"@);
    let l7 = add_if(l6, files.contains("pom.xml"@), "java"@);
    let l8 = add_if(l7, files.contains("build.gradle"@), "java"@);
    let l9 = add_if(l8, files.contains("CMakeLists.txt"@), "c/cpp"@);
    let l10 = add_if(l9, files.contains("Makefile"@), "c/cpp"@);
    if l10.len() == 0 {
        seq!["unknown"@]
    } else {
        l10
    }
}

fn has_file(files: &Vec<String>, name: &str) -> (b: bool)
    ensures
        b == string_views(files@).contains(name@),
{
    contains_string(files, &to_chars(name))
}

fn push_lang(langs: &mut Vec<String>, cond: bool, lang: &str)
    ensures
        string_views(final(langs)@) == add_if(string_views(old(langs)@), cond, lang@),
{
    if cond {
        let ghost l0 = string_views(langs@);
        langs.push(str_to_string(lang));
        assert(string_views(langs@) =~= l0.push(lang@));
    }
}

/// Detect project language from common project files, given the names of
/// the files in the project root.
pub fn detect_project_language(root_files: &Vec<String>) -> (r: Vec<String>)
    ensures
        string_views(r@) == project_languages(string_views(root_files@)),
{
    let mut langs: Vec<String> = Vec::new();
    assert(string_views(langs@) =~= seq![]);
    push_lang(&mut langs, has_file(root_files, "Cargo.toml"), "rust");
    push_lang(&mut langs, has_file(root_files, "go.mod"), "go");
    push_lang(&mut langs, has_file(root_files, "package.json"), "javascript/typescript");
    push_lang(&mut langs, has_file(root_files, "pyproject.toml"), "python");
    push_lang(&mut langs, has_file(root_files, "setup.py"), "python");
    push_lang(&mut langs, has_file(root_files, "requirements.txt"), "python");
    push_lang(&mut langs, has_file(root_files, "pom.xml"), "java");
    push_lang(&mut langs, has_file(root_files, "build.gradle"), "java");
    push_lang(&mut langs, has_file(root_files, "CMakeLists.txt"), "c/cpp");
    push_lang(&mut langs, has_file(root_files, "Makefile"), "c/cpp");
    if langs.len() == 0 {
        langs.push(str_to_string("unknown"));
        assert(string_views(langs@) =~= seq!["unknown"@]);
    }
    langs
}

/// Whether the project root is a git repository: one of the directories at
/// the root is `.git`.
pub fn is_git_repo(root_dirs: &Vec<String>) -> (r: bool)
    ensures
        r == string_views(root_dirs@).contains(".git"@),
{
    contains_string(root_dirs, &to_chars(".git"))
}

/// `SystemTime::now`, read as whole seconds since the Unix epoch (zero for a
/// clock set before it). Nothing is stated of the value: it is the time.
#[verifier::external_body]
pub(crate) fn unix_now_secs() -> (t: u64) {
    std::time::SystemTime::now().duration_since(std::time::UNIX_EPOCH).unwrap_or_default().as_secs()
}

} // verus!
