//! Git-related decisions: which test command a project uses, and which
//! files a diff touches.
use vstd::prelude::*;

use crate::text::{
    contains_string, has_prefix, lines, split_lines, starts_with,
    string_views, str_to_string, sub_chars, to_chars, trim, trim_chars, from_chars, views,
    };

verus! {

broadcast use vstd::string::group_string_axioms;

/// Appends `cmd` when `cond` holds.
pub open spec fn push_if(v: Seq<Seq<char>>, cond: bool, cmd: Seq<char>) -> Seq<Seq<char>> {
    if cond {
        v.push(cmd)
    } else {
        v
    }
}

/// The test commands for a project whose root holds the files `files`
/// (by name), in the order they are tried; `unknown` when none applies.
pub open spec fn test_commands(files: Seq<Seq<char>>) -> Seq<Seq<char>> {
    let c1 = push_if(seq![], files.contains("Cargo.toml"@), "cargo test"@);
    let c2 = push_if(c1, files.contains("go.mod"@), "go test ./..."@);
    let c3 = push_if(
        c2,
        files.contains("pyproject.toml"@) || files.contains("setup.py"@) || files.contains(
            "requirements.txt"@,
        ),
        "pytest"@,
    );
    let c4 = push_if(c3, files.contains("package.json"@), "npm test"@);
    let c5 = push_if(c4, files.contains("pom.xml"@), "mvn test"@);
    let c6 = push_if(
        c5,
        files.contains("build.gradle"@) || files.contains("build.gradle.kts"@),
        "gradle test"@,
    );
    let c7 = push_if(c6, files.contains("Makefile"@), "make test"@);
    if c7.len() == 0 {
        seq!["unknown"@]
    } else {
        c7
    }
}

fn has_file(files: &Vec<String>, name: &str) -> (b: bool)
    ensures
        b == string_views(files@).contains(name@),
{
    contains_string(files, &to_chars(name))
}

fn push_cmd(cmds: &mut Vec<String>, cond: bool, cmd: &str)
    ensures
        string_views(final(cmds)@) == push_if(string_views(old(cmds)@), cond, cmd@),
{
    if cond {
        let ghost c0 = string_views(cmds@);
        cmds.push(str_to_string(cmd));
        assert(string_views(cmds@) =~= c0.push(cmd@));
    }
}

/// Detect test commands for the project, given the names of the files in
/// its root directory.
pub fn detect_test_command(root_files: &Vec<String>) -> (r: Vec<String>)
    ensures
        string_views(r@) == test_commands(string_views(root_files@)),
{
    let mut commands: Vec<String> = Vec::new();
    assert(string_views(commands@) =~= seq![]);
    push_cmd(&mut commands, has_file(root_files, "Cargo.toml"), "cargo test");
    push_cmd(&mut commands, has_file(root_files, "go.mod"), "go test ./...");
    let py = has_file(root_files, "pyproject.toml") || has_file(root_files, "setup.py")
        || has_file(root_files, "requirements.txt");
    push_cmd(&mut commands, py, "pytest");
    push_cmd(&mut commands, has_file(root_files, "package.json"), "npm test");
    push_cmd(&mut commands, has_file(root_files, "pom.xml"), "mvn test");
    let gradle = has_file(root_files, "build.gradle") || has_file(root_files, "build.gradle.kts");
    push_cmd(&mut commands, gradle, "gradle test");
    push_cmd(&mut commands, has_file(root_files, "Makefile"), "make test");
    if commands.len() == 0 {
        commands.push(str_to_string("unknown"));
        assert(string_views(commands@) =~= seq!["unknown"@]);
    }
    commands
}

/// A project always gets at least one test command.
pub proof fn law_test_commands_nonempty(files: Seq<Seq<char>>)
    ensures
        test_commands(files).len() > 0,
{
}

proof fn lemma_push_if_keeps(v: Seq<Seq<char>>, cond: bool, cmd: Seq<char>, x: Seq<char>)
    ensures
        v.contains(x) ==> push_if(v, cond, cmd).contains(x),
        cond ==> push_if(v, cond, cmd).contains(cmd),
{
    if cond {
        if v.contains(x) {
            let k = choose|k: int| 0 <= k < v.len() && v[k] == x;
            assert(v.push(cmd)[k] == x);
        }
        assert(v.push(cmd)[v.len() as int] == cmd);
    }
}

/// Each marker file in the project root brings its test command: `Cargo.toml`
/// `cargo test`, `go.mod` `go test ./...`, a Python marker `pytest`,
/// `package.json` `npm test`, `pom.xml` `mvn test`, a Gradle build file
/// `gradle test`, a `Makefile` `make test`.
pub proof fn law_markers_bring_test_commands(files: Seq<Seq<char>>)
    ensures
        files.contains("Cargo.toml"@) ==> test_commands(files).contains("cargo test"@),
        files.contains("go.mod"@) ==> test_commands(files).contains("go test ./..."@),
        files.contains("pyproject.toml"@) || files.contains("setup.py"@) || files.contains("requirements.txt"@)
            ==> test_commands(files).contains("pytest"@),
        files.contains("package.json"@) ==> test_commands(files).contains("npm test"@),
        files.contains("pom.xml"@) ==> test_commands(files).contains("mvn test"@),
        files.contains("build.gradle"@) || files.contains("build.gradle.kts"@)
            ==> test_commands(files).contains("gradle test"@),
        files.contains("Makefile"@) ==> test_commands(files).contains("make test"@),
{
    let c0: Seq<Seq<char>> = seq![];
    let f1 = files.contains("Cargo.toml"@);
    let f2 = files.contains("go.mod"@);
    let f3 = files.contains("pyproject.toml"@) || files.contains("setup.py"@) || files.contains("requirements.txt"@);
    let f4 = files.contains("package.json"@);
    let f5 = files.contains("pom.xml"@);
    let f6 = files.contains("build.gradle"@) || files.contains("build.gradle.kts"@);
    let f7 = files.contains("Makefile"@);
    let c1 = push_if(c0, f1, "cargo test"@);
    let c2 = push_if(c1, f2, "go test ./..."@);
    let c3 = push_if(c2, f3, "pytest"@);
    let c4 = push_if(c3, f4, "npm test"@);
    let c5 = push_if(c4, f5, "mvn test"@);
    let c6 = push_if(c5, f6, "gradle test"@);
    let c7 = push_if(c6, f7, "make test"@);
    let cmds = seq!["cargo test"@, "go test ./..."@, "pytest"@, "npm test"@, "mvn test"@, "gradle test"@, "make test"@];
    assert forall|x: Seq<char>| #[trigger] cmds.contains(x) implies (c1.contains(x) ==> c7.contains(x))
        && (c2.contains(x) ==> c7.contains(x)) && (c3.contains(x) ==> c7.contains(x))
        && (c4.contains(x) ==> c7.contains(x)) && (c5.contains(x) ==> c7.contains(x))
        && (c6.contains(x) ==> c7.contains(x)) by {
        lemma_push_if_keeps(c1, f2, "go test ./..."@, x);
        lemma_push_if_keeps(c2, f3, "pytest"@, x);
        lemma_push_if_keeps(c3, f4, "npm test"@, x);
        lemma_push_if_keeps(c4, f5, "mvn test"@, x);
        lemma_push_if_keeps(c5, f6, "gradle test"@, x);
        lemma_push_if_keeps(c6, f7, "make test"@, x);
    }
    lemma_push_if_keeps(c0, f1, "cargo test"@, "cargo test"@);
    lemma_push_if_keeps(c1, f2, "go test ./..."@, "go test ./..."@);
    lemma_push_if_keeps(c2, f3, "pytest"@, "pytest"@);
    lemma_push_if_keeps(c3, f4, "npm test"@, "npm test"@);
    lemma_push_if_keeps(c4, f5, "mvn test"@, "mvn test"@);
    lemma_push_if_keeps(c5, f6, "gradle test"@, "gradle test"@);
    lemma_push_if_keeps(c6, f7, "make test"@, "make test"@);
    assert(cmds[0] == "cargo test"@ && cmds[1] == "go test ./..."@ && cmds[2] == "pytest"@);
    assert(cmds[3] == "npm test"@ && cmds[4] == "mvn test"@ && cmds[5] == "gradle test"@);
    assert(cmds.contains("cargo test"@) && cmds.contains("go test ./..."@) && cmds.contains("pytest"@));
    assert(cmds.contains("npm test"@) && cmds.contains("mvn test"@) && cmds.contains("gradle test"@));
    if c7.len() > 0 {
        assert(test_commands(files) == c7);
    }
}

/// The last occurrence of `p` in `t`.
pub open spec fn rfind_spec(t: Seq<char>, p: Seq<char>, upto: int) -> Option<int>
    decreases upto + 1,
{
    if upto < 0 {
        None
    } else if upto + p.len() <= t.len() && t.subrange(upto, upto + p.len()) == p {
        Some(upto)
    } else {
        rfind_spec(t, p, upto - 1)
    }
}

/// The last piece of `t` split at `sep` (all of `t` when `sep` does not occur).
pub open spec fn last_piece(t: Seq<char>, sep: Seq<char>) -> Seq<char> {
    match rfind_spec(t, sep, t.len() as int) {
        Some(i) => t.skip(i + sep.len()),
        None => t,
    }
}

/// The file a diff line announces: on a `diff --git a/... b/...` line, the
/// trimmed text after the last ` b/`.
pub open spec fn changed_file_of_line(line: Seq<char>) -> Option<Seq<char>> {
    if has_prefix(line, "diff --git "@) {
        Some(trim(last_piece(line.skip(11), " b/"@)))
    } else {
        None
    }
}

/// The files announced by the lines `ls`, each once, in order of first mention.
pub open spec fn changed_files_from(ls: Seq<Seq<char>>) -> Seq<Seq<char>>
    decreases ls.len(),
{
    if ls.len() == 0 {
        seq![]
    } else {
        let acc = changed_files_from(ls.drop_last());
        match changed_file_of_line(ls.last()) {
            Some(f) => if f.len() > 0 && !acc.contains(f) {
                acc.push(f)
            } else {
                acc
            },
            None => acc,
        }
    }
}

proof fn lemma_rfind_bounds(t: Seq<char>, p: Seq<char>, upto: int)
    ensures
        rfind_spec(t, p, upto) matches Some(i) ==> 0 <= i <= upto && i + p.len() <= t.len(),
    decreases upto + 1,
{
    if upto >= 0 && !(upto + p.len() <= t.len() && t.subrange(upto, upto + p.len()) == p) {
        lemma_rfind_bounds(t, p, upto - 1);
    }
}

/// The last piece of `t` after `sep`.
fn last_piece_exec(t: &Vec<char>, sep: &Vec<char>) -> (r: Vec<char>)
    ensures
        r@ == last_piece(t@, sep@),
{
    let mut i: usize = t.len();
    loop
        invariant
            i <= t@.len(),
            rfind_spec(t@, sep@, t@.len() as int) == rfind_spec(t@, sep@, i as int),
        decreases i,
    {
        if crate::text::occurs_at(t, sep, i) {
            proof {
                lemma_rfind_bounds(t@, sep@, i as int);
            }
            let n = t.len();
            let m = sep.len();
            assert(i + m <= n);
            let r = sub_chars(t, i + m, n);
            assert(r@ =~= t@.skip(i + sep@.len()));
            return r;
        }
        if i == 0 {
            assert(rfind_spec(t@, sep@, -1) is None);
            return sub_chars(t, 0, t.len());
        }
        i = i - 1;
    }
}

/// List files changed in the diff string (parses `diff --git a/... b/...` lines).
pub fn parse_changed_files(diff: &str) -> (r: Vec<String>)
    ensures
        string_views(r@) == changed_files_from(lines(diff@)),
{
    let ls = split_lines(&to_chars(diff));
    let prefix = to_chars("diff --git ");
    let sep = to_chars(" b/");
    proof {
        reveal_strlit("diff --git ");
    }
    let mut files: Vec<String> = Vec::new();
    let mut i: usize = 0;
    while i < ls.len()
        invariant
            i <= ls@.len(),
            views(ls@) == lines(diff@),
            prefix@ == "diff --git "@,
            prefix@.len() == 11,
            sep@ == " b/"@,
            string_views(files@) == changed_files_from(views(ls@).take(i as int)),
        decreases ls.len() - i,
    {
        let line = &ls[i];
        assert(views(ls@).take(i as int + 1).drop_last() =~= views(ls@).take(i as int));
        assert(views(ls@).take(i as int + 1).last() == line@);
        if starts_with(line, &prefix) {
            let rest = sub_chars(line, 11, line.len());
            assert(rest@ =~= line@.skip(11));
            let file = trim_chars(&last_piece_exec(&rest, &sep));
            if file.len() > 0 && !contains_string(&files, &file) {
                let ghost f0 = string_views(files@);
                files.push(from_chars(&file));
                assert(string_views(files@) =~= f0.push(file@));
            }
        }
        i = i + 1;
    }
    assert(views(ls@).take(ls@.len() as int) =~= views(ls@));
    files
}

/// No file is listed twice.
pub proof fn law_changed_files_distinct(ls: Seq<Seq<char>>)
    ensures
        changed_files_from(ls).no_duplicates(),
    decreases ls.len(),
{
    if ls.len() > 0 {
        law_changed_files_distinct(ls.drop_last());
    }
}

} // verus!
