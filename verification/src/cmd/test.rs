//! `test`: generate unit tests for a file or one symbol of it.
use vstd::prelude::*;

use crate::context::{first_lines, limit_lines, line_range, symbol_lines};
use crate::cmd::explain::{matching_lines, matching_lines_spec, start_index};
use crate::text::{append_chars, from_chars, lines, split_lines, str_to_string, string_views, to_chars};

verus! {

broadcast use vstd::string::group_string_axioms;

pub const SYSTEM_PROMPT: &'static str = "You are a unit test generator. Given source code, generate comprehensive unit tests.\nRules:\n1. Cover normal cases, edge cases, and error cases.\n2. Use the project's test framework and conventions.\n3. Output ONLY valid test code, no explanations.\n4. Use descriptive test function names.\n5. Follow the language's testing conventions (#[test] for Rust, func Test for Go, def test_ for Python, etc.).\n6. Include necessary imports and setup code.\n7. Test the function's public behavior, not implementation details.";

/// How many lines of an existing test file are shown to the model.
pub const EXAMPLE_LINE_LIMIT: usize = 100;

/// The code to write tests for, for a symbol: its recorded lines where the
/// index knows it (`found`, first and last line) and its first line is in the
/// file; else the lines that mention it.
pub fn extract_symbol_for_test(content: &str, sym: &str, found: Option<(usize, usize)>) -> (r: String)
    requires
        found matches Some((s, e)) ==> (start_index(s as int) < lines(content@).len() ==> e + 1 >= s),
    ensures
        r@ == match found {
            Some((s, e)) => if start_index(s as int) < lines(content@).len() {
                line_range(content@, s as int, e as int)
            } else {
                matching_lines_spec(content@, sym@)
            },
            None => matching_lines_spec(content@, sym@),
        },
{
    match found {
        Some((s, e)) => {
            let n = split_lines(&to_chars(content)).len();
            let start = if s > 0 {
                s - 1
            } else {
                0
            };
            if start < n {
                return symbol_lines(content, s, e);
            }
            matching_lines(content, sym)
        },
        None => matching_lines(content, sym),
    }
}

/// The test framework named to the model: the first detected test command,
/// or `unknown`.
pub fn test_framework(cmds: &Vec<String>) -> (r: String)
    ensures
        r@ == if cmds@.len() > 0 {
            string_views(cmds@)[0]
        } else {
            "unknown"@
        },
{
    if cmds.len() > 0 {
        str_to_string(cmds[0].as_str())
    } else {
        str_to_string("unknown")
    }
}

/// Where a test file for a source file with this stem may be, relative to
/// the source file's directory, in the order they are tried.
pub open spec fn test_candidates_spec(stem: Seq<char>) -> Seq<Seq<char>> {
    seq![
        stem + "_test.rs"@,
        "test_"@ + stem + ".rs"@,
        stem + "_test.go"@,
        "test_"@ + stem + ".py"@,
        stem + ".test.ts"@,
        stem + ".spec.ts"@,
        "tests/"@ + stem + ".rs"@,
        "tests/"@ + stem + "_test.go"@,
    ]
}

fn wrap(before: &str, stem: &str, after: &str) -> (r: String)
    ensures
        r@ == before@ + stem@ + after@,
{
    let mut v = to_chars(before);
    append_chars(&mut v, &to_chars(stem));
    append_chars(&mut v, &to_chars(after));
    from_chars(&v)
}

/// The test files tried for a source file with this stem.
pub fn test_file_candidates(stem: &str) -> (r: Vec<String>)
    ensures
        string_views(r@) == test_candidates_spec(stem@),
{
    let r = vec![
        wrap("", stem, "_test.rs"),
        wrap("test_", stem, ".rs"),
        wrap("", stem, "_test.go"),
        wrap("test_", stem, ".py"),
        wrap("", stem, ".test.ts"),
        wrap("", stem, ".spec.ts"),
        wrap("tests/", stem, ".rs"),
        wrap("tests/", stem, "_test.go"),
    ];
    proof {
        reveal_strlit("");
        assert(""@ + stem@ =~= stem@);
    }
    assert(string_views(r@) =~= test_candidates_spec(stem@));
    r
}

/// What is shown of an existing test file: its first `EXAMPLE_LINE_LIMIT` lines.
pub fn example_excerpt(content: &str) -> (r: String)
    ensures
        r@ == first_lines(content@, EXAMPLE_LINE_LIMIT as int),
{
    limit_lines(content, EXAMPLE_LINE_LIMIT)
}

/// The prompt asking for tests, with an existing test file where one was
/// found (it is named by its own text, as the command always did).
pub fn test_prompt(framework: &str, code: &str, existing: Option<&str>) -> (r: String)
    ensures
        r@ == "Generate unit tests for the following code.\n\nTest framework: "@ + framework@
            + "\n\nTarget code:\n```\n"@ + code@ + "\n```"@ + match existing {
            Some(x) => "\n\nExisting test file for reference ("@ + x@ + "):\n```\n"@ + x@ + "\n```"@,
            None => seq![],
        },
{
    let mut v = to_chars("Generate unit tests for the following code.\n\nTest framework: ");
    append_chars(&mut v, &to_chars(framework));
    append_chars(&mut v, &to_chars("\n\nTarget code:\n```\n"));
    append_chars(&mut v, &to_chars(code));
    append_chars(&mut v, &to_chars("\n```"));
    match existing {
        Some(x) => {
            append_chars(&mut v, &to_chars("\n\nExisting test file for reference ("));
            append_chars(&mut v, &to_chars(x));
            append_chars(&mut v, &to_chars("):\n```\n"));
            append_chars(&mut v, &to_chars(x));
            append_chars(&mut v, &to_chars("\n```"));
        },
        None => {},
    }
    from_chars(&v)
}

} // verus!
