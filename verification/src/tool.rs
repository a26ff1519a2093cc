//! Tool calls that the model asks for in its replies: how they are found in a
//! reply, which tool each names, and how their results are reported back.
use vstd::prelude::*;

use crate::text::{
    append_chars, decimal, from_chars, lines, split_lines, split_whitespace, split_ws,
    str_byte_len, str_to_string, to_chars, trim, trim_chars, u64_to_string, views, byte_len,
    is_char_boundary,
};
use crate::json::{field_str, json_document, json_field, jview, parse_json, take_field, JsonValue, JsonView};
use crate::util::{truncate, truncated};

verus! {

broadcast use vstd::string::group_string_axioms;

/// A tool call requested by the model: the tool's name and its JSON arguments.
pub struct ToolCall {
    pub name: String,
    pub args: JsonValue,
}

/// Result of executing a tool.
pub struct ToolResult {
    pub tool: String,
    pub success: bool,
    pub output: String,
}

// ── Finding the blocks ──

/// The blocks of a reply, line by line: a line that trims to "```tool" opens a
/// block (dropping what an open one held), a line that trims to "```" closes an
/// open one, and the lines between make its text, each followed by a newline.
/// A block still open at the end is dropped.
pub open spec fn blocks_from(ls: Seq<Seq<char>>, open: bool, cur: Seq<char>) -> Seq<Seq<char>>
    decreases ls.len(),
{
    if ls.len() == 0 {
        seq![]
    } else if trim(ls[0]) == "```tool"@ {
        blocks_from(ls.drop_first(), true, seq![])
    } else if open && trim(ls[0]) == "```"@ {
        seq![cur] + blocks_from(ls.drop_first(), false, cur)
    } else if open {
        blocks_from(ls.drop_first(), true, cur + ls[0] + seq!['\n'])
    } else {
        blocks_from(ls.drop_first(), false, cur)
    }
}

/// The texts of the tool blocks of a reply.
pub open spec fn tool_blocks(response: Seq<char>) -> Seq<Seq<char>> {
    blocks_from(lines(response), false, seq![])
}

/// The texts of the ```tool blocks of a reply, in order.
pub fn extract_tool_blocks(response: &str) -> (r: Vec<Vec<char>>)
    ensures
        views(r@) == tool_blocks(response@),
{
    let ls = split_lines(&to_chars(response));
    let open_tag = to_chars("```tool");
    let close_tag = to_chars("```");
    let mut out: Vec<Vec<char>> = Vec::new();
    let mut open = false;
    let mut cur: Vec<char> = Vec::new();
    let mut i: usize = 0;
    assert(views(ls@).skip(0) =~= views(ls@));
    while i < ls.len()
        invariant
            i <= ls@.len(),
            views(ls@) == lines(response@),
            open_tag@ == "```tool"@,
            close_tag@ == "```"@,
            views(out@) + blocks_from(views(ls@).skip(i as int), open, cur@) == tool_blocks(response@),
        decreases ls.len() - i,
    {
        let ghost rest = views(ls@).skip(i as int);
        assert(rest[0] == ls@[i as int]@);
        assert(rest.drop_first() =~= views(ls@).skip(i as int + 1));
        let t = trim_chars(&ls[i]);
        let ghost old_cur = cur@;
        let ghost old_open = open;
        if crate::text::chars_eq(&t, &open_tag) {
            assert(blocks_from(rest, old_open, old_cur) == blocks_from(rest.drop_first(), true, seq![]));
            open = true;
            cur = Vec::new();
            assert(cur@ =~= Seq::<char>::empty());
        } else if open && crate::text::chars_eq(&t, &close_tag) {
            let ghost before = views(out@);
            let ghost c = cur@;
            out.push(crate::text::sub_chars(&cur, 0, cur.len()));
            assert(cur@.subrange(0, cur@.len() as int) =~= cur@);
            assert(views(out@) =~= before.push(c));
            assert(blocks_from(rest, old_open, old_cur) == seq![c] + blocks_from(rest.drop_first(), false, c));
            assert(before + (seq![c] + blocks_from(rest.drop_first(), false, c)) =~= views(out@)
                + blocks_from(rest.drop_first(), false, c));
            open = false;
        } else if open {
            assert(blocks_from(rest, old_open, old_cur) == blocks_from(rest.drop_first(), true, old_cur + rest[0] + seq!['\n']));
            append_chars(&mut cur, &ls[i]);
            cur.push('\n');
            assert(cur@ =~= old_cur + rest[0] + seq!['\n']);
        } else {
            assert(blocks_from(rest, old_open, old_cur) == blocks_from(rest.drop_first(), false, old_cur));
        }
        i = i + 1;
    }
    assert(views(ls@).skip(i as int) =~= Seq::<Seq<char>>::empty());
    assert(views(out@) + Seq::<Seq<char>>::empty() =~= views(out@));
    out
}

// ── Reading a block ──

/// The tool named by a block: the `name` string of the JSON document it
/// holds, where it is one and not empty.
pub open spec fn block_call_name(block: Seq<char>) -> Option<Seq<char>> {
    match json_document(block) {
        Some(v) => match json_field(v, "name"@) {
            Some(JsonView::Str(n)) => if n.len() > 0 {
                Some(n)
            } else {
                None
            },
            _ => None,
        },
        None => None,
    }
}

/// The arguments a block gives: the `args` field of its JSON document, `null`
/// where it has none.
pub open spec fn block_call_args(block: Seq<char>) -> JsonView {
    match json_document(block) {
        Some(v) => match json_field(v, "args"@) {
            Some(a) => a,
            None => JsonView::Null,
        },
        None => JsonView::Null,
    }
}

/// The tools named by the blocks, in order, skipping blocks that name none.
pub open spec fn call_names(blocks: Seq<Seq<char>>) -> Seq<Seq<char>>
    decreases blocks.len(),
{
    if blocks.len() == 0 {
        seq![]
    } else {
        let rest = call_names(blocks.drop_last());
        match block_call_name(blocks.last()) {
            Some(n) => rest.push(n),
            None => rest,
        }
    }
}

/// The arguments of the calls the blocks make, in order, skipping blocks
/// that name no tool.
pub open spec fn call_args(blocks: Seq<Seq<char>>) -> Seq<JsonView>
    decreases blocks.len(),
{
    if blocks.len() == 0 {
        seq![]
    } else {
        let rest = call_args(blocks.drop_last());
        match block_call_name(blocks.last()) {
            Some(n) => rest.push(block_call_args(blocks.last())),
            None => rest,
        }
    }
}

pub open spec fn tool_call_names(v: Seq<ToolCall>) -> Seq<Seq<char>> {
    v.map_values(|c: ToolCall| c.name@)
}

pub open spec fn tool_call_args(v: Seq<ToolCall>) -> Seq<JsonView> {
    v.map_values(|c: ToolCall| jview(c.args))
}

/// Parse tool calls from model response text: one call per ```tool block
/// whose text is JSON with a non-empty `name` string, with the block's `args`.
pub fn parse_tool_calls(response: &str) -> (r: Vec<ToolCall>)
    ensures
        tool_call_names(r@) == call_names(tool_blocks(response@)),
        tool_call_args(r@) == call_args(tool_blocks(response@)),
{
    let blocks = extract_tool_blocks(response);
    let mut calls: Vec<ToolCall> = Vec::new();
    let mut i: usize = 0;
    while i < blocks.len()
        invariant
            i <= blocks@.len(),
            views(blocks@) == tool_blocks(response@),
            tool_call_names(calls@) == call_names(views(blocks@).take(i as int)),
            tool_call_args(calls@) == call_args(views(blocks@).take(i as int)),
        decreases blocks.len() - i,
    {
        let ghost b = blocks@[i as int]@;
        assert(views(blocks@).take(i as int + 1).drop_last() =~= views(blocks@).take(i as int));
        assert(views(blocks@).take(i as int + 1).last() == b);
        let text = from_chars(&blocks[i]);
        match parse_json(text.as_str()) {
            Some(doc) => {
                match field_str(&doc, "name") {
                    Some(name) => {
                        if to_chars(name.as_str()).len() > 0 {
                            let args = match take_field(doc, "args") {
                                Some(a) => a,
                                None => JsonValue::Null,
                            };
                            let ghost n0 = tool_call_names(calls@);
                            let ghost a0 = tool_call_args(calls@);
                            let ghost nv = name@;
                            let ghost av = jview(args);
                            calls.push(ToolCall { name, args });
                            assert(tool_call_names(calls@) =~= n0.push(nv));
                            assert(tool_call_args(calls@) =~= a0.push(av));
                        }
                    },
                    None => {},
                }
            },
            None => {},
        }
        i = i + 1;
    }
    assert(views(blocks@).take(blocks@.len() as int) =~= views(blocks@));
    calls
}

// ── Reporting results ──

/// How one result is reported: `[OK] tool: ` or `[FAILED] tool: `, a newline,
/// the output and a blank line.
pub open spec fn result_entry(tool: Seq<char>, success: bool, output: Seq<char>) -> Seq<char> {
    "["@ + (if success {
        "OK"@
    } else {
        "FAILED"@
    }) + "] "@ + tool + ": \n"@ + output + "\n\n"@
}

pub open spec fn result_entries(rs: Seq<ToolResult>) -> Seq<char>
    decreases rs.len(),
{
    if rs.len() == 0 {
        seq![]
    } else {
        result_entries(rs.drop_last()) + result_entry(rs.last().tool@, rs.last().success, rs.last().output@)
    }
}

/// Format tool results for feeding back to the model.
pub fn format_tool_results(results: &[ToolResult]) -> (r: String)
    ensures
        r@ == "Tool execution results:\n\n"@ + result_entries(results@),
{
    let mut out = to_chars("Tool execution results:\n\n");
    let mut i: usize = 0;
    while i < results.len()
        invariant
            i <= results@.len(),
            out@ == "Tool execution results:\n\n"@ + result_entries(results@.take(i as int)),
        decreases results.len() - i,
    {
        let r = &results[i];
        assert(results@.take(i as int + 1).drop_last() =~= results@.take(i as int));
        append_chars(&mut out, &to_chars("["));
        if r.success {
            append_chars(&mut out, &to_chars("OK"));
        } else {
            append_chars(&mut out, &to_chars("FAILED"));
        }
        append_chars(&mut out, &to_chars("] "));
        append_chars(&mut out, &to_chars(r.tool.as_str()));
        append_chars(&mut out, &to_chars(": \n"));
        append_chars(&mut out, &to_chars(r.output.as_str()));
        append_chars(&mut out, &to_chars("\n\n"));
        i = i + 1;
        assert(out@ =~= "Tool execution results:\n\n"@ + result_entries(results@.take(i as int)));
    }
    assert(results@.take(results@.len() as int) =~= results@);
    from_chars(&out)
}

/// The tools the model may call.
#[derive(Debug, Clone, Copy, PartialEq, Eq, Structural)]
pub enum ToolKind {
    ReadFile,
    WriteFile,
    RunCommand,
    SearchCode,
    GitDiff,
    GitStatus,
}

pub open spec fn tool_kind_spec(name: Seq<char>) -> Option<ToolKind> {
    if name == "read_file"@ {
        Some(ToolKind::ReadFile)
    } else if name == "write_file"@ {
        Some(ToolKind::WriteFile)
    } else if name == "run_command"@ {
        Some(ToolKind::RunCommand)
    } else if name == "search_code"@ {
        Some(ToolKind::SearchCode)
    } else if name == "git_diff"@ {
        Some(ToolKind::GitDiff)
    } else if name == "git_status"@ {
        Some(ToolKind::GitStatus)
    } else {
        None
    }
}

/// The tool a call names, if it is one of the tools.
pub fn tool_kind(name: &str) -> (r: Option<ToolKind>)
    ensures
        r == tool_kind_spec(name@),
{
    let n = to_chars(name);
    if crate::text::eq_str(&n, "read_file") {
        Some(ToolKind::ReadFile)
    } else if crate::text::eq_str(&n, "write_file") {
        Some(ToolKind::WriteFile)
    } else if crate::text::eq_str(&n, "run_command") {
        Some(ToolKind::RunCommand)
    } else if crate::text::eq_str(&n, "search_code") {
        Some(ToolKind::SearchCode)
    } else if crate::text::eq_str(&n, "git_diff") {
        Some(ToolKind::GitDiff)
    } else if crate::text::eq_str(&n, "git_status") {
        Some(ToolKind::GitStatus)
    } else {
        None
    }
}

/// The error text for a call of a tool that does not exist.
pub fn unknown_tool_message(name: &str) -> (r: String)
    ensures
        r@ == "Unknown tool: "@ + name@,
{
    let mut v = to_chars("Unknown tool: ");
    append_chars(&mut v, &to_chars(name));
    from_chars(&v)
}

impl ToolResult {
    /// The result of running `tool`: its output on success, `Error: ` and the
    /// error text on failure.
    pub fn from_outcome(tool: String, outcome: Result<String, String>) -> (r: Self)
        ensures
            r.tool == tool,
            r.success == outcome is Ok,
            match outcome {
                Ok(o) => r.output == o,
                Err(e) => r.output@ == "Error: "@ + e@,
            },
    {
        match outcome {
            Ok(output) => ToolResult { tool, success: true, output },
            Err(e) => {
                let mut v = to_chars("Error: ");
                append_chars(&mut v, &to_chars(e.as_str()));
                ToolResult { tool, success: false, output: from_chars(&v) }
            },
        }
    }
}

// ── Tool outputs ──

/// How much of a file the read tool passes on, in bytes.
pub const READ_LIMIT: usize = 10000;

/// How much of a command's or search's output is passed on, in characters.
pub const OUTPUT_LIMIT: usize = 5000;

/// What the read tool reports of a file: its name, its line count, and its
/// text (cut after `READ_LIMIT` bytes, with the full size noted).
pub open spec fn read_report_spec(display: Seq<char>, content: Seq<char>) -> Seq<char> {
    let body = if byte_len(content) > READ_LIMIT {
        content.take(crate::text::char_index_at(content, READ_LIMIT as int)) + "...(truncated, "@
            + decimal(byte_len(content)) + " total chars)"@
    } else {
        content
    };
    "File: "@ + display + " ("@ + decimal(lines(content).len()) + " lines)\n\n"@ + body
}

/// What the read tool reports for a file read whole.
pub fn read_file_report(display: &str, content: &str) -> (r: String)
    requires
        byte_len(content@) > READ_LIMIT ==> is_char_boundary(content@, READ_LIMIT as int),
    ensures
        r@ == read_report_spec(display@, content@),
{
    let cs = to_chars(content);
    let n_lines = split_lines(&cs).len();
    let mut v = to_chars("File: ");
    append_chars(&mut v, &to_chars(display));
    append_chars(&mut v, &to_chars(" ("));
    append_chars(&mut v, &to_chars(u64_to_string(n_lines as u64).as_str()));
    append_chars(&mut v, &to_chars(" lines)\n\n"));
    let len = str_byte_len(content);
    if len > READ_LIMIT {
        match crate::text::char_index_of_byte(&cs, READ_LIMIT) {
            Some(k) => {
                proof {
                    crate::text::lemma_char_index_at(cs@, k as int);
                }
                append_chars(&mut v, &crate::text::sub_chars(&cs, 0, k));
                assert(cs@.subrange(0, k as int) =~= cs@.take(k as int));
            },
            None => {},
        }
        append_chars(&mut v, &to_chars("...(truncated, "));
        append_chars(&mut v, &to_chars(u64_to_string(len as u64).as_str()));
        append_chars(&mut v, &to_chars(" total chars)"));
    } else {
        append_chars(&mut v, &cs);
    }
    from_chars(&v)
}

/// What the write tool reports after writing a file.
pub fn write_file_report(display: &str, content: &str) -> (r: String)
    ensures
        r@ == "Written "@ + decimal(lines(content@).len()) + " lines to "@ + display@,
{
    let n_lines = split_lines(&to_chars(content)).len();
    let mut v = to_chars("Written ");
    append_chars(&mut v, &to_chars(u64_to_string(n_lines as u64).as_str()));
    append_chars(&mut v, &to_chars(" lines to "));
    append_chars(&mut v, &to_chars(display));
    from_chars(&v)
}

/// The commands the run tool accepts, by first word.
pub open spec fn tool_commands() -> Seq<Seq<char>> {
    seq![
        "ls"@, "cat"@, "head"@, "tail"@, "wc"@, "find"@, "grep"@, "rg"@, "git"@, "python"@,
        "pip"@, "cargo"@, "npm"@, "node"@,
    ]
}

/// The first whitespace-separated word of a command ("" for none).
pub open spec fn first_word(command: Seq<char>) -> Seq<char> {
    if split_ws(command).len() > 0 {
        split_ws(command)[0]
    } else {
        seq![]
    }
}

/// The run tool's check of a command: accepted when its first word is one of
/// `tool_commands`; otherwise the error names the word and the accepted ones.
pub fn check_tool_command(command: &str) -> (r: Result<(), String>)
    ensures
        r is Ok <==> tool_commands().contains(first_word(command@)),
        r matches Err(e) ==> e@ == "Command not allowed: "@ + first_word(command@)
            + ". Allowed: [\"ls\", \"cat\", \"head\", \"tail\", \"wc\", \"find\", \"grep\", \"rg\", \"git\", \"python\", \"pip\", \"cargo\", \"npm\", \"node\"]"@,
{
    let words = split_whitespace(&to_chars(command));
    let first: Vec<char> = if words.len() > 0 {
        crate::text::sub_chars(&words[0], 0, words[0].len())
    } else {
        Vec::new()
    };
    proof {
        if words@.len() > 0 {
            assert(words@[0]@.subrange(0, words@[0]@.len() as int) =~= words@[0]@);
            assert(views(words@)[0] == words@[0]@);
        }
    }
    assert(first@ == first_word(command@));
    let allowed = vec![
        "ls", "cat", "head", "tail", "wc", "find", "grep", "rg", "git", "python", "pip", "cargo",
        "npm", "node",
    ];
    let ghost names = allowed@.map_values(|s: &str| s@);
    assert(names =~= tool_commands());
    let mut i: usize = 0;
    while i < allowed.len()
        invariant
            i <= allowed@.len(),
            names == allowed@.map_values(|s: &str| s@),
            names == tool_commands(),
            first@ == first_word(command@),
            forall|j: int| 0 <= j < i ==> names[j] != first@,
        decreases allowed.len() - i,
    {
        if crate::text::eq_str(&first, allowed[i]) {
            assert(names[i as int] == first@);
            assert(tool_commands()[i as int] == first@);
            assert(tool_commands().contains(first_word(command@)));
            return Ok(());
        }
        i = i + 1;
    }
    let mut v = to_chars("Command not allowed: ");
    append_chars(&mut v, &first);
    append_chars(
        &mut v,
        &to_chars(
            ". Allowed: [\"ls\", \"cat\", \"head\", \"tail\", \"wc\", \"find\", \"grep\", \"rg\", \"git\", \"python\", \"pip\", \"cargo\", \"npm\", \"node\"]",
        ),
    );
    Err(from_chars(&v))
}

/// What the run tool passes on of a command's output: standard output, then
/// standard error (after a separator line where both are there), or
/// `(no output)`; cut after `OUTPUT_LIMIT` characters.
pub open spec fn command_output_spec(stdout: Seq<char>, stderr: Seq<char>) -> Seq<char> {
    truncated(command_output_whole(stdout, stderr), OUTPUT_LIMIT as int)
}

/// The output before cutting.
pub open spec fn command_output_whole(stdout: Seq<char>, stderr: Seq<char>) -> Seq<char> {
    if stdout.len() == 0 && stderr.len() == 0 {
        "(no output)"@
    } else if stderr.len() == 0 {
        stdout
    } else if stdout.len() == 0 {
        stderr
    } else {
        stdout + "\n--- stderr ---\n"@ + stderr
    }
}

/// The run tool's report of a finished command.
pub fn command_output(stdout: &str, stderr: &str) -> (r: String)
    ensures
        r@ == command_output_spec(stdout@, stderr@),
{
    let mut v: Vec<char> = Vec::new();
    let so = to_chars(stdout);
    let se = to_chars(stderr);
    if so.len() > 0 {
        append_chars(&mut v, &so);
    }
    if se.len() > 0 {
        if v.len() > 0 {
            append_chars(&mut v, &to_chars("\n--- stderr ---\n"));
        }
        append_chars(&mut v, &se);
    }
    if v.len() == 0 {
        v = to_chars("(no output)");
    }
    assert(v@ =~= command_output_whole(stdout@, stderr@));
    let whole = from_chars(&v);
    truncate(whole.as_str(), OUTPUT_LIMIT)
}

/// The search tool's report: the search output (cut after `OUTPUT_LIMIT`
/// characters), or a note that nothing was found.
pub fn search_output(query: &str, stdout: &str) -> (r: String)
    ensures
        r@ == if stdout@.len() == 0 {
            "No results for: "@ + query@
        } else {
            truncated(stdout@, OUTPUT_LIMIT as int)
        },
{
    if to_chars(stdout).len() == 0 {
        let mut v = to_chars("No results for: ");
        append_chars(&mut v, &to_chars(query));
        from_chars(&v)
    } else {
        truncate(stdout, OUTPUT_LIMIT)
    }
}

/// The diff tool's report: the diff (cut after `OUTPUT_LIMIT` characters), or
/// `No changes.`.
pub fn diff_output(stdout: &str) -> (r: String)
    ensures
        r@ == if stdout@.len() == 0 {
            "No changes."@
        } else {
            truncated(stdout@, OUTPUT_LIMIT as int)
        },
{
    if to_chars(stdout).len() == 0 {
        str_to_string("No changes.")
    } else {
        truncate(stdout, OUTPUT_LIMIT)
    }
}

/// The status tool's report: the short status, or `Working tree clean.`.
pub fn status_output(stdout: &str) -> (r: String)
    ensures
        r@ == if stdout@.len() == 0 {
            "Working tree clean."@
        } else {
            stdout@
        },
{
    if to_chars(stdout).len() == 0 {
        str_to_string("Working tree clean.")
    } else {
        str_to_string(stdout)
    }
}

} // verus!
