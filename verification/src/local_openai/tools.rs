//! Replaying recorded tool calls to the model: the function name and the
//! JSON arguments of each supported tool.

use vstd::prelude::*;

use crate::api::{RunShellCommand, Tool, ToolCall, WaitUntilCompleteValue};
use crate::error::AIApiError;

verus! {

/// The lowercase hexadecimal digit for `n` (below 16).
pub open spec fn hex_digit(n: u32) -> char {
    if n < 10 {
        (48 + n) as char
    } else {
        (87 + n) as char
    }
}

/// How `serde_json` writes `c` inside a string literal: a quote and a
/// backslash are escaped with a backslash; backspace, tab, line feed, form
/// feed and carriage return get their short escapes; other control
/// characters below U+0020 become `\u00` and two lowercase hex digits; every
/// other character stands as it is.
pub open spec fn json_escape_char(c: char) -> Seq<char> {
    let u = c as u32;
    if c == '"' {
        seq!['\\', '"']
    } else if c == '\\' {
        seq!['\\', '\\']
    } else if u == 0x08 {
        seq!['\\', 'b']
    } else if u == 0x09 {
        seq!['\\', 't']
    } else if u == 0x0a {
        seq!['\\', 'n']
    } else if u == 0x0c {
        seq!['\\', 'f']
    } else if u == 0x0d {
        seq!['\\', 'r']
    } else if u < 0x20 {
        seq!['\\', 'u', '0', '0', hex_digit(u / 16), hex_digit(u % 16)]
    } else {
        seq![c]
    }
}

/// The characters of `s`, each written as `json_escape_char` writes it.
pub open spec fn json_escaped(s: Seq<char>) -> Seq<char>
    decreases s.len(),
{
    if s.len() == 0 {
        Seq::empty()
    } else {
        json_escape_char(s[0]) + json_escaped(s.drop_first())
    }
}

/// The JSON string literal that `serde_json` writes for `s`: the escaped text
/// in double quotes.
pub open spec fn json_string_literal(s: Seq<char>) -> Seq<char> {
    seq!['"'] + json_escaped(s) + seq!['"']
}

/// `s` as a JSON string literal (`serde_json::to_string` on a `str`).
///
/// Claims the literal that `serde_json`'s serializer writes, as its escape
/// table and `write_char_escape` show it. The call cannot fail on a string
/// slice: `to_string` writes the escaped text into an in-memory `Vec<u8>`,
/// and only a failing writer or a failing `Serialize` impl makes it return an
/// error.
#[verifier::external_body]
fn json_quoted(s: &str) -> (r: String)
    ensures
        r@ == json_string_literal(s@),
{
    serde_json::to_string(s).unwrap_or_default()
}

/// The message of the error for a tool call without its tool.
pub open spec fn missing_tool_message() -> Seq<char> {
    "Tool call is missing tool payload"@
}

/// The message of the error for a tool call that cannot be replayed.
pub open spec fn unsupported_replay_message() -> Seq<char> {
    "Local OpenAI backend cannot replay unsupported Warp tool call"@
}

/// The message of the error for a tool call whose arguments cannot be
/// written.
pub open spec fn unsupported_arguments_message() -> Seq<char> {
    "Local OpenAI backend cannot serialize unsupported Warp tool call"@
}

/// The function name under which the model knows a recorded tool call:
/// `run_shell_command` for shell commands; other tools cannot be replayed.
pub fn openai_name_for_warp_tool_call(tool_call: &ToolCall) -> (r: Result<String, AIApiError>)
    ensures
        match tool_call.tool {
            None => r matches Err(e) && e.is_other(missing_tool_message()),
            Some(Tool::RunShellCommand(_)) => r matches Ok(n) && n@ == "run_shell_command"@,
            Some(Tool::Other(_)) => r matches Err(e) && e.is_other(unsupported_replay_message()),
        },
{
    match &tool_call.tool {
        None => {
            let mut m = String::new();
            m.append("Tool call is missing tool payload");
            Err(AIApiError::Other(m))
        },
        Some(Tool::RunShellCommand(_)) => Ok(String::from_str("run_shell_command")),
        Some(Tool::Other(_)) => {
            let mut m = String::new();
            m.append("Local OpenAI backend cannot replay unsupported Warp tool call");
            Err(AIApiError::Other(m))
        },
    }
}

/// The JSON literal of a boolean.
pub open spec fn json_bool(b: bool) -> Seq<char> {
    if b {
        "true"@
    } else {
        "false"@
    }
}

/// Whether a shell command is to be waited for, as the arguments report it:
/// absent where the call does not say.
pub open spec fn wait_until_completion(v: Option<WaitUntilCompleteValue>) -> Option<bool> {
    match v {
        Some(WaitUntilCompleteValue::WaitUntilComplete(b)) => Some(b),
        None => None,
    }
}

/// The JSON arguments of a shell command call: an object with the keys
/// `command`, `is_read_only`, `is_risky`, `uses_pager` and
/// `wait_until_completion` (`null` where the call does not say), in that
/// order, without spaces.
pub open spec fn run_shell_arguments_spec(run: RunShellCommand) -> Seq<char> {
    "{\"command\":"@ + json_string_literal(run.command@) + ",\"is_read_only\":"@ + json_bool(
        run.is_read_only,
    ) + ",\"is_risky\":"@ + json_bool(run.is_risky) + ",\"uses_pager\":"@ + json_bool(
        run.uses_pager,
    ) + ",\"wait_until_completion\":"@ + match wait_until_completion(
        run.wait_until_complete_value,
    ) {
        Some(b) => json_bool(b),
        None => "null"@,
    } + "}"@
}

/// Appends the JSON literal of `b`.
fn push_json_bool(s: &mut String, b: bool)
    ensures
        final(s)@ == old(s)@ + json_bool(b),
{
    if b {
        s.append("true");
    } else {
        s.append("false");
    }
}

/// The JSON arguments of a shell command call.
pub fn run_shell_arguments(run: &RunShellCommand) -> (r: String)
    ensures
        r@ == run_shell_arguments_spec(*run),
{
    let mut s = String::new();
    s.append("{\"command\":");
    let command = json_quoted(run.command.as_str());
    s.append(command.as_str());
    s.append(",\"is_read_only\":");
    push_json_bool(&mut s, run.is_read_only);
    s.append(",\"is_risky\":");
    push_json_bool(&mut s, run.is_risky);
    s.append(",\"uses_pager\":");
    push_json_bool(&mut s, run.uses_pager);
    s.append(",\"wait_until_completion\":");
    match &run.wait_until_complete_value {
        Some(WaitUntilCompleteValue::WaitUntilComplete(b)) => push_json_bool(&mut s, *b),
        None => s.append("null"),
    }
    s.append("}");
    proof {
        assert(s@ =~= run_shell_arguments_spec(*run));
    }
    s
}

/// The member `"key":value` of a JSON object, without separators.
pub open spec fn json_member(key: Seq<char>, value: Seq<char>) -> Seq<char> {
    "\""@ + key + "\":"@ + value
}

/// Whether `s` is the member `"key":value` between `pre` and `post`, where
/// `pre` ends with an opening brace or a comma and `post` starts with a comma
/// or the closing brace.
pub open spec fn json_member_between(
    s: Seq<char>,
    pre: Seq<char>,
    post: Seq<char>,
    key: Seq<char>,
    value: Seq<char>,
) -> bool {
    &&& s == pre + json_member(key, value) + post
    &&& pre.len() > 0
    &&& (pre.last() == '{' || pre.last() == ',')
    &&& post.len() > 0
    &&& (post[0] == ',' || post[0] == '}')
}

/// Whether the JSON object text `s` holds the member `"key":value`.
pub open spec fn has_json_member(s: Seq<char>, key: Seq<char>, value: Seq<char>) -> bool {
    exists|pre: Seq<char>, post: Seq<char>| json_member_between(s, pre, post, key, value)
}

/// The quoted key and colon that open the member for `key`.
spec fn member_head(key: Seq<char>) -> Seq<char> {
    "\""@ + key + "\":"@
}

/// The separators and keys of the shell arguments, split into their parts.
proof fn lemma_shell_argument_keys()
    ensures
        "{\"command\":"@ == "{"@ + member_head("command"@),
        ",\"is_read_only\":"@ == ","@ + member_head("is_read_only"@),
        ",\"is_risky\":"@ == ","@ + member_head("is_risky"@),
        ",\"uses_pager\":"@ == ","@ + member_head("uses_pager"@),
        ",\"wait_until_completion\":"@ == ","@ + member_head("wait_until_completion"@),
        ","@ == seq![','],
        "}"@ == seq!['}'],
        "{"@ == seq!['{'],
{
    reveal_strlit("{\"command\":");
    reveal_strlit(",\"is_read_only\":");
    reveal_strlit(",\"is_risky\":");
    reveal_strlit(",\"uses_pager\":");
    reveal_strlit(",\"wait_until_completion\":");
    reveal_strlit("}");
    reveal_strlit("{");
    reveal_strlit(",");
    reveal_strlit("\"");
    reveal_strlit("\":");
    reveal_strlit("command");
    reveal_strlit("is_read_only");
    reveal_strlit("is_risky");
    reveal_strlit("uses_pager");
    reveal_strlit("wait_until_completion");
    assert("{\"command\":"@ =~= "{"@ + member_head("command"@));
    assert(",\"is_read_only\":"@ =~= ","@ + member_head("is_read_only"@));
    assert(",\"is_risky\":"@ =~= ","@ + member_head("is_risky"@));
    assert(",\"uses_pager\":"@ =~= ","@ + member_head("uses_pager"@));
    assert(",\"wait_until_completion\":"@ =~= ","@ + member_head("wait_until_completion"@));
}

/// A member whose separator-and-key literal `l` follows `x` and whose value
/// `v` is followed by `rest` stands between `x` with the separator and
/// `rest`.
proof fn lemma_member_after(
    x: Seq<char>,
    l: Seq<char>,
    sep: Seq<char>,
    key: Seq<char>,
    v: Seq<char>,
    rest: Seq<char>,
    s: Seq<char>,
)
    requires
        s == x + l + v + rest,
        l == sep + member_head(key),
        sep.len() == 1,
        sep[0] == '{' || sep[0] == ',',
        rest.len() > 0,
        rest[0] == ',' || rest[0] == '}',
    ensures
        has_json_member(s, key, v),
{
    let pre = x + sep;
    assert(s =~= pre + json_member(key, v) + rest);
    assert(pre.last() == sep[0]);
    assert(json_member_between(s, pre, rest, key, v));
}

/// The arguments of a shell command call are a JSON object in which each
/// key holds the field it names: `command` the command as a JSON string,
/// `is_read_only`, `is_risky` and `uses_pager` their own flags, and
/// `wait_until_completion` the call's choice, or `null` where it makes none.
pub proof fn law_shell_arguments_members(run: RunShellCommand)
    ensures
        ({
            let s = run_shell_arguments_spec(run);
            &&& has_json_member(s, "command"@, json_string_literal(run.command@))
            &&& has_json_member(s, "is_read_only"@, json_bool(run.is_read_only))
            &&& has_json_member(s, "is_risky"@, json_bool(run.is_risky))
            &&& has_json_member(s, "uses_pager"@, json_bool(run.uses_pager))
            &&& has_json_member(
                s,
                "wait_until_completion"@,
                match wait_until_completion(run.wait_until_complete_value) {
                    Some(b) => json_bool(b),
                    None => "null"@,
                },
            )
        }),
{
    lemma_shell_argument_keys();
    let w = match wait_until_completion(run.wait_until_complete_value) {
        Some(b) => json_bool(b),
        None => "null"@,
    };
    let lit = json_string_literal(run.command@);
    let b1 = json_bool(run.is_read_only);
    let b2 = json_bool(run.is_risky);
    let b3 = json_bool(run.uses_pager);
    let l1 = "{\"command\":"@;
    let l2 = ",\"is_read_only\":"@;
    let l3 = ",\"is_risky\":"@;
    let l4 = ",\"uses_pager\":"@;
    let l5 = ",\"wait_until_completion\":"@;
    let close = "}"@;
    let s = run_shell_arguments_spec(run);
    lemma_regroup(l1, lit, l2, b1, l3, b2, l4, b3, l5, w, close);
    let e = Seq::<char>::empty();
    assert(e + l1 == l1) by {
        assert(e + l1 =~= l1);
    }
    let r1 = l2 + (b1 + (l3 + (b2 + (l4 + (b3 + (l5 + (w + close)))))));
    let r2 = l3 + (b2 + (l4 + (b3 + (l5 + (w + close)))));
    let r3 = l4 + (b3 + (l5 + (w + close)));
    let r4 = l5 + (w + close);
    lemma_first_of_concat(l2, b1 + (l3 + (b2 + (l4 + (b3 + (l5 + (w + close)))))));
    lemma_first_of_concat(l3, b2 + (l4 + (b3 + (l5 + (w + close)))));
    lemma_first_of_concat(l4, b3 + (l5 + (w + close)));
    lemma_first_of_concat(l5, w + close);
    lemma_member_after(e, l1, "{"@, "command"@, lit, r1, s);
    lemma_member_after(l1 + lit, l2, ","@, "is_read_only"@, b1, r2, s);
    lemma_member_after(l1 + lit + l2 + b1, l3, ","@, "is_risky"@, b2, r3, s);
    lemma_member_after(l1 + lit + l2 + b1 + l3 + b2, l4, ","@, "uses_pager"@, b3, r4, s);
    lemma_member_after(l1 + lit + l2 + b1 + l3 + b2 + l4 + b3, l5, ","@, "wait_until_completion"@, w, close, s);
}

/// The first element of a concatenation with a non-empty first part.
proof fn lemma_first_of_concat(a: Seq<char>, b: Seq<char>)
    requires
        a.len() > 0,
    ensures
        (a + b)[0] == a[0],
{
}

/// Eleven parts joined from the left, regrouped around each of the values
/// at odd positions.
proof fn lemma_regroup(
    p0: Seq<char>,
    p1: Seq<char>,
    p2: Seq<char>,
    p3: Seq<char>,
    p4: Seq<char>,
    p5: Seq<char>,
    p6: Seq<char>,
    p7: Seq<char>,
    p8: Seq<char>,
    p9: Seq<char>,
    p10: Seq<char>,
)
    ensures
        ({
            let s = p0 + p1 + p2 + p3 + p4 + p5 + p6 + p7 + p8 + p9 + p10;
            &&& s == Seq::<char>::empty() + p0 + p1 + (p2 + (p3 + (p4 + (p5 + (p6 + (p7 + (p8
                + (p9 + p10))))))))
            &&& s == (p0 + p1) + p2 + p3 + (p4 + (p5 + (p6 + (p7 + (p8 + (p9 + p10))))))
            &&& s == (p0 + p1 + p2 + p3) + p4 + p5 + (p6 + (p7 + (p8 + (p9 + p10))))
            &&& s == (p0 + p1 + p2 + p3 + p4 + p5) + p6 + p7 + (p8 + (p9 + p10))
            &&& s == (p0 + p1 + p2 + p3 + p4 + p5 + p6 + p7) + p8 + p9 + p10
        }),
{
    let t2 = p0 + p1;
    let t3 = t2 + p2;
    let t4 = t3 + p3;
    let t5 = t4 + p4;
    let t6 = t5 + p5;
    let t7 = t6 + p6;
    let t8 = t7 + p7;
    let t9 = t8 + p8;
    let g9 = p9 + p10;
    let g8 = p8 + g9;
    let g7 = p7 + g8;
    let g6 = p6 + g7;
    let g5 = p5 + g6;
    let g4 = p4 + g5;
    let g3 = p3 + g4;
    let g2 = p2 + g3;
    vstd::seq_lib::lemma_concat_associative(t9, p9, p10);
    vstd::seq_lib::lemma_concat_associative(t8, p8, g9);
    vstd::seq_lib::lemma_concat_associative(t7, p7, g8);
    vstd::seq_lib::lemma_concat_associative(t6, p6, g7);
    vstd::seq_lib::lemma_concat_associative(t5, p5, g6);
    vstd::seq_lib::lemma_concat_associative(t4, p4, g5);
    vstd::seq_lib::lemma_concat_associative(t3, p3, g4);
    vstd::seq_lib::lemma_concat_associative(t2, p2, g3);
    assert(Seq::<char>::empty() + p0 =~= p0);
}

/// The JSON arguments with which the model would make a recorded tool call;
/// only shell commands have them.
pub fn openai_arguments_for_warp_tool_call(tool_call: &ToolCall) -> (r: Result<String, AIApiError>)
    ensures
        match tool_call.tool {
            None => r matches Err(e) && e.is_other(missing_tool_message()),
            Some(Tool::RunShellCommand(run)) => r matches Ok(a) && a@ == run_shell_arguments_spec(
                run,
            ),
            Some(Tool::Other(_)) => r matches Err(e) && e.is_other(
                unsupported_arguments_message(),
            ),
        },
{
    match &tool_call.tool {
        None => {
            let mut m = String::new();
            m.append("Tool call is missing tool payload");
            Err(AIApiError::Other(m))
        },
        Some(Tool::RunShellCommand(run)) => Ok(run_shell_arguments(run)),
        Some(Tool::Other(_)) => {
            let mut m = String::new();
            m.append("Local OpenAI backend cannot serialize unsupported Warp tool call");
            Err(AIApiError::Other(m))
        },
    }
}

} // verus!
