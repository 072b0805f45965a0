//! Recognising tool calls in an agent's reply, and framing messages that one
//! agent sends to another.
//!
//! A reply may hold calls of two shapes, each between `<tool>` and `</tool>`:
//! `send_to_agent("<agent>", "<message>")` and `get_secret("<name>")`.
//! Whitespace may stand around the parentheses and the comma; a quoted
//! argument is one or more characters other than `"`. Calls are found left to
//! right without overlap, first all `send_to_agent` calls, then all
//! `get_secret` calls.
use vstd::prelude::*;
use crate::text::{chars_of, decimal, has_lit_at, lit_at, push_decimal, skip_white_space, skip_ws};

verus! {

/// A call that an agent asked for.
#[derive(Debug, PartialEq)]
pub enum ToolCall {
    SendToAgent { agent: String, message: String },
    GetSecret(String),
}

/// [`ToolCall`] as characters.
pub enum ToolCallView {
    SendToAgent { agent: Seq<char>, message: Seq<char> },
    GetSecret(Seq<char>),
}

impl View for ToolCall {
    type V = ToolCallView;

    open spec fn view(&self) -> ToolCallView {
        match self {
            ToolCall::SendToAgent { agent, message } => ToolCallView::SendToAgent {
                agent: agent@,
                message: message@,
            },
            ToolCall::GetSecret(name) => ToolCallView::GetSecret(name@),
        }
    }
}

/// The views of a sequence of calls.
pub open spec fn calls_view(calls: Seq<ToolCall>) -> Seq<ToolCallView> {
    calls.map_values(|c: ToolCall| c@)
}

pub open spec fn send_open() -> Seq<char> {
    "<tool>send_to_agent"@
}

pub open spec fn secret_open() -> Seq<char> {
    "<tool>get_secret"@
}

pub open spec fn call_close() -> Seq<char> {
    ")</tool>"@
}

pub open spec fn char_at(t: Seq<char>, i: int, c: char) -> bool {
    0 <= i < t.len() && t[i] == c
}

/// Index of the first `"` at or after `i` (`t.len()` when there is none).
pub open spec fn find_quote(t: Seq<char>, i: int) -> int
    decreases t.len() - i,
{
    if 0 <= i < t.len() && t[i] != '"' {
        find_quote(t, i + 1)
    } else {
        i
    }
}

/// A non-empty quoted string opening at `i`: the bounds of its content.
/// The closing quote stands at the upper bound.
pub open spec fn quoted_at(t: Seq<char>, i: int) -> Option<(int, int)> {
    if char_at(t, i, '"') {
        let e = find_quote(t, i + 1);
        if e < t.len() && i + 1 < e {
            Some((i + 1, e))
        } else {
            None
        }
    } else {
        None
    }
}

/// A `send_to_agent` call starting at `i`: the bounds of the agent's name,
/// of the message, and the index just past the call.
pub open spec fn send_at(t: Seq<char>, i: int) -> Option<(int, int, int, int, int)> {
    if !lit_at(t, i, send_open()) {
        None
    } else {
        let p = skip_ws(t, i + send_open().len());
        if !char_at(t, p, '(') {
            None
        } else {
            match quoted_at(t, skip_ws(t, p + 1)) {
                None => None,
                Some((a1, a2)) => {
                    let r = skip_ws(t, a2 + 1);
                    if !char_at(t, r, ',') {
                        None
                    } else {
                        match quoted_at(t, skip_ws(t, r + 1)) {
                            None => None,
                            Some((m1, m2)) => {
                                let u = skip_ws(t, m2 + 1);
                                if lit_at(t, u, call_close()) {
                                    Some((a1, a2, m1, m2, u + call_close().len()))
                                } else {
                                    None
                                }
                            },
                        }
                    }
                },
            }
        }
    }
}

/// A `get_secret` call starting at `i`: the bounds of the secret's name and
/// the index just past the call.
pub open spec fn secret_at(t: Seq<char>, i: int) -> Option<(int, int, int)> {
    if !lit_at(t, i, secret_open()) {
        None
    } else {
        let p = skip_ws(t, i + secret_open().len());
        if !char_at(t, p, '(') {
            None
        } else {
            match quoted_at(t, skip_ws(t, p + 1)) {
                None => None,
                Some((s1, s2)) => {
                    let u = skip_ws(t, s2 + 1);
                    if lit_at(t, u, call_close()) {
                        Some((s1, s2, u + call_close().len()))
                    } else {
                        None
                    }
                },
            }
        }
    }
}

/// The `send_to_agent` calls found scanning from `pos`, where a call may
/// start no earlier than `from` (the end of the call found before).
pub open spec fn send_calls(t: Seq<char>, pos: int, from: int) -> Seq<ToolCallView>
    decreases t.len() - pos,
{
    if pos < 0 || pos >= t.len() {
        seq![]
    } else if pos >= from && send_at(t, pos) is Some {
        let (a1, a2, m1, m2, end) = send_at(t, pos)->0;
        seq![ToolCallView::SendToAgent { agent: t.subrange(a1, a2), message: t.subrange(m1, m2) }]
            + send_calls(t, pos + 1, end)
    } else {
        send_calls(t, pos + 1, from)
    }
}

/// The `get_secret` calls found scanning from `pos`, where a call may start
/// no earlier than `from`.
pub open spec fn secret_calls(t: Seq<char>, pos: int, from: int) -> Seq<ToolCallView>
    decreases t.len() - pos,
{
    if pos < 0 || pos >= t.len() {
        seq![]
    } else if pos >= from && secret_at(t, pos) is Some {
        let (s1, s2, end) = secret_at(t, pos)->0;
        seq![ToolCallView::GetSecret(t.subrange(s1, s2))] + secret_calls(t, pos + 1, end)
    } else {
        secret_calls(t, pos + 1, from)
    }
}

/// All tool calls in `t`: the `send_to_agent` calls, then the `get_secret`
/// calls, each kind in the order in which it occurs.
pub open spec fn tool_calls(t: Seq<char>) -> Seq<ToolCallView> {
    send_calls(t, 0, 0) + secret_calls(t, 0, 0)
}

fn find_quote_from(t: &Vec<char>, i: usize) -> (j: usize)
    requires
        i <= t@.len(),
    ensures
        j == find_quote(t@, i as int),
        i <= j <= t@.len(),
{
    let mut j = i;
    while j < t.len() && t[j] != '"'
        invariant
            i <= j <= t@.len(),
            find_quote(t@, j as int) == find_quote(t@, i as int),
        decreases t@.len() - j,
    {
        j = j + 1;
    }
    j
}

fn quoted(t: &Vec<char>, i: usize) -> (r: Option<(usize, usize)>)
    requires
        i <= t@.len(),
    ensures
        match r {
            Some((a, b)) => quoted_at(t@, i as int) == Some((a as int, b as int)) && a <= b
                < t@.len(),
            None => quoted_at(t@, i as int) is None,
        },
{
    if i < t.len() && t[i] == '"' {
        let e = find_quote_from(t, i + 1);
        if e < t.len() && i + 1 < e {
            Some((i + 1, e))
        } else {
            None
        }
    } else {
        None
    }
}

fn send_match(t: &Vec<char>, i: usize) -> (r: Option<(usize, usize, usize, usize, usize)>)
    requires
        i <= t@.len(),
    ensures
        match r {
            Some((a1, a2, m1, m2, end)) => send_at(t@, i as int) == Some(
                (a1 as int, a2 as int, m1 as int, m2 as int, end as int),
            ) && a1 <= a2 <= t@.len() && m1 <= m2 <= t@.len(),
            None => send_at(t@, i as int) is None,
        },
{
    let open = "<tool>send_to_agent";
    if !has_lit_at(t, i, open) {
        return None;
    }
    let p = skip_white_space(t, i + open.unicode_len());
    if !(p < t.len() && t[p] == '(') {
        return None;
    }
    let q = skip_white_space(t, p + 1);
    let (a1, a2) = match quoted(t, q) {
        None => { return None; },
        Some(r) => r,
    };
    let r = skip_white_space(t, a2 + 1);
    if !(r < t.len() && t[r] == ',') {
        return None;
    }
    let s = skip_white_space(t, r + 1);
    let (m1, m2) = match quoted(t, s) {
        None => { return None; },
        Some(r) => r,
    };
    let u = skip_white_space(t, m2 + 1);
    if has_lit_at(t, u, ")</tool>") {
        Some((a1, a2, m1, m2, u + ")</tool>".unicode_len()))
    } else {
        None
    }
}

fn secret_match(t: &Vec<char>, i: usize) -> (r: Option<(usize, usize, usize)>)
    requires
        i <= t@.len(),
    ensures
        match r {
            Some((s1, s2, end)) => secret_at(t@, i as int) == Some(
                (s1 as int, s2 as int, end as int),
            ) && s1 <= s2 <= t@.len(),
            None => secret_at(t@, i as int) is None,
        },
{
    let open = "<tool>get_secret";
    if !has_lit_at(t, i, open) {
        return None;
    }
    let p = skip_white_space(t, i + open.unicode_len());
    if !(p < t.len() && t[p] == '(') {
        return None;
    }
    let q = skip_white_space(t, p + 1);
    let (s1, s2) = match quoted(t, q) {
        None => { return None; },
        Some(r) => r,
    };
    let u = skip_white_space(t, s2 + 1);
    if has_lit_at(t, u, ")</tool>") {
        Some((s1, s2, u + ")</tool>".unicode_len()))
    } else {
        None
    }
}

/// Finds the tool calls in an agent's reply: every `send_to_agent` call, in
/// order, then every `get_secret` call, in order.
pub fn parse_tool_calls(text: &str) -> (calls: Vec<ToolCall>)
    ensures
        calls_view(calls@) == tool_calls(text@),
{
    let t = chars_of(text);
    let mut calls: Vec<ToolCall> = Vec::new();
    let mut pos: usize = 0;
    let mut from: usize = 0;
    while pos < t.len()
        invariant
            t@ == text@,
            pos <= t@.len(),
            calls_view(calls@) + send_calls(t@, pos as int, from as int) == send_calls(t@, 0, 0),
        decreases t@.len() - pos,
    {
        if pos >= from {
            if let Some((a1, a2, m1, m2, end)) = send_match(&t, pos) {
                let call = ToolCall::SendToAgent {
                    agent: text.substring_char(a1, a2).to_owned(),
                    message: text.substring_char(m1, m2).to_owned(),
                };
                let ghost before = calls@;
                calls.push(call);
                assert(calls_view(calls@) =~= calls_view(before).push(call@));
                from = end;
            }
        }
        pos = pos + 1;
    }
    let ghost sends = calls_view(calls@);
    pos = 0;
    from = 0;
    while pos < t.len()
        invariant
            t@ == text@,
            pos <= t@.len(),
            sends == send_calls(t@, 0, 0),
            calls_view(calls@) + secret_calls(t@, pos as int, from as int) == sends
                + secret_calls(t@, 0, 0),
        decreases t@.len() - pos,
    {
        if pos >= from {
            if let Some((s1, s2, end)) = secret_match(&t, pos) {
                let call = ToolCall::GetSecret(text.substring_char(s1, s2).to_owned());
                let ghost before = calls@;
                calls.push(call);
                assert(calls_view(calls@) =~= calls_view(before).push(call@));
                from = end;
            }
        }
        pos = pos + 1;
    }
    calls
}

/// Opens the header of a message between agents; the sender's name follows.
pub const FROM_OPEN: &'static str = "[from:";

/// Separates the sender's name from the depth in a message header.
pub const DEPTH_OPEN: &'static str = ", depth:";

/// Closes the header of a message between agents; the text follows.
pub const HEADER_CLOSE: &'static str = "] ";

/// A message from agent `from` at hop `depth`, as the receiving agent reads it.
pub open spec fn agent_message(from: Seq<char>, depth: u8, text: Seq<char>) -> Seq<char> {
    FROM_OPEN@ + from + DEPTH_OPEN@ + decimal(depth as nat) + HEADER_CLOSE@ + text
}

/// Frames `text` as a message from agent `from`, `depth` hops into a chain
/// of agents talking to each other: `[from:<from>, depth:<depth>] <text>`.
pub fn format_agent_message(from: &str, depth: u8, text: &str) -> (msg: String)
    ensures
        msg@ == agent_message(from@, depth, text@),
{
    let mut msg = FROM_OPEN.to_owned();
    msg.append(from);
    msg.append(DEPTH_OPEN);
    push_decimal(&mut msg, depth);
    msg.append(HEADER_CLOSE);
    msg.append(text);
    msg
}

} // verus!
