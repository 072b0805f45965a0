//! What holds of every reply that [`parse_tool_calls`] reads.
//!
//! [`parse_tool_calls`]: crate::agent::tool::parse_tool_calls
use vstd::prelude::*;
use crate::agent::tool::{
    call_close,
    secret_at,
    secret_calls,
    secret_open,
    send_at,
    send_calls,
    send_open,
    tool_calls,
    ToolCallView,
};
use crate::agent::tool::{agent_message, char_at, find_quote, quoted_at, FROM_OPEN};
use crate::text::{is_white_space, lit_at, skip_ws};

verus! {

/// The tag that opens every tool call.
pub const TOOL_TAG: &'static str = "<tool>";

proof fn lemma_send_calls_are_sends(t: Seq<char>, pos: int, from: int)
    ensures
        forall|i: int|
            0 <= i < send_calls(t, pos, from).len() ==> #[trigger] send_calls(t, pos, from)[i] is SendToAgent,
    decreases t.len() - pos,
{
    if 0 <= pos < t.len() {
        if pos >= from && send_at(t, pos) is Some {
            let (_, _, _, _, end) = send_at(t, pos)->0;
            lemma_send_calls_are_sends(t, pos + 1, end);
        } else {
            lemma_send_calls_are_sends(t, pos + 1, from);
        }
    }
}

proof fn lemma_secret_calls_are_secrets(t: Seq<char>, pos: int, from: int)
    ensures
        forall|i: int|
            0 <= i < secret_calls(t, pos, from).len() ==> #[trigger] secret_calls(t, pos, from)[i] is GetSecret,
    decreases t.len() - pos,
{
    if 0 <= pos < t.len() {
        if pos >= from && secret_at(t, pos) is Some {
            let (_, _, end) = secret_at(t, pos)->0;
            lemma_secret_calls_are_secrets(t, pos + 1, end);
        } else {
            lemma_secret_calls_are_secrets(t, pos + 1, from);
        }
    }
}

/// Every `send_to_agent` call comes before every `get_secret` call in what
/// a reply is read as.
pub proof fn law_sends_precede_secrets(t: Seq<char>, i: int, j: int)
    requires
        0 <= i < j < tool_calls(t).len(),
        tool_calls(t)[i] is GetSecret,
    ensures
        tool_calls(t)[j] is GetSecret,
{
    let sends = send_calls(t, 0, 0);
    let secrets = secret_calls(t, 0, 0);
    lemma_send_calls_are_sends(t, 0, 0);
    lemma_secret_calls_are_secrets(t, 0, 0);
    if i < sends.len() {
        assert(tool_calls(t)[i] == sends[i]);
    }
    assert(tool_calls(t)[j] == secrets[j - sends.len()]);
}

proof fn lemma_untagged_no_sends(t: Seq<char>, pos: int, from: int)
    requires
        forall|k: int| 0 <= k < t.len() ==> !lit_at(t, k, TOOL_TAG@),
    ensures
        send_calls(t, pos, from) == Seq::<ToolCallView>::empty(),
    decreases t.len() - pos,
{
    if 0 <= pos < t.len() {
        reveal_strlit("<tool>");
        reveal_strlit("<tool>send_to_agent");
        assert(!lit_at(t, pos, TOOL_TAG@));
        if lit_at(t, pos, send_open()) {
            assert(TOOL_TAG@ =~= send_open().subrange(0, 6));
            assert(t.subrange(pos, pos + 6) =~= t.subrange(pos, pos + 19).subrange(0, 6));
            assert(lit_at(t, pos, TOOL_TAG@));
        }
        lemma_untagged_no_sends(t, pos + 1, from);
    }
}

proof fn lemma_untagged_no_secrets(t: Seq<char>, pos: int, from: int)
    requires
        forall|k: int| 0 <= k < t.len() ==> !lit_at(t, k, TOOL_TAG@),
    ensures
        secret_calls(t, pos, from) == Seq::<ToolCallView>::empty(),
    decreases t.len() - pos,
{
    if 0 <= pos < t.len() {
        reveal_strlit("<tool>");
        reveal_strlit("<tool>get_secret");
        assert(!lit_at(t, pos, TOOL_TAG@));
        if lit_at(t, pos, secret_open()) {
            assert(TOOL_TAG@ =~= secret_open().subrange(0, 6));
            assert(t.subrange(pos, pos + 6) =~= t.subrange(pos, pos + 16).subrange(0, 6));
            assert(lit_at(t, pos, TOOL_TAG@));
        }
        lemma_untagged_no_secrets(t, pos + 1, from);
    }
}

/// A reply in which `<tool>` does not occur holds no tool call.
pub proof fn law_untagged_reply_has_no_calls(t: Seq<char>)
    requires
        forall|k: int| 0 <= k < t.len() ==> !lit_at(t, k, TOOL_TAG@),
    ensures
        tool_calls(t) == Seq::<ToolCallView>::empty(),
{
    lemma_untagged_no_sends(t, 0, 0);
    lemma_untagged_no_secrets(t, 0, 0);
    assert(tool_calls(t) =~= Seq::<ToolCallView>::empty());
}

/// An argument that a call can carry and that reads back unchanged: not
/// empty, with no `"` (which would end it) and no `<tool>` (which could open
/// another call inside it).
pub open spec fn plain_argument(a: Seq<char>) -> bool {
    &&& a.len() > 0
    &&& forall|i: int| 0 <= i < a.len() ==> a[i] != '"'
    &&& forall|k: int| 0 <= k < a.len() ==> !lit_at(a, k, TOOL_TAG@)
}

/// A call that opens inside `arg`, which stands in `t` from `start` and is
/// followed by a `"`, would put `<tool>` in `arg`.
proof fn lemma_no_open_inside(t: Seq<char>, arg: Seq<char>, start: int, k: int, open: Seq<char>)
    requires
        plain_argument(arg),
        0 <= start,
        start + arg.len() < t.len(),
        t.subrange(start, start + arg.len()) == arg,
        t[start + arg.len()] == '"',
        start <= k < start + arg.len(),
        open.len() >= 6,
        open.subrange(0, 6) == TOOL_TAG@,
    ensures
        !lit_at(t, k, open),
{
    reveal_strlit("<tool>");
    let n = arg.len() as int;
    if lit_at(t, k, open) {
        assert forall|j: int| 0 <= j < 6 implies #[trigger] t[k + j] == TOOL_TAG@[j] by {
            assert(t.subrange(k, k + open.len())[j] == open[j]);
            assert(open.subrange(0, 6)[j] == open[j]);
        }
        if k + 6 <= start + n {
            assert forall|j: int| 0 <= j < 6 implies #[trigger] arg[k - start + j] == TOOL_TAG@[j] by {
                assert(t.subrange(start, start + n)[k - start + j] == t[k + j]);
            }
            assert(arg.subrange(k - start, k - start + 6) =~= TOOL_TAG@);
            assert(lit_at(arg, k - start, TOOL_TAG@));
        } else {
            assert(t[k + (start + n - k)] == TOOL_TAG@[start + n - k]);
        }
    }
}

/// The text of a call `send_to_agent("<agent>", "<message>")`.
pub open spec fn send_call_text(agent: Seq<char>, message: Seq<char>) -> Seq<char> {
    send_open() + seq!['(', '"'] + agent + seq!['"', ',', ' ', '"'] + message + seq!['"']
        + call_close()
}

/// The text of a call `get_secret("<name>")`.
pub open spec fn secret_call_text(name: Seq<char>) -> Seq<char> {
    secret_open() + seq!['(', '"'] + name + seq!['"'] + call_close()
}

proof fn lemma_find_quote_at(t: Seq<char>, i: int, j: int)
    requires
        0 <= i <= j < t.len(),
        t[j] == '"',
        forall|k: int| i <= k < j ==> t[k] != '"',
    ensures
        find_quote(t, i) == j,
    decreases j - i,
{
    if i < j {
        lemma_find_quote_at(t, i + 1, j);
    }
}

proof fn lemma_skip_ws_at(t: Seq<char>, i: int)
    requires
        0 <= i < t.len(),
        !is_white_space(t[i]),
    ensures
        skip_ws(t, i) == i,
{
}

proof fn lemma_sends_after_end(t: Seq<char>, pos: int, from: int)
    requires
        from >= t.len(),
    ensures
        send_calls(t, pos, from) == Seq::<ToolCallView>::empty(),
    decreases t.len() - pos,
{
    if 0 <= pos < t.len() {
        lemma_sends_after_end(t, pos + 1, from);
    }
}

proof fn lemma_no_secrets_from(t: Seq<char>, pos: int, from: int)
    requires
        forall|k: int| 0 <= k < t.len() ==> secret_at(t, k) is None,
    ensures
        secret_calls(t, pos, from) == Seq::<ToolCallView>::empty(),
    decreases t.len() - pos,
{
    if 0 <= pos < t.len() {
        lemma_no_secrets_from(t, pos + 1, from);
    }
}

/// Where the parts of [`send_call_text`] stand when the call begins at `o`
/// in `t`.
spec fn send_layout(t: Seq<char>, o: int, agent: Seq<char>, message: Seq<char>) -> bool {
    let na = agent.len() as int;
    let nm = message.len() as int;
    &&& 0 <= o
    &&& o + 34 + na + nm <= t.len()
    &&& t.subrange(o, o + 19) == send_open()
    &&& t[o + 19] == '(' && t[o + 20] == '"'
    &&& t.subrange(o + 21, o + 21 + na) == agent
    &&& t[o + 21 + na] == '"' && t[o + 22 + na] == ',' && t[o + 23 + na] == ' ' && t[o + 24 + na] == '"'
    &&& t.subrange(o + 25 + na, o + 25 + na + nm) == message
    &&& t[o + 25 + na + nm] == '"'
    &&& t.subrange(o + 26 + na + nm, o + 34 + na + nm) == call_close()
}

proof fn lemma_send_layout(before: Seq<char>, agent: Seq<char>, message: Seq<char>, after: Seq<char>)
    ensures
        send_layout(before + send_call_text(agent, message) + after, before.len() as int, agent, message),
{
    reveal_strlit("<tool>send_to_agent");
    reveal_strlit(")</tool>");
    let t = before + send_call_text(agent, message) + after;
    let o = before.len() as int;
    let na = agent.len() as int;
    let nm = message.len() as int;
    assert(t.subrange(o, o + 19) =~= send_open());
    assert(t.subrange(o + 21, o + 21 + na) =~= agent);
    assert(t.subrange(o + 25 + na, o + 25 + na + nm) =~= message);
    assert(t.subrange(o + 26 + na + nm, o + 34 + na + nm) =~= call_close());
}

proof fn lemma_send_layout_match(t: Seq<char>, o: int, agent: Seq<char>, message: Seq<char>)
    requires
        send_layout(t, o, agent, message),
        plain_argument(agent),
        plain_argument(message),
    ensures
        send_at(t, o) == Some(
            (o + 21, o + 21 + agent.len() as int, o + 25 + agent.len() as int, o + 25 + agent.len() + message.len() as int, o + 34 + agent.len() + message.len() as int),
        ),
{
    reveal_strlit("<tool>send_to_agent");
    reveal_strlit(")</tool>");
    let na = agent.len() as int;
    let nm = message.len() as int;
    assert forall|k: int| o + 21 <= k < o + 21 + na implies t[k] != '"' by {
        assert(t.subrange(o + 21, o + 21 + na)[k - o - 21] == agent[k - o - 21]);
    }
    assert forall|k: int| o + 25 + na <= k < o + 25 + na + nm implies t[k] != '"' by {
        assert(t.subrange(o + 25 + na, o + 25 + na + nm)[k - o - 25 - na] == message[k - o - 25 - na]);
    }
    assert(t.subrange(o, o + 19) == send_open());
    assert(t.subrange(o, o + send_open().len()) == send_open());
    lemma_skip_ws_at(t, o + 19);
    lemma_skip_ws_at(t, o + 20);
    lemma_find_quote_at(t, o + 21, o + 21 + na);
    lemma_skip_ws_at(t, o + 22 + na);
    lemma_skip_ws_at(t, o + 24 + na);
    assert(skip_ws(t, o + 23 + na) == o + 24 + na);
    lemma_find_quote_at(t, o + 25 + na, o + 25 + na + nm);
    assert(t.subrange(o + 26 + na + nm, o + 34 + na + nm)[0] == ')');
    lemma_skip_ws_at(t, o + 26 + na + nm);
}

/// No call of either kind opens inside a `send_to_agent` call with plain
/// arguments, except the call itself at its first character.
proof fn lemma_send_layout_no_open(t: Seq<char>, o: int, agent: Seq<char>, message: Seq<char>, k: int)
    requires
        send_layout(t, o, agent, message),
        plain_argument(agent),
        plain_argument(message),
        o <= k < o + 34 + agent.len() + message.len(),
    ensures
        !lit_at(t, k, secret_open()),
        k != o ==> !lit_at(t, k, send_open()),
{
    reveal_strlit("<tool>send_to_agent");
    reveal_strlit("<tool>get_secret");
    reveal_strlit(")</tool>");
    reveal_strlit("<tool>");
    let na = agent.len() as int;
    let nm = message.len() as int;
    assert(secret_open().subrange(0, 6) =~= TOOL_TAG@);
    assert(send_open().subrange(0, 6) =~= TOOL_TAG@);
    if lit_at(t, k, secret_open()) || (k != o && lit_at(t, k, send_open())) {
        let open = if lit_at(t, k, secret_open()) { secret_open() } else { send_open() };
        assert(t.subrange(k, k + open.len())[0] == '<');
        assert(t.subrange(k, k + open.len())[1] == 't');
        if k < o + 19 {
            assert(t.subrange(o, o + 19)[k - o] == t[k]);
            if k == o {
                assert(t.subrange(k, k + open.len())[6] == 'g');
                assert(t.subrange(o, o + 19)[6] == 's');
            }
        } else if o + 21 <= k < o + 21 + na {
            lemma_no_open_inside(t, agent, o + 21, k, open);
        } else if o + 25 + na <= k < o + 25 + na + nm {
            lemma_no_open_inside(t, message, o + 25 + na, k, open);
        } else if o + 26 + na + nm <= k {
            assert(t.subrange(o + 26 + na + nm, o + 34 + na + nm)[k - o - 26 - na - nm] == t[k]);
            if k == o + 27 + na + nm {
                assert(t.subrange(o + 26 + na + nm, o + 34 + na + nm)[2] == t[k + 1]);
            }
        }
    }
}

proof fn lemma_send_layout_no_secret(t: Seq<char>, agent: Seq<char>, message: Seq<char>, k: int)
    requires
        send_layout(t, 0, agent, message),
        plain_argument(agent),
        plain_argument(message),
        0 <= k < t.len(),
        t.len() == 34 + agent.len() + message.len(),
    ensures
        secret_at(t, k) is None,
{
    lemma_send_layout_no_open(t, 0, agent, message, k);
}

/// A `send_to_agent` call with plain arguments, alone in a reply, is read
/// back as exactly that call.
pub proof fn law_send_call_reads_back(agent: Seq<char>, message: Seq<char>)
    requires
        plain_argument(agent),
        plain_argument(message),
    ensures
        tool_calls(send_call_text(agent, message)) == seq![
            ToolCallView::SendToAgent { agent: agent, message: message },
        ],
{
    let t = send_call_text(agent, message);
    let e = Seq::<char>::empty();
    assert(e + t + e =~= t);
    lemma_send_layout(e, agent, message, e);
    lemma_send_layout_match(t, 0, agent, message);
    lemma_sends_after_end(t, 1, t.len() as int);
    assert(send_calls(t, 0, 0) =~= seq![
        ToolCallView::SendToAgent { agent: agent, message: message },
    ]);
    assert forall|k: int| 0 <= k < t.len() implies secret_at(t, k) is None by {
        lemma_send_layout_no_secret(t, agent, message, k);
    }
    lemma_no_secrets_from(t, 0, 0);
    assert(tool_calls(t) =~= seq![ToolCallView::SendToAgent { agent: agent, message: message }]);
}

/// Where the parts of [`secret_call_text`] stand.
spec fn secret_layout(t: Seq<char>, name: Seq<char>) -> bool {
    let n = name.len() as int;
    &&& t.len() >= 27 + n
    &&& t.subrange(0, 16) == secret_open()
    &&& t[16] == '(' && t[17] == '"'
    &&& t.subrange(18, 18 + n) == name
    &&& t[18 + n] == '"'
    &&& t.subrange(19 + n, 27 + n) == call_close()
}

proof fn lemma_secret_layout(name: Seq<char>, after: Seq<char>)
    ensures
        secret_layout(secret_call_text(name) + after, name),
        secret_call_text(name).len() == 27 + name.len(),
{
    reveal_strlit("<tool>get_secret");
    reveal_strlit(")</tool>");
    let t = secret_call_text(name) + after;
    let n = name.len() as int;
    assert(t.subrange(0, 16) =~= secret_open());
    assert(t.subrange(18, 18 + n) =~= name);
    assert(t.subrange(19 + n, 27 + n) =~= call_close());
}

proof fn lemma_secret_layout_match(t: Seq<char>, name: Seq<char>)
    requires
        secret_layout(t, name),
        plain_argument(name),
    ensures
        secret_at(t, 0) == Some((18int, 18 + name.len() as int, 27 + name.len() as int)),
{
    reveal_strlit("<tool>get_secret");
    reveal_strlit(")</tool>");
    let n = name.len() as int;
    assert forall|k: int| 18 <= k < 18 + n implies t[k] != '"' by {
        assert(t.subrange(18, 18 + n)[k - 18] == name[k - 18]);
    }
    lemma_skip_ws_at(t, 16);
    lemma_skip_ws_at(t, 17);
    lemma_find_quote_at(t, 18, 18 + n);
    assert(t.subrange(19 + n, 27 + n)[0] == ')');
    lemma_skip_ws_at(t, 19 + n);
}

proof fn lemma_secret_layout_no_send(t: Seq<char>, name: Seq<char>, k: int)
    requires
        secret_layout(t, name),
        plain_argument(name),
        0 <= k < 27 + name.len(),
    ensures
        send_at(t, k) is None,
{
    reveal_strlit("<tool>send_to_agent");
    reveal_strlit("<tool>get_secret");
    reveal_strlit(")</tool>");
    reveal_strlit("<tool>");
    let n = name.len() as int;
    assert(send_open().subrange(0, 6) =~= TOOL_TAG@);
    if lit_at(t, k, send_open()) {
        assert(t.subrange(k, k + 19)[0] == '<');
        assert(t.subrange(k, k + 19)[1] == 't');
        if k < 16 {
            assert(t.subrange(0, 16)[k] == t[k]);
            if k == 0 {
                assert(t.subrange(0, 19)[6] == 's');
                assert(t.subrange(0, 16)[6] == 'g');
            }
        } else if 18 <= k < 18 + n {
            lemma_no_open_inside(t, name, 18, k, send_open());
        } else if 19 + n <= k {
            assert(t.subrange(19 + n, 27 + n)[k - 19 - n] == t[k]);
            if k == 20 + n {
                assert(t.subrange(19 + n, 27 + n)[2] == t[k + 1]);
            }
        }
    }
}

proof fn lemma_secrets_after_end(t: Seq<char>, pos: int, from: int)
    requires
        from >= t.len(),
    ensures
        secret_calls(t, pos, from) == Seq::<ToolCallView>::empty(),
    decreases t.len() - pos,
{
    if 0 <= pos < t.len() {
        lemma_secrets_after_end(t, pos + 1, from);
    }
}

proof fn lemma_no_sends_from(t: Seq<char>, pos: int, from: int)
    requires
        forall|k: int| 0 <= k < t.len() ==> send_at(t, k) is None,
    ensures
        send_calls(t, pos, from) == Seq::<ToolCallView>::empty(),
    decreases t.len() - pos,
{
    if 0 <= pos < t.len() {
        lemma_no_sends_from(t, pos + 1, from);
    }
}

/// A `get_secret` call with a plain argument, alone in a reply, is read back
/// as exactly that call.
pub proof fn law_secret_call_reads_back(name: Seq<char>)
    requires
        plain_argument(name),
    ensures
        tool_calls(secret_call_text(name)) == seq![ToolCallView::GetSecret(name)],
{
    let t = secret_call_text(name);
    lemma_secret_layout(name, Seq::<char>::empty());
    assert(t + Seq::<char>::empty() =~= t);
    lemma_secret_layout_match(t, name);
    lemma_secrets_after_end(t, 1, t.len() as int);
    assert(secret_calls(t, 0, 0) =~= seq![ToolCallView::GetSecret(name)]);
    assert forall|k: int| 0 <= k < t.len() implies send_at(t, k) is None by {
        lemma_secret_layout_no_send(t, name, k);
    }
    lemma_no_sends_from(t, 0, 0);
    assert(tool_calls(t) =~= seq![ToolCallView::GetSecret(name)]);
}

/// Scanning passes over a stretch where no call is found or none may start.
proof fn lemma_send_calls_pass(t: Seq<char>, pos: int, stop: int, from: int)
    requires
        0 <= pos <= stop <= t.len(),
        forall|k: int| pos <= k < stop ==> k < from || send_at(t, k) is None,
    ensures
        send_calls(t, pos, from) == send_calls(t, stop, from),
    decreases stop - pos,
{
    if pos < stop {
        lemma_send_calls_pass(t, pos + 1, stop, from);
    }
}

/// No call opens in a stretch of `t` that holds no `<tool>` and is followed
/// by `<`.
proof fn lemma_no_open_in_gap(t: Seq<char>, gap: Seq<char>, start: int, k: int, open: Seq<char>)
    requires
        0 <= start,
        start + gap.len() < t.len(),
        t.subrange(start, start + gap.len()) == gap,
        forall|j: int| 0 <= j < gap.len() ==> !lit_at(gap, j, TOOL_TAG@),
        t[start + gap.len()] == '<',
        start <= k < start + gap.len(),
        open.len() >= 6,
        open.subrange(0, 6) == TOOL_TAG@,
    ensures
        !lit_at(t, k, open),
{
    reveal_strlit("<tool>");
    let n = gap.len() as int;
    if lit_at(t, k, open) {
        assert forall|j: int| 0 <= j < 6 implies #[trigger] t[k + j] == TOOL_TAG@[j] by {
            assert(t.subrange(k, k + open.len())[j] == open[j]);
            assert(open.subrange(0, 6)[j] == open[j]);
        }
        if k + 6 <= start + n {
            assert forall|j: int| 0 <= j < 6 implies #[trigger] gap[k - start + j] == TOOL_TAG@[j] by {
                assert(t.subrange(start, start + n)[k - start + j] == t[k + j]);
            }
            assert(gap.subrange(k - start, k - start + 6) =~= TOOL_TAG@);
            assert(lit_at(gap, k - start, TOOL_TAG@));
        } else {
            assert(t[k + (start + n - k)] == TOOL_TAG@[start + n - k]);
        }
    }
}

/// The call that [`send_at`] found, as it is read.
spec fn send_found(t: Seq<char>, i: int) -> ToolCallView {
    let (a1, a2, m1, m2, end) = send_at(t, i)->0;
    ToolCallView::SendToAgent { agent: t.subrange(a1, a2), message: t.subrange(m1, m2) }
}

/// The index just past the call that [`send_at`] found.
spec fn send_end(t: Seq<char>, i: int) -> int {
    let (_, _, _, _, end) = send_at(t, i)->0;
    end
}

proof fn lemma_send_found(t: Seq<char>, o: int, agent: Seq<char>, message: Seq<char>)
    requires
        send_layout(t, o, agent, message),
        plain_argument(agent),
        plain_argument(message),
    ensures
        send_at(t, o) is Some,
        send_found(t, o) == (ToolCallView::SendToAgent { agent: agent, message: message }),
        send_end(t, o) == o + 34 + agent.len() + message.len(),
{
    lemma_send_layout_match(t, o, agent, message);
}


/// [`skip_ws`] in `p + u` from inside `u` is [`skip_ws`] in `u`, moved by
/// the length of `p`.
proof fn lemma_shift_skip_ws(p: Seq<char>, u: Seq<char>, i: int)
    requires
        0 <= i,
    ensures
        skip_ws(p + u, p.len() + i) == p.len() + skip_ws(u, i),
        skip_ws(u, i) >= i,
    decreases u.len() - i,
{
    if i < u.len() {
        assert((p + u)[p.len() + i] == u[i]);
        if is_white_space(u[i]) {
            lemma_shift_skip_ws(p, u, i + 1);
        }
    }
}

proof fn lemma_shift_find_quote(p: Seq<char>, u: Seq<char>, i: int)
    requires
        0 <= i,
    ensures
        find_quote(p + u, p.len() + i) == p.len() + find_quote(u, i),
        find_quote(u, i) >= i,
    decreases u.len() - i,
{
    if i < u.len() {
        assert((p + u)[p.len() + i] == u[i]);
        if u[i] != '"' {
            lemma_shift_find_quote(p, u, i + 1);
        }
    }
}

proof fn lemma_shift_lit_at(p: Seq<char>, u: Seq<char>, i: int, lit: Seq<char>)
    requires
        0 <= i,
    ensures
        lit_at(p + u, p.len() + i, lit) == lit_at(u, i, lit),
{
    if i + lit.len() <= u.len() {
        assert((p + u).subrange(p.len() + i, p.len() + i + lit.len()) =~= u.subrange(i, i + lit.len()));
    }
}

proof fn lemma_shift_quoted_at(p: Seq<char>, u: Seq<char>, i: int)
    requires
        0 <= i,
    ensures
        quoted_at(p + u, p.len() + i) == match quoted_at(u, i) {
            None => None,
            Some((a, b)) => Some((p.len() + a, p.len() + b)),
        },
        quoted_at(u, i) matches Some((a, b)) ==> i < a <= b,
{
    if i < u.len() {
        assert((p + u)[p.len() + i] == u[i]);
    }
    lemma_shift_find_quote(p, u, i + 1);
}

/// A call found in `u`, moved by `d`.
spec fn shift_send(x: Option<(int, int, int, int, int)>, d: int) -> Option<(int, int, int, int, int)> {
    match x {
        None => None,
        Some((a1, a2, m1, m2, end)) => Some((d + a1, d + a2, d + m1, d + m2, d + end)),
    }
}

spec fn shift_secret(x: Option<(int, int, int)>, d: int) -> Option<(int, int, int)> {
    match x {
        None => None,
        Some((s1, s2, end)) => Some((d + s1, d + s2, d + end)),
    }
}

/// Whether a `send_to_agent` call starts inside `u` does not depend on what
/// stands before `u`.
proof fn lemma_shift_send_at(p: Seq<char>, u: Seq<char>, i: int)
    requires
        0 <= i,
    ensures
        send_at(p + u, p.len() + i) == shift_send(send_at(u, i), p.len() as int),
        send_at(u, i) matches Some((a1, a2, m1, m2, end)) ==> i <= a1 <= a2 && a2 < m1 <= m2 && m2 < end,
{
    let d = p.len() as int;
    lemma_shift_lit_at(p, u, i, send_open());
    if lit_at(u, i, send_open()) {
        let q = skip_ws(u, i + send_open().len());
        lemma_shift_skip_ws(p, u, i + send_open().len());
        if q < u.len() {
            assert((p + u)[d + q] == u[q]);
        }
        if char_at(u, q, '(') {
            let v = skip_ws(u, q + 1);
            lemma_shift_skip_ws(p, u, q + 1);
            lemma_shift_quoted_at(p, u, v);
            if let Some((a1, a2)) = quoted_at(u, v) {
                let r = skip_ws(u, a2 + 1);
                lemma_shift_skip_ws(p, u, a2 + 1);
                if r < u.len() {
                    assert((p + u)[d + r] == u[r]);
                }
                if char_at(u, r, ',') {
                    let w = skip_ws(u, r + 1);
                    lemma_shift_skip_ws(p, u, r + 1);
                    lemma_shift_quoted_at(p, u, w);
                    if let Some((m1, m2)) = quoted_at(u, w) {
                        let x = skip_ws(u, m2 + 1);
                        lemma_shift_skip_ws(p, u, m2 + 1);
                        lemma_shift_lit_at(p, u, x, call_close());
                    }
                }
            }
        }
    }
}

/// Whether a `get_secret` call starts inside `u` does not depend on what
/// stands before `u`.
proof fn lemma_shift_secret_at(p: Seq<char>, u: Seq<char>, i: int)
    requires
        0 <= i,
    ensures
        secret_at(p + u, p.len() + i) == shift_secret(secret_at(u, i), p.len() as int),
        secret_at(u, i) matches Some((s1, s2, end)) ==> i <= s1 <= s2 < end,
{
    let d = p.len() as int;
    lemma_shift_lit_at(p, u, i, secret_open());
    if lit_at(u, i, secret_open()) {
        let q = skip_ws(u, i + secret_open().len());
        lemma_shift_skip_ws(p, u, i + secret_open().len());
        if q < u.len() {
            assert((p + u)[d + q] == u[q]);
        }
        if char_at(u, q, '(') {
            let v = skip_ws(u, q + 1);
            lemma_shift_skip_ws(p, u, q + 1);
            lemma_shift_quoted_at(p, u, v);
            if let Some((s1, s2)) = quoted_at(u, v) {
                let x = skip_ws(u, s2 + 1);
                lemma_shift_skip_ws(p, u, s2 + 1);
                lemma_shift_lit_at(p, u, x, call_close());
            }
        }
    }
}

/// The `send_to_agent` calls read in `p + u` from inside `u` are those read
/// in `u`.
proof fn lemma_shift_send_calls(p: Seq<char>, u: Seq<char>, i: int, from: int)
    requires
        0 <= i,
    ensures
        send_calls(p + u, p.len() + i, p.len() + from) == send_calls(u, i, from),
    decreases u.len() - i,
{
    let d = p.len() as int;
    let t = p + u;
    if i < u.len() {
        lemma_shift_send_at(p, u, i);
        if i >= from && send_at(u, i) is Some {
            let (a1, a2, m1, m2, end) = send_at(u, i)->0;
            assert(t.subrange(d + a1, d + a2) =~= u.subrange(a1, a2));
            assert(t.subrange(d + m1, d + m2) =~= u.subrange(m1, m2));
            lemma_shift_send_calls(p, u, i + 1, end);
        } else {
            lemma_shift_send_calls(p, u, i + 1, from);
        }
    }
}

/// The `get_secret` calls read in `p + u` from inside `u` are those read in
/// `u`.
proof fn lemma_shift_secret_calls(p: Seq<char>, u: Seq<char>, i: int, from: int)
    requires
        0 <= i,
    ensures
        secret_calls(p + u, p.len() + i, p.len() + from) == secret_calls(u, i, from),
    decreases u.len() - i,
{
    let d = p.len() as int;
    let t = p + u;
    if i < u.len() {
        lemma_shift_secret_at(p, u, i);
        if i >= from && secret_at(u, i) is Some {
            let (s1, s2, end) = secret_at(u, i)->0;
            assert(t.subrange(d + s1, d + s2) =~= u.subrange(s1, s2));
            lemma_shift_secret_calls(p, u, i + 1, end);
        } else {
            lemma_shift_secret_calls(p, u, i + 1, from);
        }
    }
}

/// Once scanning has passed the end of the call found before, where that
/// call ended no longer matters.
proof fn lemma_calls_from_passed(t: Seq<char>, i: int, f: int, g: int)
    requires
        f <= i,
        g <= i,
    ensures
        send_calls(t, i, f) == send_calls(t, i, g),
        secret_calls(t, i, f) == secret_calls(t, i, g),
    decreases t.len() - i,
{
    if 0 <= i < t.len() {
        lemma_calls_from_passed(t, i + 1, f, g);
    }
}

proof fn lemma_secret_calls_pass(t: Seq<char>, pos: int, stop: int, from: int)
    requires
        0 <= pos <= stop <= t.len(),
        forall|k: int| pos <= k < stop ==> k < from || secret_at(t, k) is None,
    ensures
        secret_calls(t, pos, from) == secret_calls(t, stop, from),
    decreases stop - pos,
{
    if pos < stop {
        lemma_secret_calls_pass(t, pos + 1, stop, from);
    }
}

/// What is read in `p + u` is what is read in `u`, where no call opens
/// inside `p`.
proof fn lemma_skip_prefix(p: Seq<char>, u: Seq<char>)
    requires
        forall|k: int| 0 <= k < p.len() ==> send_at(p + u, k) is None && secret_at(p + u, k) is None,
    ensures
        send_calls(p + u, 0, 0) == send_calls(u, 0, 0),
        secret_calls(p + u, 0, 0) == secret_calls(u, 0, 0),
{
    let t = p + u;
    let d = p.len() as int;
    lemma_send_calls_pass(t, 0, d, 0);
    lemma_secret_calls_pass(t, 0, d, 0);
    lemma_shift_send_calls(p, u, 0, -d);
    lemma_shift_secret_calls(p, u, 0, -d);
    lemma_calls_from_passed(u, 0, -d, 0);
}

/// Text in which no `<tool>` begins, put before a reply, changes nothing in
/// what the reply is read as.
pub proof fn law_untagged_prefix_changes_nothing(p: Seq<char>, u: Seq<char>)
    requires
        forall|k: int| 0 <= k < p.len() ==> !lit_at(p + u, k, TOOL_TAG@),
    ensures
        tool_calls(p + u) == tool_calls(u),
{
    reveal_strlit("<tool>");
    reveal_strlit("<tool>send_to_agent");
    reveal_strlit("<tool>get_secret");
    let t = p + u;
    assert forall|k: int| 0 <= k < p.len() implies send_at(t, k) is None && secret_at(t, k) is None by {
        assert(!lit_at(t, k, TOOL_TAG@));
        if lit_at(t, k, send_open()) {
            assert(TOOL_TAG@ =~= send_open().subrange(0, 6));
            assert(t.subrange(k, k + 6) =~= t.subrange(k, k + 19).subrange(0, 6));
            assert(lit_at(t, k, TOOL_TAG@));
        }
        if lit_at(t, k, secret_open()) {
            assert(TOOL_TAG@ =~= secret_open().subrange(0, 6));
            assert(t.subrange(k, k + 6) =~= t.subrange(k, k + 16).subrange(0, 6));
            assert(lit_at(t, k, TOOL_TAG@));
        }
    }
    lemma_skip_prefix(p, u);
}

/// A `send_to_agent` call with plain arguments at the start of a reply is
/// read first, and the rest of the reply is read as if it stood alone: so
/// calls one after another are all read, in order.
pub proof fn law_leading_send_call(agent: Seq<char>, message: Seq<char>, rest: Seq<char>)
    requires
        plain_argument(agent),
        plain_argument(message),
    ensures
        tool_calls(send_call_text(agent, message) + rest) == seq![
            ToolCallView::SendToAgent { agent: agent, message: message },
        ] + tool_calls(rest),
{
    reveal_strlit("<tool>send_to_agent");
    reveal_strlit(")</tool>");
    let c = send_call_text(agent, message);
    let t = c + rest;
    let e = Seq::<char>::empty();
    let n: int = c.len() as int;
    assert(e + c + rest =~= t);
    lemma_send_layout(e, agent, message, rest);
    lemma_send_found(t, 0, agent, message);
    let s = ToolCallView::SendToAgent { agent: agent, message: message };
    assert(send_calls(t, 0, 0) == seq![s] + send_calls(t, 1, n));
    lemma_send_calls_pass(t, 1, n, n);
    lemma_shift_send_calls(c, rest, 0, 0);
    assert forall|k: int| 0 <= k < n implies secret_at(t, k) is None by {
        lemma_send_layout_no_open(t, 0, agent, message, k);
    }
    lemma_secret_calls_pass(t, 0, n, 0);
    lemma_shift_secret_calls(c, rest, 0, -n);
    lemma_calls_from_passed(rest, 0, -n, 0);
    assert(tool_calls(t) =~= seq![s] + tool_calls(rest));
}

/// A `get_secret` call with a plain argument at the start of a reply is the
/// first `get_secret` call read, after all `send_to_agent` calls, and the
/// rest of the reply is read as if it stood alone.
pub proof fn law_leading_secret_call(name: Seq<char>, rest: Seq<char>)
    requires
        plain_argument(name),
    ensures
        tool_calls(secret_call_text(name) + rest) == send_calls(rest, 0, 0) + seq![
            ToolCallView::GetSecret(name),
        ] + secret_calls(rest, 0, 0),
{
    let c = secret_call_text(name);
    let t = c + rest;
    lemma_secret_layout(name, rest);
    let n: int = c.len() as int;
    lemma_secret_layout_match(t, name);
    let s = ToolCallView::GetSecret(name);
    assert(t.subrange(18, 18 + name.len() as int) == name);
    assert(secret_calls(t, 0, 0) == seq![s] + secret_calls(t, 1, n));
    lemma_secret_calls_pass(t, 1, n, n);
    lemma_shift_secret_calls(c, rest, 0, 0);
    assert forall|k: int| 0 <= k < n implies send_at(t, k) is None by {
        lemma_secret_layout_no_send(t, name, k);
    }
    lemma_send_calls_pass(t, 0, n, 0);
    lemma_shift_send_calls(c, rest, 0, -n);
    lemma_calls_from_passed(rest, 0, -n, 0);
    assert(tool_calls(t) =~= send_calls(rest, 0, 0) + seq![s] + secret_calls(rest, 0, 0));
}

/// Two `send_to_agent` calls with plain arguments, one after the other with
/// text between them that holds no `<tool>` (or none), are read back as both
/// calls, in the order in which they stand.
pub proof fn law_two_send_calls_read_back(
    agent1: Seq<char>,
    message1: Seq<char>,
    between: Seq<char>,
    agent2: Seq<char>,
    message2: Seq<char>,
)
    requires
        plain_argument(agent1),
        plain_argument(message1),
        plain_argument(agent2),
        plain_argument(message2),
        forall|k: int| 0 <= k < between.len() ==> !lit_at(between, k, TOOL_TAG@),
    ensures
        tool_calls(send_call_text(agent1, message1) + between + send_call_text(agent2, message2)) == seq![
            ToolCallView::SendToAgent { agent: agent1, message: message1 },
            ToolCallView::SendToAgent { agent: agent2, message: message2 },
        ],
{
    reveal_strlit("<tool>send_to_agent");
    reveal_strlit("<tool>");
    let c2 = send_call_text(agent2, message2);
    let rest = between + c2;
    assert(send_call_text(agent1, message1) + between + c2 =~= send_call_text(agent1, message1) + rest);
    law_leading_send_call(agent1, message1, rest);
    assert(rest[between.len() as int] == '<');
    assert(rest.subrange(0, between.len() as int) =~= between);
    assert(TOOL_TAG@.subrange(0, 6) =~= TOOL_TAG@);
    assert forall|k: int| 0 <= k < between.len() implies !lit_at(rest, k, TOOL_TAG@) by {
        lemma_no_open_in_gap(rest, between, 0, k, TOOL_TAG@);
    }
    law_untagged_prefix_changes_nothing(between, c2);
    law_send_call_reads_back(agent2, message2);
}

/// A framed message is its header followed by the text exactly as given:
/// framing a text gives the framing of no text with the text appended, so
/// every character of the text, newlines included, comes through unchanged
/// and in order; the header begins `[from:` and the sender's name.
pub proof fn law_message_is_header_then_text(from: Seq<char>, depth: u8, text: Seq<char>)
    ensures
        agent_message(from, depth, text) == agent_message(from, depth, Seq::<char>::empty()) + text,
        agent_message(from, depth, text).len() == agent_message(from, depth, Seq::<char>::empty()).len()
            + text.len(),
        agent_message(from, depth, text).subrange(
            agent_message(from, depth, text).len() - text.len(),
            agent_message(from, depth, text).len() as int,
        ) == text,
        agent_message(from, depth, text).subrange(0, (FROM_OPEN@.len() + from.len()) as int) == FROM_OPEN@ + from,
{
    let m = agent_message(from, depth, text);
    assert(agent_message(from, depth, Seq::<char>::empty()) + text =~= m);
    assert(m.subrange(m.len() - text.len(), m.len() as int) =~= text);
    assert(m.subrange(0, (FROM_OPEN@.len() + from.len()) as int) =~= FROM_OPEN@ + from);
}

} // verus!
