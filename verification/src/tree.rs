use vstd::prelude::*;

use crate::duplicate::Duplicate;
use crate::models::episode::{Episode, TurnNode, TurnNodeView};
use crate::models::events::{TokenUsage, TurnTiming};
use crate::models::message::{lemma_views_push, views_of, MessageView};
use crate::text::{char_count, chars_of, concat, concat3, decimal, decimal_string, decimal_usize, decimal_wide, string_from_chars};

verus! {

/// `s` with each newline shown as a space.
pub open spec fn one_line(s: Seq<char>) -> Seq<char> {
    s.map_values(|c: char| if c == '\n' { ' ' } else { c })
}

/// The first 80 characters of `s`, on one line.
pub open spec fn snippet_of(s: Seq<char>) -> Seq<char> {
    one_line(if s.len() > 80 { s.take(80) } else { s })
}

/// The first `limit` characters of `s` (all of them when fewer), with newlines shown as spaces.
fn one_line_prefix(s: &str, limit: usize) -> (r: String)
    ensures
        r@ == one_line(if s@.len() > limit { s@.take(limit as int) } else { s@ }),
{
    let cs = chars_of(s);
    let n = if cs.len() > limit { limit } else { cs.len() };
    let mut out: Vec<char> = Vec::new();
    let mut i: usize = 0;
    while i < n
        invariant
            i <= n,
            n <= cs.len(),
            cs@ == s@,
            out@ == one_line(s@.take(i as int)),
        decreases n - i,
    {
        let c = cs[i];
        out.push(if c == '\n' { ' ' } else { c });
        assert(one_line(s@.take(i + 1)) =~= one_line(s@.take(i as int)).push(if c == '\n' { ' ' } else { c }));
        i = i + 1;
    }
    assert(s@.take(n as int) =~= (if s@.len() > limit { s@.take(limit as int) } else { s@ }));
    string_from_chars(&out)
}

/// The text of an optional message, empty when it has none.
pub open spec fn message_text(m: MessageView) -> Seq<char> {
    match m.content {
        Some(c) => c,
        None => Seq::empty(),
    }
}

/// A duration in milliseconds, or `n/a`.
pub open spec fn ms_text(v: Option<u64>) -> Seq<char> {
    match v {
        Some(m) => decimal(m as nat) + "ms"@,
        None => "n/a"@,
    }
}

/// The share of the prompt served from cache, in percent rounded to the nearest (halves up),
/// when the upstream reported cached tokens for a non-empty prompt.
pub open spec fn cache_percent(u: TokenUsage) -> Option<nat> {
    match u.cached_tokens {
        Some(c) => if u.prompt_tokens > 0 {
            Some(((c as nat) * 100 + (u.prompt_tokens as nat) / 2) / (u.prompt_tokens as nat))
        } else {
            None
        },
        None => None,
    }
}

/// What starts each detail line of a turn: the tree's trunk, or blank under the last turn.
pub open spec fn gutter(is_last: bool) -> Seq<char> {
    if is_last { "    "@ } else { "│   "@ }
}

/// The metrics line of a turn.
pub open spec fn metrics_line(g: Seq<char>, timing: Option<TurnTiming>, usage: Option<TokenUsage>) -> Seq<char> {
    let ttft = ms_text(match timing {
        Some(t) => t.ttft_ms,
        None => None,
    });
    let total = ms_text(match timing {
        Some(t) => Some(t.total_ms),
        None => None,
    });
    let tokens = match usage {
        Some(u) => decimal(u.total_tokens as nat) + " tok"@,
        None => "n/a"@,
    };
    let cache = match usage {
        Some(u) => match cache_percent(u) {
            Some(p) => decimal(p) + "%"@,
            None => "n/a"@,
        },
        None => "n/a"@,
    };
    g + "📊 Metrics: TTFT: "@ + ttft + " | Total: "@ + total + " | Tokens: "@ + tokens + " | Cache: "@ + cache
}

/// The first line of turn `n`: its branch mark, number and id, and whether it is the active leaf.
pub open spec fn head_line(n: TurnNodeView, number: nat, is_last: bool, active: Option<Seq<char>>) -> Seq<char> {
    (if is_last { "└──"@ } else { "├──"@ }) + " ["@ + decimal(number) + "] Node ID: "@ + n.id + (if active == Some(n.id) {
        " 🌿 [Active Leaf]"@
    } else {
        Seq::empty()
    })
}

/// The line naming the parent of `n`, if it has one.
pub open spec fn parent_part(g: Seq<char>, n: TurnNodeView) -> Seq<Seq<char>> {
    match n.parent_id {
        Some(p) => seq![g + "↳ Parent: "@ + p],
        None => Seq::empty(),
    }
}

/// The line showing a message of `n` under `label`, if there is one.
pub open spec fn message_part(label: Seq<char>, m: Option<MessageView>) -> Seq<Seq<char>> {
    match m {
        Some(u) => seq![label + snippet_of(message_text(u)) + "\""@],
        None => Seq::empty(),
    }
}

/// The lines showing the tool calls of `n`.
pub open spec fn calls_part(g: Seq<char>, n: TurnNodeView) -> Seq<Seq<char>> {
    n.tool_calls.map_values(|c: crate::models::message::ToolCallView| g + "🛠️ Tool Call: "@ + c.name + "(args: "@ + c.arguments + ")"@)
}

/// The lines showing the tool results of `n`.
pub open spec fn results_part(g: Seq<char>, n: TurnNodeView) -> Seq<Seq<char>> {
    n.tool_results.map_values(|r: crate::models::tool::ToolResultView| g + "⚙️ Tool Result: \""@ + snippet_of(r.output) + "\""@)
}

/// The lines that show turn `n`, numbered `number`, the last one shown when `is_last`.
pub open spec fn node_lines(n: TurnNodeView, number: nat, is_last: bool, active: Option<Seq<char>>) -> Seq<Seq<char>> {
    let g = gutter(is_last);
    seq![head_line(n, number, is_last, active)] + parent_part(g, n) + message_part(g + "👤 User: \""@, n.user_message)
        + calls_part(g, n) + results_part(g, n) + message_part(g + "🤖 Assistant: \""@, n.assistant_message) + seq![
        metrics_line(g, n.timing, n.usage),
    ] + (if is_last { Seq::empty() } else { seq!["│"@] })
}

/// The lines that show the first `ns.len()` of `total` turns, in order.
pub open spec fn nodes_lines(ns: Seq<TurnNodeView>, total: nat, active: Option<Seq<char>>) -> Seq<Seq<char>>
    decreases ns.len(),
{
    if ns.len() == 0 {
        Seq::empty()
    } else {
        nodes_lines(ns.drop_last(), total, active) + node_lines(ns.last(), ns.len(), ns.len() == total, active)
    }
}

/// `n` placed into turns ordered by creation time, after every turn created no later.
pub open spec fn insert_by_time(sorted: Seq<TurnNodeView>, n: TurnNodeView) -> Seq<TurnNodeView>
    decreases sorted.len(),
{
    if sorted.len() == 0 {
        seq![n]
    } else if sorted.last().created_at <= n.created_at {
        sorted.push(n)
    } else {
        insert_by_time(sorted.drop_last(), n).push(sorted.last())
    }
}

/// The turns ordered by creation time; turns created at the same time keep their order.
pub open spec fn chronological(s: Seq<TurnNodeView>) -> Seq<TurnNodeView>
    decreases s.len(),
{
    if s.len() == 0 {
        s
    } else {
        insert_by_time(chronological(s.drop_last()), s.last())
    }
}

/// The lines that show an episode's tree of turns: its id and model, its system prompt on
/// one line, then each turn in order of creation with its parent, messages, tool calls and
/// results, and metrics (or a note that there are none), between two empty lines.
pub open spec fn tree_lines(
    id: Seq<char>,
    model: Seq<char>,
    system_prompt: Option<Seq<char>>,
    active: Option<Seq<char>>,
    nodes: Seq<TurnNodeView>,
) -> Seq<Seq<char>> {
    let head = seq![Seq::<char>::empty(), "🌿 Episode: "@ + id + " (Model: "@ + model + ")"@] + match system_prompt {
        Some(p) => seq!["│  ⚙️ System Prompt: \""@ + one_line(p) + "\""@],
        None => Seq::empty(),
    } + seq!["│"@];
    if nodes.len() == 0 {
        head + seq!["└── (No turns recorded yet)"@, Seq::<char>::empty()]
    } else {
        head + nodes_lines(chronological(nodes), nodes.len(), active) + seq![Seq::<char>::empty()]
    }
}

/// Inserts `n` into turns kept in order of creation, after the turns created no later.
fn insert_turn_by_time(sorted: &mut Vec<TurnNode>, n: TurnNode)
    ensures
        views_of(final(sorted)@) == insert_by_time(views_of(old(sorted)@), n@),
{
    let ghost s = views_of(sorted@);
    let mut pos = sorted.len();
    assert(s.take(pos as int) =~= s);
    assert(s.subrange(pos as int, s.len() as int) =~= Seq::<TurnNodeView>::empty());
    assert(insert_by_time(s, n@) + Seq::<TurnNodeView>::empty() =~= insert_by_time(s, n@));
    while pos > 0 && sorted[pos - 1].created_at > n.created_at
        invariant
            pos <= sorted.len(),
            s == views_of(sorted@),
            insert_by_time(s, n@) == insert_by_time(s.take(pos as int), n@) + s.subrange(pos as int, s.len() as int),
        decreases pos,
    {
        let ghost t = s.take(pos as int);
        assert(t.drop_last() =~= s.take(pos - 1));
        assert(t.last() == s[pos - 1]);
        assert(s.subrange(pos - 1, s.len() as int) =~= seq![s[pos - 1]] + s.subrange(pos as int, s.len() as int));
        assert(insert_by_time(t, n@) == insert_by_time(s.take(pos - 1), n@).push(s[pos - 1]));
        assert(insert_by_time(s.take(pos - 1), n@).push(s[pos - 1]) + s.subrange(pos as int, s.len() as int)
            =~= insert_by_time(s.take(pos - 1), n@) + s.subrange(pos - 1, s.len() as int));
        pos = pos - 1;
    }
    proof {
        let t = s.take(pos as int);
        if pos > 0 {
            assert(t.last() == s[pos - 1]);
            assert(insert_by_time(t, n@) == t.push(n@));
        } else {
            assert(t =~= Seq::<TurnNodeView>::empty());
            assert(insert_by_time(t, n@) == seq![n@]);
        }
    }
    let ghost before = sorted@;
    sorted.insert(pos, n);
    proof {
        assert(views_of(sorted@) =~= views_of(before).insert(pos as int, n@));
        assert(s.take(pos as int).push(n@) + s.subrange(pos as int, s.len() as int) =~= s.insert(pos as int, n@));
    }
}

/// The turns of an episode in order of creation.
fn chronological_turns(nodes: &Vec<TurnNode>) -> (r: Vec<TurnNode>)
    ensures
        views_of(r@) == chronological(views_of(nodes@)),
{
    let ghost s = views_of(nodes@);
    let mut sorted: Vec<TurnNode> = Vec::new();
    let mut i: usize = 0;
    assert(s.take(0) =~= Seq::<TurnNodeView>::empty());
    while i < nodes.len()
        invariant
            i <= nodes.len(),
            s == views_of(nodes@),
            s.len() == nodes.len(),
            views_of(sorted@) == chronological(s.take(i as int)),
        decreases nodes.len() - i,
    {
        let n = nodes[i].duplicate();
        assert(s.take(i + 1).drop_last() =~= s.take(i as int));
        assert(s.take(i + 1).last() == n@);
        insert_turn_by_time(&mut sorted, n);
        i = i + 1;
    }
    assert(s.take(nodes.len() as int) =~= s);
    sorted
}

/// Views of a list of lines extended by one.
proof fn lemma_lines_push(s: Seq<String>, x: String)
    ensures
        views_of(s.push(x)) == views_of(s).push(x@),
{
    assert(views_of(s.push(x)) =~= views_of(s).push(x@));
}

/// Appends `line` to `lines`.
fn push_line(lines: &mut Vec<String>, line: String)
    ensures
        views_of(final(lines)@) == views_of(old(lines)@).push(line@),
{
    proof {
        lemma_lines_push(lines@, line);
    }
    lines.push(line);
}

/// A duration in milliseconds, or `n/a`.
fn ms_string(v: Option<u64>) -> (r: String)
    ensures
        r@ == ms_text(v),
{
    match v {
        Some(m) => {
            let d = decimal_string(m);
            concat(d.as_str(), "ms")
        },
        None => "n/a".to_owned(),
    }
}

/// The metrics line of a turn.
fn metrics_string(g: &str, timing: Option<TurnTiming>, usage: Option<TokenUsage>) -> (r: String)
    ensures
        r@ == metrics_line(g@, timing, usage),
{
    let ttft = ms_string(match timing {
        Some(t) => t.ttft_ms,
        None => None,
    });
    let total = ms_string(match timing {
        Some(t) => Some(t.total_ms),
        None => None,
    });
    let tokens = match usage {
        Some(u) => {
            let d = decimal_usize(u.total_tokens);
            concat(d.as_str(), " tok")
        },
        None => "n/a".to_owned(),
    };
    let cache = match usage {
        Some(u) => match u.cached_tokens {
            Some(c) => if u.prompt_tokens > 0 {
                let q = u.prompt_tokens as u128;
                let num = (c as u128) * 100 + q / 2;
                let p = num / q;
                assert(p <= num) by (nonlinear_arith)
                    requires
                        q >= 1,
                        p == num / q,
                ;
                let d = decimal_wide(p);
                concat(d.as_str(), "%")
            } else {
                "n/a".to_owned()
            },
            None => "n/a".to_owned(),
        },
        None => "n/a".to_owned(),
    };
    let a0 = concat(g, "📊 Metrics: TTFT: ");
    let a = concat3(a0.as_str(), ttft.as_str(), " | Total: ");
    let b = concat3(a.as_str(), total.as_str(), " | Tokens: ");
    let c = concat3(b.as_str(), tokens.as_str(), " | Cache: ");
    concat(c.as_str(), cache.as_str())
}

/// The first line of turn `n`.
fn head_string(n: &TurnNode, number: usize, is_last: bool, active: &Option<String>) -> (r: String)
    ensures
        r@ == head_line(n@, number as nat, is_last, match active {
            Some(a) => Some(a@),
            None => None,
        }),
{
    let branch = if is_last { "└──" } else { "├──" };
    let num = decimal_usize(number);
    let is_active = match active {
        Some(a) => crate::keyed::str_eq(a.as_str(), n.id.as_str()),
        None => false,
    };
    let h1 = concat3(branch, " [", num.as_str());
    let h2 = concat3(h1.as_str(), "] Node ID: ", n.id.as_str());
    if is_active {
        concat(h2.as_str(), " 🌿 [Active Leaf]")
    } else {
        assert(h2@ + Seq::<char>::empty() =~= h2@);
        h2
    }
}

/// Appends the line showing message `m` under `label`, if there is one.
fn push_message_line(lines: &mut Vec<String>, label: &str, m: &Option<crate::models::message::Message>)
    ensures
        views_of(final(lines)@) == views_of(old(lines)@) + message_part(label@, match m {
            Some(x) => Some(x@),
            None => None,
        }),
{
    if let Some(u) = m {
        let text = match &u.content {
            Some(c) => one_line_prefix(c.as_str(), 80),
            None => {
                assert(one_line(Seq::<char>::empty()) =~= Seq::<char>::empty());
                String::new()
            },
        };
        push_line(lines, concat3(label, text.as_str(), "\""));
        assert(views_of(lines@) =~= views_of(old(lines)@) + seq![label@ + snippet_of(message_text(u@)) + "\""@]);
    } else {
        assert(views_of(lines@) =~= views_of(old(lines)@) + Seq::<Seq<char>>::empty());
    }
}

/// Appends the lines showing the tool calls of `n`.
fn push_call_lines(lines: &mut Vec<String>, g: &str, n: &TurnNode)
    ensures
        views_of(final(lines)@) == views_of(old(lines)@) + calls_part(g@, n@),
{
    let ghost start = views_of(lines@);
    let ghost tcs = views_of(n.tool_calls@);
    let mut k: usize = 0;
    while k < n.tool_calls.len()
        invariant
            k <= n.tool_calls.len(),
            tcs == views_of(n.tool_calls@),
            views_of(lines@) == start + tcs.take(k as int).map_values(
                |c: crate::models::message::ToolCallView| g@ + "🛠️ Tool Call: "@ + c.name + "(args: "@ + c.arguments + ")"@,
            ),
        decreases n.tool_calls.len() - k,
    {
        let c = &n.tool_calls[k];
        let a0 = concat(g, "🛠️ Tool Call: ");
        let a = concat3(a0.as_str(), c.function.name.as_str(), "(args: ");
        let line = concat3(a.as_str(), c.function.arguments.as_str(), ")");
        assert(tcs[k as int] == c@);
        assert(tcs.take(k + 1) =~= tcs.take(k as int).push(c@));
        push_line(lines, line);
        k = k + 1;
    }
    assert(tcs.take(n.tool_calls.len() as int) =~= tcs);
}

/// Appends the lines showing the tool results of `n`.
fn push_result_lines(lines: &mut Vec<String>, g: &str, n: &TurnNode)
    ensures
        views_of(final(lines)@) == views_of(old(lines)@) + results_part(g@, n@),
{
    let ghost start = views_of(lines@);
    let ghost trs = views_of(n.tool_results@);
    let mut k: usize = 0;
    while k < n.tool_results.len()
        invariant
            k <= n.tool_results.len(),
            trs == views_of(n.tool_results@),
            views_of(lines@) == start + trs.take(k as int).map_values(
                |r: crate::models::tool::ToolResultView| g@ + "⚙️ Tool Result: \""@ + snippet_of(r.output) + "\""@,
            ),
        decreases n.tool_results.len() - k,
    {
        let r = &n.tool_results[k];
        let text = one_line_prefix(r.output.as_str(), 80);
        let head = concat(g, "⚙️ Tool Result: \"");
        let line = concat3(head.as_str(), text.as_str(), "\"");
        assert(trs[k as int] == r@);
        assert(trs.take(k + 1) =~= trs.take(k as int).push(r@));
        push_line(lines, line);
        k = k + 1;
    }
    assert(trs.take(n.tool_results.len() as int) =~= trs);
}

/// Appends the lines that show turn `n`.
fn push_node_lines(lines: &mut Vec<String>, n: &TurnNode, number: usize, is_last: bool, active: &Option<String>)
    ensures
        views_of(final(lines)@) == views_of(old(lines)@) + node_lines(
            n@,
            number as nat,
            is_last,
            match active {
                Some(a) => Some(a@),
                None => None,
            },
        ),
{
    let ghost start = views_of(lines@);
    let g = if is_last { "    " } else { "│   " };
    let head = head_string(n, number, is_last, active);
    push_line(lines, head);
    if let Some(p) = &n.parent_id {
        push_line(lines, concat3(g, "↳ Parent: ", p.as_str()));
    }
    let ghost after_parent = views_of(lines@);
    assert(after_parent =~= start + seq![head@] + parent_part(g@, n@));
    let user_label = concat(g, "👤 User: \"");
    push_message_line(lines, user_label.as_str(), &n.user_message);
    push_call_lines(lines, g, n);
    push_result_lines(lines, g, n);
    let assistant_label = concat(g, "🤖 Assistant: \"");
    push_message_line(lines, assistant_label.as_str(), &n.assistant_message);
    push_line(lines, metrics_string(g, n.timing, n.usage));
    let ghost before_tail = views_of(lines@);
    if !is_last {
        push_line(lines, "│".to_owned());
    }
    assert(views_of(lines@) =~= before_tail + (if is_last { Seq::<Seq<char>>::empty() } else { seq!["│"@] }));
}

/// The lines that show an episode's tree of turns (see `tree_lines`).
pub fn dag_tree_lines(ep: &Episode) -> (r: Vec<String>)
    ensures
        views_of(r@) == tree_lines(
            ep@.id,
            ep@.model,
            ep@.system_prompt,
            ep@.active_leaf_id,
            ep@.nodes,
        ),
{
    let mut lines: Vec<String> = Vec::new();
    push_line(&mut lines, String::new());
    let h1 = concat3("🌿 Episode: ", ep.id.as_str(), " (Model: ");
    push_line(&mut lines, concat3(h1.as_str(), ep.model.as_str(), ")"));
    if let Some(p) = &ep.system_prompt {
        let text = one_line_prefix(p.as_str(), char_count(p.as_str()));
        push_line(&mut lines, concat3("│  ⚙️ System Prompt: \"", text.as_str(), "\""));
    }
    push_line(&mut lines, "│".to_owned());
    let ghost head = views_of(lines@);
    proof {
        let hv = seq![Seq::<char>::empty(), "🌿 Episode: "@ + ep@.id + " (Model: "@ + ep@.model + ")"@] + match ep@.system_prompt {
            Some(p) => seq!["│  ⚙️ System Prompt: \""@ + one_line(p) + "\""@],
            None => Seq::<Seq<char>>::empty(),
        } + seq!["│"@];
        assert(head =~= hv);
    }
    if ep.nodes.len() == 0 {
        push_line(&mut lines, "└── (No turns recorded yet)".to_owned());
        push_line(&mut lines, String::new());
        assert(views_of(lines@) =~= head + seq!["└── (No turns recorded yet)"@, Seq::<char>::empty()]);
        return lines;
    }
    let turns = chronological_turns(&ep.nodes);
    let ghost tv = views_of(turns@);
    proof {
        lemma_chronological_len(views_of(ep.nodes@));
    }
    let total = turns.len();
    let mut k: usize = 0;
    while k < total
        invariant
            k <= total,
            total == turns.len(),
            tv == views_of(turns@),
            tv.len() == total,
            total == ep@.nodes.len(),
            views_of(lines@) == head + nodes_lines(tv.take(k as int), total as nat, ep@.active_leaf_id),
        decreases total - k,
    {
        proof {
            assert(tv.take(k + 1).drop_last() =~= tv.take(k as int));
            assert(tv.take(k + 1).last() == tv[k as int]);
        }
        push_node_lines(&mut lines, &turns[k], k + 1, k + 1 == total, &ep.active_leaf_id);
        proof {
            assert(turns@[k as int]@ == tv[k as int]);
        }
        k = k + 1;
    }
    assert(tv.take(total as int) =~= tv);
    push_line(&mut lines, String::new());
    lines
}

/// Ordering turns by creation time keeps their number.
proof fn lemma_chronological_len(s: Seq<TurnNodeView>)
    ensures
        chronological(s).len() == s.len(),
    decreases s.len(),
{
    if s.len() > 0 {
        lemma_chronological_len(s.drop_last());
        lemma_insert_by_time_len(chronological(s.drop_last()), s.last());
    }
}

/// Inserting a turn adds one.
proof fn lemma_insert_by_time_len(s: Seq<TurnNodeView>, n: TurnNodeView)
    ensures
        insert_by_time(s, n).len() == s.len() + 1,
    decreases s.len(),
{
    if s.len() > 0 && s.last().created_at > n.created_at {
        lemma_insert_by_time_len(s.drop_last(), n);
    }
}

/// No turn is listed before one created earlier.
pub open spec fn oldest_first(s: Seq<TurnNodeView>) -> bool {
    forall|i: int, j: int| #![trigger s[i], s[j]] 0 <= i < j < s.len() ==> s[i].created_at <= s[j].created_at
}

/// Placing `n` into turns ordered by creation keeps them so, adding exactly `n`.
proof fn lemma_insert_by_time(t: Seq<TurnNodeView>, n: TurnNodeView)
    requires
        oldest_first(t),
    ensures
        oldest_first(insert_by_time(t, n)),
        insert_by_time(t, n).to_multiset() =~= t.to_multiset().insert(n),
    decreases t.len(),
{
    broadcast use vstd::seq_lib::group_to_multiset_ensures;
    let r = insert_by_time(t, n);
    if t.len() == 0 {
        assert(t =~= Seq::<TurnNodeView>::empty());
        assert(r =~= t.push(n));
    } else if t.last().created_at <= n.created_at {
        assert forall|i: int, j: int| #![trigger r[i], r[j]] 0 <= i < j < r.len() implies r[i].created_at
            <= r[j].created_at by {
            if j == t.len() {
                assert(r[i] == t[i]);
                assert(t[i].created_at <= t[t.len() - 1].created_at);
            } else {
                assert(r[i] == t[i] && r[j] == t[j]);
            }
        }
    } else {
        let p = t.drop_last();
        let last = t.last();
        assert(oldest_first(p)) by {
            assert forall|i: int, j: int| #![trigger p[i], p[j]] 0 <= i < j < p.len() implies p[i].created_at
                <= p[j].created_at by {
                assert(p[i] == t[i] && p[j] == t[j]);
            }
        }
        lemma_insert_by_time(p, n);
        let q = insert_by_time(p, n);
        assert(r == q.push(last));
        assert(t =~= p.push(last));
        assert forall|i: int, j: int| #![trigger r[i], r[j]] 0 <= i < j < r.len() implies r[i].created_at
            <= r[j].created_at by {
            if j == q.len() {
                assert(r[i] == q[i]);
                assert(q.contains(q[i]));
                assert(q.to_multiset().count(q[i]) > 0);
                if q[i] != n {
                    assert(p.to_multiset().count(q[i]) > 0);
                    assert(p.contains(q[i]));
                    let k = choose|k: int| 0 <= k < p.len() && p[k] == q[i];
                    assert(t[k] == p[k]);
                    assert(t[k].created_at <= t[t.len() - 1].created_at);
                }
            } else {
                assert(r[i] == q[i] && r[j] == q[j]);
            }
        }
    }
}

/// The tree lists every turn of the episode once, oldest first.
pub proof fn law_tree_lists_turns_oldest_first(s: Seq<TurnNodeView>)
    ensures
        chronological(s).to_multiset() == s.to_multiset(),
        oldest_first(chronological(s)),
    decreases s.len(),
{
    broadcast use vstd::seq_lib::group_to_multiset_ensures;
    if s.len() > 0 {
        law_tree_lists_turns_oldest_first(s.drop_last());
        lemma_insert_by_time(chronological(s.drop_last()), s.last());
        assert(s =~= s.drop_last().push(s.last()));
    }
}

} // verus!
