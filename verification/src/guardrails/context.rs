use vstd::prelude::*;
use vstd::utf8::encode_utf8;

use crate::models::message::{
    plain_message, views_of, Message, MessageView, Role, ToolCallView, lemma_views_push,
    lemma_views_take_next,
};

verus! {

/// The text of the notice that replaces compacted turns.
pub open spec fn notice_text() -> Seq<char> {
    "[Notice: Earlier conversation turns have been compacted to fit the active context window budget.]"@
}

/// Length in bytes of the UTF-8 encoding of `s`, as `str::len` reports it.
pub open spec fn utf8_len(s: Seq<char>) -> usize {
    encode_utf8(s).len() as usize
}

/// The estimated token count of a text: a quarter of its UTF-8 byte length, at least one
/// token for any non-empty text, none for the empty text.
pub open spec fn text_tokens(s: Seq<char>) -> nat {
    if s.len() == 0 {
        0
    } else if utf8_len(s) / 4 >= 1 {
        (utf8_len(s) / 4) as nat
    } else {
        1
    }
}

/// Estimated tokens of the tool calls of a message: eight per call, plus the name and arguments.
pub open spec fn tool_calls_tokens(tcs: Seq<ToolCallView>) -> nat
    decreases tcs.len(),
{
    if tcs.len() == 0 {
        0
    } else {
        tool_calls_tokens(tcs.drop_last()) + 8 + text_tokens(tcs.last().name) + text_tokens(
            tcs.last().arguments,
        )
    }
}

/// Estimated tokens of one message: four for role and framing, plus content and tool calls.
pub open spec fn message_tokens(m: MessageView) -> nat {
    4 + match m.content {
        Some(c) => text_tokens(c),
        None => 0,
    } + match m.tool_calls {
        Some(v) => tool_calls_tokens(v),
        None => 0,
    }
}

/// Estimated tokens of a whole message history.
pub open spec fn total_tokens(ms: Seq<MessageView>) -> nat
    decreases ms.len(),
{
    if ms.len() == 0 {
        0
    } else {
        total_tokens(ms.drop_last()) + message_tokens(ms.last())
    }
}

/// The token budget for the prompt: the context size less the reserved output, never below 512.
pub open spec fn prompt_budget(max_context: usize, reserved_output: usize) -> nat {
    let b: nat = if max_context >= reserved_output {
        (max_context - reserved_output) as nat
    } else {
        0
    };
    if b >= 512 {
        b
    } else {
        512
    }
}

/// `a - b`, or zero when `b > a`.
pub open spec fn sat_sub(a: nat, b: nat) -> nat {
    if a >= b {
        (a - b) as nat
    } else {
        0
    }
}

/// How many of the newest messages of `rem` fit into `room` tokens when they are taken
/// from the end one by one until the next one does not fit.
pub open spec fn fitting_suffix_len(rem: Seq<MessageView>, room: int) -> nat
    decreases rem.len(),
{
    if rem.len() == 0 {
        0
    } else if message_tokens(rem.last()) <= room {
        1 + fitting_suffix_len(rem.drop_last(), room - message_tokens(rem.last()))
    } else {
        0
    }
}

/// The history starts with a system prompt.
pub open spec fn starts_with_system(ms: Seq<MessageView>) -> bool {
    ms.len() > 0 && ms[0].role == Role::System
}

/// The messages other than a leading system prompt.
pub open spec fn non_system_part(ms: Seq<MessageView>) -> Seq<MessageView> {
    if starts_with_system(ms) {
        ms.drop_first()
    } else {
        ms
    }
}

/// The tokens of the leading system prompt, if there is one.
pub open spec fn system_part_tokens(ms: Seq<MessageView>) -> nat {
    if starts_with_system(ms) {
        message_tokens(ms[0])
    } else {
        0
    }
}

/// The tokens left for conversation turns once the system prompt and the notice are counted.
pub open spec fn turn_room(budget: nat, ms: Seq<MessageView>) -> nat {
    sat_sub(sat_sub(budget, system_part_tokens(ms)), message_tokens(plain_message(Role::System, notice_text())))
}

/// The position of the last user prompt in `rem`, or -1 when there is none.
pub open spec fn last_user_index(rem: Seq<MessageView>) -> int
    decreases rem.len(),
{
    if rem.len() == 0 {
        -1
    } else if rem.last().role == Role::User {
        rem.len() - 1
    } else {
        last_user_index(rem.drop_last())
    }
}

/// How many of the newest turns must be kept whatever the budget: the last user prompt and
/// everything after it, or the newest message when there is no user prompt.
pub open spec fn required_turns(rem: Seq<MessageView>) -> nat {
    if last_user_index(rem) >= 0 {
        (rem.len() - last_user_index(rem)) as nat
    } else {
        1
    }
}

/// The last user prompt and everything after it (the newest message when there is no
/// user prompt).
pub open spec fn last_prompt_onward(rem: Seq<MessageView>) -> Seq<MessageView> {
    rem.subrange(rem.len() - required_turns(rem), rem.len() as int)
}

/// How many of the newest turns are kept: all that fit, and at least the last user prompt
/// with what follows it (the newest message when there is no user prompt).
pub open spec fn kept_turns(budget: nat, ms: Seq<MessageView>) -> nat {
    let k = fitting_suffix_len(non_system_part(ms), turn_room(budget, ms) as int);
    let q = required_turns(non_system_part(ms));
    if k >= q {
        k
    } else {
        q
    }
}

/// Where the last user prompt stands: no later message is a user prompt.
pub proof fn lemma_last_user_index(rem: Seq<MessageView>)
    ensures
        -1 <= last_user_index(rem) < rem.len(),
        last_user_index(rem) >= 0 ==> rem[last_user_index(rem)].role == Role::User,
        forall|j: int| last_user_index(rem) < j < rem.len() ==> (#[trigger] rem[j]).role != Role::User,
    decreases rem.len(),
{
    if rem.len() > 0 && rem.last().role != Role::User {
        let d = rem.drop_last();
        lemma_last_user_index(d);
        assert forall|j: int| last_user_index(rem) < j < rem.len() implies (#[trigger] rem[j]).role != Role::User by {
            if j < d.len() {
                assert(rem[j] == d[j]);
            }
        }
    }
}

/// At least one and at most all of the turns are required to stay.
pub proof fn lemma_required_turns(rem: Seq<MessageView>)
    requires
        rem.len() > 0,
    ensures
        1 <= required_turns(rem) <= rem.len(),
{
    lemma_last_user_index(rem);
}

/// The history does not need pruning: it fits the budget or has at most two messages.
pub open spec fn needs_no_pruning(budget: nat, ms: Seq<MessageView>) -> bool {
    total_tokens(ms) <= budget || ms.len() <= 2
}

/// The pruned history: unchanged when it needs no pruning; otherwise the system prompt (if
/// the history starts with one), the compaction notice, then the newest turns that fit.
pub open spec fn pruned_history(budget: nat, ms: Seq<MessageView>) -> Seq<MessageView> {
    if needs_no_pruning(budget, ms) {
        ms
    } else {
        let rem = non_system_part(ms);
        let k = kept_turns(budget, ms);
        (if starts_with_system(ms) { seq![ms[0]] } else { Seq::empty() })
            + seq![plain_message(Role::System, notice_text())]
            + rem.subrange(rem.len() - k, rem.len() as int)
    }
}

/// The total of a prefix extended by the next message.
pub proof fn lemma_total_take_next(ms: Seq<MessageView>, i: int)
    requires
        0 <= i < ms.len(),
    ensures
        total_tokens(ms.take(i + 1)) == total_tokens(ms.take(i)) + message_tokens(ms[i]),
{
    assert(ms.take(i + 1).drop_last() =~= ms.take(i));
}

/// The total splits into the first message and the rest.
pub proof fn lemma_total_first(ms: Seq<MessageView>)
    requires
        ms.len() > 0,
    ensures
        total_tokens(ms) == message_tokens(ms[0]) + total_tokens(ms.drop_first()),
    decreases ms.len(),
{
    if ms.len() > 1 {
        lemma_total_first(ms.drop_last());
        assert(ms.drop_last().drop_first() =~= ms.drop_first().drop_last());
        assert(ms.drop_first().last() == ms.last());
        assert(ms.drop_last()[0] == ms[0]);
        assert(total_tokens(ms) == total_tokens(ms.drop_last()) + message_tokens(ms.last()));
        assert(total_tokens(ms.drop_first()) == total_tokens(ms.drop_first().drop_last())
            + message_tokens(ms.drop_first().last()));
    } else {
        assert(ms.drop_first() =~= Seq::<MessageView>::empty());
        assert(ms.drop_last() =~= Seq::<MessageView>::empty());
        assert(total_tokens(ms) == total_tokens(ms.drop_last()) + message_tokens(ms.last()));
    }
}

/// The total of a concatenation is the sum of the totals.
pub proof fn lemma_total_concat(a: Seq<MessageView>, b: Seq<MessageView>)
    ensures
        total_tokens(a + b) == total_tokens(a) + total_tokens(b),
    decreases b.len(),
{
    if b.len() == 0 {
        assert(a + b =~= a);
    } else {
        lemma_total_concat(a, b.drop_last());
        assert((a + b).drop_last() =~= a + b.drop_last());
    }
}

/// No single message costs more than the whole history.
pub proof fn lemma_message_within_total(ms: Seq<MessageView>, i: int)
    requires
        0 <= i < ms.len(),
    ensures
        message_tokens(ms[i]) <= total_tokens(ms),
    decreases ms.len(),
{
    if i < ms.len() - 1 {
        lemma_message_within_total(ms.drop_last(), i);
    }
}

/// A contiguous part of a history costs no more than the whole.
pub proof fn lemma_subrange_within_total(ms: Seq<MessageView>, lo: int, hi: int)
    requires
        0 <= lo <= hi <= ms.len(),
    ensures
        total_tokens(ms.subrange(lo, hi)) <= total_tokens(ms),
{
    lemma_total_concat(ms.subrange(0, lo), ms.subrange(lo, hi));
    lemma_total_concat(ms.subrange(0, lo) + ms.subrange(lo, hi), ms.subrange(hi, ms.len() as int));
    assert(ms.subrange(0, lo) + ms.subrange(lo, hi) + ms.subrange(hi, ms.len() as int) =~= ms);
}

/// Every message costs at least four tokens.
pub proof fn lemma_message_tokens_positive(m: MessageView)
    ensures
        message_tokens(m) >= 4,
{
}

/// The fitting suffix is no longer than the history, and its cost fits the room.
pub proof fn lemma_fitting_suffix(rem: Seq<MessageView>, room: int)
    ensures
        fitting_suffix_len(rem, room) <= rem.len(),
        room >= 0 ==> total_tokens(
            rem.subrange(rem.len() - fitting_suffix_len(rem, room), rem.len() as int),
        ) <= room,
    decreases rem.len(),
{
    if rem.len() > 0 && message_tokens(rem.last()) <= room {
        let c = message_tokens(rem.last());
        let d = rem.drop_last();
        lemma_fitting_suffix(d, room - c);
        let k = fitting_suffix_len(d, room - c);
        let sub = rem.subrange(rem.len() - (k + 1), rem.len() as int);
        assert(sub.drop_last() =~= d.subrange(d.len() - k, d.len() as int));
        assert(sub.last() == rem.last());
    } else {
        assert(rem.subrange(rem.len() - 0, rem.len() as int) =~= Seq::<MessageView>::empty());
    }
}

/// The estimated tokens of a text never exceed a quarter of the largest size.
pub proof fn lemma_text_tokens_bound(s: Seq<char>)
    ensures
        text_tokens(s) <= usize::MAX / 4,
{
}

/// The total of a one-message history.
pub proof fn lemma_total_single(m: MessageView)
    ensures
        total_tokens(seq![m]) == message_tokens(m),
{
    assert(seq![m].drop_last() =~= Seq::<MessageView>::empty());
    assert(seq![m].last() == m);
    assert(total_tokens(Seq::<MessageView>::empty()) == 0);
}

/// A history that fits the prompt budget is sent unchanged.
pub proof fn law_prune_keeps_fitting_history(budget: nat, ms: Seq<MessageView>)
    requires
        total_tokens(ms) <= budget,
    ensures
        pruned_history(budget, ms) == ms,
{
}

/// A leading system prompt stays at position 0 after pruning.
pub proof fn law_prune_keeps_system_prompt(budget: nat, ms: Seq<MessageView>)
    requires
        starts_with_system(ms),
    ensures
        pruned_history(budget, ms).len() > 0,
        pruned_history(budget, ms)[0] == ms[0],
{
}

/// The newest message is always kept, and stays last.
pub proof fn law_prune_keeps_newest_message(budget: nat, ms: Seq<MessageView>)
    requires
        ms.len() > 0,
    ensures
        pruned_history(budget, ms).len() > 0,
        pruned_history(budget, ms).last() == ms.last(),
{
    if !needs_no_pruning(budget, ms) {
        let rem = non_system_part(ms);
        lemma_fitting_suffix(rem, turn_room(budget, ms) as int);
        lemma_required_turns(rem);
        let k = kept_turns(budget, ms);
        let p = pruned_history(budget, ms);
        let head = (if starts_with_system(ms) { seq![ms[0]] } else { Seq::empty() })
            + seq![plain_message(Role::System, notice_text())];
        assert(p == head + rem.subrange(rem.len() - k, rem.len() as int));
        assert(rem.last() == ms.last());
    }
}

/// The last user prompt, and every message after it, survive pruning unchanged at the end
/// of the history.
pub proof fn law_prune_keeps_last_user_prompt(budget: nat, ms: Seq<MessageView>, i: int)
    requires
        0 <= i < non_system_part(ms).len(),
        non_system_part(ms)[i].role == Role::User,
    ensures
        i <= last_user_index(non_system_part(ms)),
        non_system_part(ms)[last_user_index(non_system_part(ms))].role == Role::User,
        pruned_history(budget, ms).len() >= last_prompt_onward(non_system_part(ms)).len(),
        last_prompt_onward(non_system_part(ms)) == non_system_part(ms).subrange(
            last_user_index(non_system_part(ms)),
            non_system_part(ms).len() as int,
        ),
        pruned_history(budget, ms).subrange(
            pruned_history(budget, ms).len() - last_prompt_onward(non_system_part(ms)).len(),
            pruned_history(budget, ms).len() as int,
        ) == last_prompt_onward(non_system_part(ms)),
{
    let rem = non_system_part(ms);
    lemma_last_user_index(rem);
    lemma_required_turns(rem);
    if i > last_user_index(rem) {
        assert(rem[i].role != Role::User);
    }
    let q = required_turns(rem);
    let tail0 = last_prompt_onward(rem);
    let p = pruned_history(budget, ms);
    if needs_no_pruning(budget, ms) {
        if starts_with_system(ms) {
            assert(p =~= seq![ms[0]] + rem);
        } else {
            assert(p == rem);
        }
        assert(p.subrange(p.len() - q, p.len() as int) =~= tail0);
    } else {
        lemma_fitting_suffix(rem, turn_room(budget, ms) as int);
        let k = kept_turns(budget, ms);
        let head = (if starts_with_system(ms) { seq![ms[0]] } else { Seq::empty() })
            + seq![plain_message(Role::System, notice_text())];
        let tail = rem.subrange(rem.len() - k, rem.len() as int);
        assert(p == head + tail);
        assert(p.subrange(p.len() - q, p.len() as int) =~= tail0);
    }
}

/// A pruned history fits the prompt budget, except when even the last user prompt with the
/// messages after it does not fit beside the system prompt and the notice: then exactly
/// those are kept.
pub proof fn law_prune_fits_budget(budget: nat, ms: Seq<MessageView>)
    requires
        !needs_no_pruning(budget, ms),
    ensures
        total_tokens(pruned_history(budget, ms)) <= budget || total_tokens(
            pruned_history(budget, ms),
        ) == system_part_tokens(ms) + message_tokens(plain_message(Role::System, notice_text()))
            + total_tokens(last_prompt_onward(non_system_part(ms))),
{
    let rem = non_system_part(ms);
    let room = turn_room(budget, ms);
    let notice = plain_message(Role::System, notice_text());
    lemma_fitting_suffix(rem, room as int);
    lemma_required_turns(rem);
    let k0 = fitting_suffix_len(rem, room as int);
    let q = required_turns(rem);
    let k = kept_turns(budget, ms);
    let sys = if starts_with_system(ms) { seq![ms[0]] } else { Seq::<MessageView>::empty() };
    let tail = rem.subrange(rem.len() - k, rem.len() as int);
    let p = pruned_history(budget, ms);
    assert(p == sys + seq![notice] + tail);
    lemma_total_concat(sys + seq![notice], tail);
    lemma_total_concat(sys, seq![notice]);
    lemma_total_single(notice);
    if starts_with_system(ms) {
        assert(total_tokens(sys) == message_tokens(ms[0])) by {
            lemma_total_single(ms[0]);
        }
    } else {
        assert(total_tokens(sys) == 0);
    }
    if k0 >= q {
        lemma_message_tokens_positive(rem.last());
        assert(message_tokens(rem.last()) <= room);
    } else {
        assert(tail == last_prompt_onward(rem));
    }
}

/// A suffix that fits the room is counted in full by `fitting_suffix_len`.
proof fn lemma_fitting_at_least(rem: Seq<MessageView>, room: int, j: int)
    requires
        0 <= j <= rem.len(),
        total_tokens(rem.subrange(rem.len() - j, rem.len() as int)) <= room,
    ensures
        fitting_suffix_len(rem, room) >= j,
    decreases rem.len(),
{
    if j > 0 {
        let suf = rem.subrange(rem.len() - j, rem.len() as int);
        let d = rem.drop_last();
        assert(suf.last() == rem.last());
        assert(suf.drop_last() =~= d.subrange(d.len() - (j - 1), d.len() as int));
        lemma_fitting_suffix(d, room - message_tokens(rem.last()));
        assert(total_tokens(suf) == total_tokens(suf.drop_last()) + message_tokens(rem.last()));
        lemma_fitting_at_least(d, room - message_tokens(rem.last()), j - 1);
    }
}

/// Pruning a pruned history changes nothing, unless the history had no system prompt and its
/// pruned form still does not fit: the notice then stands first and is taken for a system
/// prompt.
pub proof fn law_prune_is_idempotent(budget: nat, ms: Seq<MessageView>)
    requires
        needs_no_pruning(budget, ms) || starts_with_system(ms) || total_tokens(pruned_history(budget, ms)) <= budget,
    ensures
        pruned_history(budget, pruned_history(budget, ms)) == pruned_history(budget, ms),
{
    let p = pruned_history(budget, ms);
    if !needs_no_pruning(budget, ms) && total_tokens(p) > budget {
        let rem = non_system_part(ms);
        let room = turn_room(budget, ms);
        let notice = plain_message(Role::System, notice_text());
        law_prune_fits_budget(budget, ms);
        lemma_fitting_suffix(rem, room as int);
        lemma_required_turns(rem);
        lemma_last_user_index(rem);
        let q = required_turns(rem);
        let k0 = fitting_suffix_len(rem, room as int);
        let tail = last_prompt_onward(rem);
        if k0 >= q {
            lemma_total_concat(seq![ms[0]] + seq![notice], rem.subrange(rem.len() - k0, rem.len() as int));
            lemma_total_concat(seq![ms[0]], seq![notice]);
            lemma_total_single(notice);
            lemma_total_single(ms[0]);
            lemma_message_tokens_positive(rem.last());
            assert(message_tokens(rem.last()) <= room);
            assert(false);
        }
        assert(kept_turns(budget, ms) == q);
        assert(p == seq![ms[0]] + seq![notice] + tail);
        let rem2 = seq![notice] + tail;
        assert(p[0] == ms[0]);
        assert(starts_with_system(p));
        assert(non_system_part(p) =~= rem2);
        assert(system_part_tokens(p) == system_part_tokens(ms));
        assert(turn_room(budget, p) == room);
        assert(!needs_no_pruning(budget, p));
        // The same messages are required to stay.
        assert(tail.len() == q);
        if last_user_index(rem) >= 0 {
            let u = last_user_index(rem);
            assert(tail[0] == rem[u]);
            assert(rem2.last() == tail.last());
            assert forall|j: int| 1 < j < rem2.len() implies (#[trigger] rem2[j]).role != Role::User by {
                assert(rem2[j] == rem[u + j - 1]);
            }
            lemma_last_user_index(rem2);
            assert(rem2[1] == rem[u]);
            assert(last_user_index(rem2) == 1);
        } else {
            assert(tail =~= seq![rem.last()]);
            assert(rem2.len() == 2);
            lemma_last_user_index(rem2);
            assert(rem2[1] == rem[rem.len() - 1]);
            assert(rem2[1].role != Role::User);
            assert(rem2[0].role != Role::User);
            assert(last_user_index(rem2) < 0);
        }
        assert(required_turns(rem2) == q);
        // Not all of `rem2` fits, else the tail alone would have fit before.
        let k2 = fitting_suffix_len(rem2, room as int);
        lemma_fitting_suffix(rem2, room as int);
        if k2 > q {
            assert(k2 == rem2.len());
            assert(rem2.subrange(0, rem2.len() as int) =~= rem2);
            lemma_total_concat(seq![notice], tail);
            assert(rem.subrange(rem.len() - q, rem.len() as int) == tail);
            lemma_fitting_at_least(rem, room as int, q as int);
            assert(false);
        }
        assert(kept_turns(budget, p) == q);
        assert(rem2.subrange(rem2.len() - q, rem2.len() as int) =~= tail);
        assert(pruned_history(budget, p) =~= p);
    }
}

/// Token estimates add up over concatenated histories; an empty history costs nothing and
/// a single message costs its own estimate.
pub proof fn law_total_tokens_additive(a: Seq<MessageView>, b: Seq<MessageView>, m: MessageView)
    ensures
        total_tokens(a + b) == total_tokens(a) + total_tokens(b),
        total_tokens(Seq::<MessageView>::empty()) == 0,
        total_tokens(seq![m]) == message_tokens(m),
{
    lemma_total_concat(a, b);
    lemma_total_single(m);
}

/// Limits on context size and reserved output tokens for prompts sent upstream.
#[derive(Debug, Clone, Copy)]
pub struct ContextBudgetManager {
    pub max_context_tokens: usize,
    pub reserved_output_tokens: usize,
}

impl ContextBudgetManager {
    /// A manager with the given context size and reserved output tokens.
    pub fn new(max_context_tokens: usize, reserved_output_tokens: usize) -> (m: Self)
        ensures
            m.max_context_tokens == max_context_tokens,
            m.reserved_output_tokens == reserved_output_tokens,
    {
        ContextBudgetManager { max_context_tokens, reserved_output_tokens }
    }

    /// The default limits: 8192 context tokens, 2048 reserved for the output.
    pub fn default_limits() -> (m: Self)
        ensures
            m.max_context_tokens == 8192,
            m.reserved_output_tokens == 2048,
    {
        ContextBudgetManager { max_context_tokens: 8192, reserved_output_tokens: 2048 }
    }

    /// The prompt budget of this manager.
    pub open spec fn budget(&self) -> nat {
        prompt_budget(self.max_context_tokens, self.reserved_output_tokens)
    }

    /// Fast token estimate of a text (about four bytes per token).
    pub fn estimate_tokens(text: &str) -> (r: usize)
        ensures
            r == text_tokens(text@),
    {
        if text.is_empty() {
            return 0;
        }
        let q = text.len() / 4;
        if q >= 1 {
            q
        } else {
            1
        }
    }

    /// Estimated tokens of one message.
    pub fn estimate_message_tokens(msg: &Message) -> (r: usize)
        requires
            message_tokens(msg@) <= usize::MAX,
        ensures
            r == message_tokens(msg@),
    {
        let mut tokens: usize = 4;
        if let Some(content) = &msg.content {
            tokens = tokens + Self::estimate_tokens(content.as_str());
        }
        if let Some(tool_calls) = &msg.tool_calls {
            let ghost base = tokens;
            let ghost tcs = views_of(tool_calls@);
            let mut i: usize = 0;
            while i < tool_calls.len()
                invariant
                    i <= tool_calls.len(),
                    tcs == views_of(tool_calls@),
                    tokens == base + tool_calls_tokens(tcs.take(i as int)),
                    base + tool_calls_tokens(tcs) <= usize::MAX,
                decreases tool_calls.len() - i,
            {
                proof {
                    lemma_tool_calls_take_next(tcs, i as int);
                    lemma_tool_calls_prefix_bound(tcs, i + 1);
                }
                let tc = &tool_calls[i];
                tokens = tokens + 8;
                tokens = tokens + Self::estimate_tokens(tc.function.name.as_str());
                tokens = tokens + Self::estimate_tokens(tc.function.arguments.as_str());
                i = i + 1;
            }
            assert(tcs.take(tool_calls.len() as int) =~= tcs);
        }
        tokens
    }

    /// Estimated tokens of a whole history.
    pub fn estimate_total_tokens(messages: &[Message]) -> (r: usize)
        requires
            total_tokens(views_of(messages@)) <= usize::MAX,
        ensures
            r == total_tokens(views_of(messages@)),
    {
        let ghost ms = views_of(messages@);
        let mut sum: usize = 0;
        let mut i: usize = 0;
        while i < messages.len()
            invariant
                i <= messages.len(),
                ms == views_of(messages@),
                ms.len() == messages.len(),
                sum == total_tokens(ms.take(i as int)),
                total_tokens(ms) <= usize::MAX,
            decreases messages.len() - i,
        {
            proof {
                lemma_total_take_next(ms, i as int);
                lemma_subrange_within_total(ms, 0, i + 1);
                assert(ms.take(i + 1) == ms.subrange(0, i + 1));
                lemma_message_within_total(ms, i as int);
            }
            sum = sum + Self::estimate_message_tokens(&messages[i]);
            i = i + 1;
        }
        assert(ms.take(messages.len() as int) =~= ms);
        sum
    }

    /// Prunes a history to the prompt budget. A leading system prompt is kept at position 0,
    /// then comes a notice that turns were compacted, then the newest messages that fit, and
    /// at least the last user prompt with the messages after it (the newest message when
    /// there is no user prompt). A history within the budget, or of at most two messages, is
    /// returned unchanged.
    pub fn prune_history(&self, messages: Vec<Message>) -> (r: Vec<Message>)
        requires
            total_tokens(views_of(messages@)) <= usize::MAX,
        ensures
            views_of(r@) == pruned_history(self.budget(), views_of(messages@)),
    {
        let ghost ms = views_of(messages@);
        let diff = if self.max_context_tokens >= self.reserved_output_tokens {
            self.max_context_tokens - self.reserved_output_tokens
        } else {
            0
        };
        let budget = if diff >= 512 {
            diff
        } else {
            512
        };
        assert(budget == self.budget());
        let total = Self::estimate_total_tokens(messages.as_slice());
        if total <= budget || messages.len() <= 2 {
            return messages;
        }
        let mut remaining = messages;
        let has_system = remaining[0].role == Role::System;
        proof {
            lemma_message_within_total(ms, 0);
        }
        let mut system_msg: Option<Message> = None;
        let mut system_tokens: usize = 0;
        if has_system {
            system_tokens = Self::estimate_message_tokens(&remaining[0]);
            let first = remaining.remove(0);
            system_msg = Some(first);
        }
        let ghost rem = non_system_part(ms);
        proof {
            if has_system {
                assert(views_of(remaining@) =~= ms.drop_first());
                lemma_total_first(ms);
            } else {
                assert(views_of(remaining@) == ms);
            }
        }
        assert(views_of(remaining@) == rem);
        assert(total_tokens(rem) <= usize::MAX);
        let notice = Message::system(
            "[Notice: Earlier conversation turns have been compacted to fit the active context window budget.]",
        );
        proof {
            lemma_text_tokens_bound(notice_text());
        }
        let notice_tokens = Self::estimate_message_tokens(&notice);
        let room = budget.saturating_sub(system_tokens).saturating_sub(notice_tokens);
        assert(room == turn_room(self.budget(), ms));
        let n = remaining.len();
        let mut count: usize = 0;
        let mut acc: usize = 0;
        let mut done = false;
        assert(rem.take(n as int) =~= rem);
        while count < n && !done
            invariant
                n == remaining.len(),
                rem == views_of(remaining@),
                rem.len() == n,
                count <= n,
                acc <= room,
                total_tokens(rem) <= usize::MAX,
                fitting_suffix_len(rem, room as int) == count + fitting_suffix_len(
                    rem.take(n - count),
                    room - acc,
                ),
                done ==> fitting_suffix_len(rem.take(n - count), room - acc) == 0,
            decreases n - count + (if done { 0int } else { 1int }),
        {
            let j = n - 1 - count;
            proof {
                lemma_message_within_total(rem, j as int);
            }
            let cost = Self::estimate_message_tokens(&remaining[j]);
            let ghost pre = rem.take(n - count);
            proof {
                assert(pre.last() == rem[j as int]);
                assert(pre.drop_last() =~= rem.take(n - count - 1));
            }
            if cost <= room - acc {
                acc = acc + cost;
                count = count + 1;
            } else {
                done = true;
            }
        }
        proof {
            if !done {
                assert(rem.take(0) =~= Seq::<MessageView>::empty());
            }
        }
        assert(count == fitting_suffix_len(rem, room as int));
        let mut last_user: usize = n;
        let mut j: usize = n;
        while j > 0
            invariant
                j <= n,
                n == remaining.len(),
                rem == views_of(remaining@),
                rem.len() == n,
                last_user_index(rem) == (if last_user < n { last_user as int } else { last_user_index(rem.take(j as int)) }),
                last_user < n ==> j == 0,
            decreases j,
        {
            let ghost t = rem.take(j as int);
            assert(t.drop_last() =~= rem.take(j - 1));
            assert(t.last() == rem[j - 1]);
            if remaining[j - 1].role == Role::User {
                last_user = j - 1;
                j = 0;
            } else {
                j = j - 1;
            }
        }
        proof {
            if last_user == n {
                assert(rem.take(0) =~= Seq::<MessageView>::empty());
            }
            lemma_required_turns(rem);
        }
        let required = if last_user < n { n - last_user } else { 1 };
        assert(required == required_turns(rem));
        let keep = if count >= required { count } else { required };
        proof {
            lemma_fitting_suffix(rem, room as int);
        }
        assert(keep == kept_turns(self.budget(), ms));
        let mut kept = remaining.split_off(n - keep);
        let mut out: Vec<Message> = Vec::new();
        if let Some(sys) = system_msg {
            out.push(sys);
        }
        out.push(notice);
        let ghost head = out@;
        let ghost tail = kept@;
        out.append(&mut kept);
        proof {
            assert(out@ == head + tail);
            assert(views_of(out@) =~= pruned_history(self.budget(), ms));
        }
        out
    }
}

/// The tool-call total of a prefix extended by the next call.
pub proof fn lemma_tool_calls_take_next(tcs: Seq<ToolCallView>, i: int)
    requires
        0 <= i < tcs.len(),
    ensures
        tool_calls_tokens(tcs.take(i + 1)) == tool_calls_tokens(tcs.take(i)) + 8 + text_tokens(
            tcs[i].name,
        ) + text_tokens(tcs[i].arguments),
{
    assert(tcs.take(i + 1).drop_last() =~= tcs.take(i));
}

/// A prefix of the tool calls costs no more than all of them.
pub proof fn lemma_tool_calls_prefix_bound(tcs: Seq<ToolCallView>, i: int)
    requires
        0 <= i <= tcs.len(),
    ensures
        tool_calls_tokens(tcs.take(i)) <= tool_calls_tokens(tcs),
    decreases tcs.len() - i,
{
    if i < tcs.len() {
        lemma_tool_calls_prefix_bound(tcs, i + 1);
        lemma_tool_calls_take_next(tcs, i);
    } else {
        assert(tcs.take(i) =~= tcs);
    }
}

impl Default for ContextBudgetManager {
    /// 8192 context tokens, 2048 of them reserved for the output.
    fn default() -> (m: Self)
        ensures
            m.max_context_tokens == 8192,
            m.reserved_output_tokens == 2048,
    {
        Self::default_limits()
    }
}

/// Whether the estimated tokens of `messages` fit in a `usize`, so that they can be
/// estimated and pruned.
pub fn total_tokens_fit(messages: &[Message]) -> (r: bool)
    ensures
        r == (total_tokens(views_of(messages@)) <= usize::MAX),
{
    let ghost ms = views_of(messages@);
    let mut sum: usize = 0;
    let mut i: usize = 0;
    while i < messages.len()
        invariant
            i <= messages.len(),
            ms == views_of(messages@),
            ms.len() == messages.len(),
            sum == total_tokens(ms.take(i as int)),
        decreases messages.len() - i,
    {
        proof {
            lemma_total_take_next(ms, i as int);
        }
        let m = &messages[i];
        if !message_tokens_fit(m) {
            proof {
                lemma_subrange_within_total(ms, 0, i + 1);
                assert(ms.take(i + 1) == ms.subrange(0, i + 1));
                assert(message_tokens(ms[i as int]) > usize::MAX);
                lemma_message_within_total(ms, i as int);
            }
            return false;
        }
        let t = ContextBudgetManager::estimate_message_tokens(m);
        if t > usize::MAX - sum {
            proof {
                lemma_subrange_within_total(ms, 0, i + 1);
                assert(ms.take(i + 1) == ms.subrange(0, i + 1));
            }
            return false;
        }
        sum = sum + t;
        i = i + 1;
    }
    assert(ms.take(messages.len() as int) =~= ms);
    true
}

/// Whether the estimated tokens of one message fit in a `usize`.
fn message_tokens_fit(msg: &Message) -> (r: bool)
    ensures
        r == (message_tokens(msg@) <= usize::MAX),
{
    let mut tokens: u128 = 4;
    if let Some(content) = &msg.content {
        tokens = tokens + ContextBudgetManager::estimate_tokens(content.as_str()) as u128;
    }
    if let Some(tool_calls) = &msg.tool_calls {
        let ghost base = tokens;
        let ghost tcs = views_of(tool_calls@);
        let mut i: usize = 0;
        while i < tool_calls.len()
            invariant
                i <= tool_calls.len(),
                tcs == views_of(tool_calls@),
                tokens == base + tool_calls_tokens(tcs.take(i as int)),
                base <= 4 + usize::MAX / 4,
                base + tool_calls_tokens(tcs) == message_tokens(msg@),
                tokens <= usize::MAX,
            decreases tool_calls.len() - i,
        {
            proof {
                lemma_tool_calls_take_next(tcs, i as int);
            }
            let tc = &tool_calls[i];
            let add = 8u128 + ContextBudgetManager::estimate_tokens(tc.function.name.as_str()) as u128
                + ContextBudgetManager::estimate_tokens(tc.function.arguments.as_str()) as u128;
            tokens = tokens + add;
            if tokens > usize::MAX as u128 {
                proof {
                    lemma_tool_calls_prefix_bound(tcs, i + 1);
                    assert(tokens == base + tool_calls_tokens(tcs.take(i + 1)));
                }
                return false;
            }
            i = i + 1;
        }
        assert(tcs.take(tool_calls.len() as int) =~= tcs);
    }
    tokens <= usize::MAX as u128
}

} // verus!
