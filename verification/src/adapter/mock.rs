use vstd::prelude::*;

use crate::adapter::{StreamItem, StreamItemView};
use crate::models::message::views_of;
use crate::text::{chars_of, string_from_chars};

verus! {

/// A tool call that the scripted upstream makes.
#[derive(Debug)]
pub struct MockToolCall {
    pub id: String,
    pub name: String,
    pub arguments: String,
}

/// What the scripted upstream answers to one request.
#[derive(Debug)]
pub enum MockBehavior {
    /// A text answer, streamed word by word.
    TextReply(String),
    /// One tool call.
    ToolCall { id: String, name: String, arguments: String },
    /// Several tool calls at once.
    ParallelToolCalls(Vec<MockToolCall>),
    /// A multi-step script; answered with a single fixed step.
    Sequential(Vec<MockBehavior>),
}

/// `s` cut after each space (as `str::split_inclusive(' ')`): the pieces, in order, make up
/// `s`; each but the last ends with a space, and none is empty.
pub open spec fn words_inclusive(s: Seq<char>) -> Seq<Seq<char>>
    decreases s.len(),
{
    if s.len() == 0 {
        Seq::empty()
    } else {
        let p = words_inclusive(s.drop_last());
        if p.len() > 0 && p.last().last() != ' ' {
            p.drop_last().push(p.last().push(s.last()))
        } else {
            p.push(seq![s.last()])
        }
    }
}

/// The stream items the scripted upstream sends for `b`.
pub open spec fn mock_items(b: MockBehavior) -> Seq<StreamItemView> {
    match b {
        MockBehavior::TextReply(t) => words_inclusive(t@).map_values(|w: Seq<char>| StreamItemView::Token(w))
            + seq![StreamItemView::Finish { reason: "stop"@ }],
        MockBehavior::ToolCall { id, name, arguments } => seq![
            StreamItemView::ToolCallDelta { index: 0, id: Some(id@), name: Some(name@), arguments_delta: arguments@ },
            StreamItemView::Finish { reason: "tool_calls"@ },
        ],
        MockBehavior::ParallelToolCalls(calls) => Seq::new(
            calls@.len(),
            |k: int| StreamItemView::ToolCallDelta {
                index: k as usize,
                id: Some(calls@[k].id@),
                name: Some(calls@[k].name@),
                arguments_delta: calls@[k].arguments@,
            },
        ) + seq![StreamItemView::Finish { reason: "tool_calls"@ }],
        MockBehavior::Sequential(_) => seq![
            StreamItemView::Token("Sequential step"@),
            StreamItemView::Finish { reason: "stop"@ },
        ],
    }
}

/// A scripted upstream: a queue of answers, one per request.
pub struct MockAdapter {
    behaviors: Vec<MockBehavior>,
}

impl View for MockAdapter {
    type V = Seq<MockBehavior>;

    closed spec fn view(&self) -> Seq<MockBehavior> {
        self.behaviors@
    }
}

impl MockAdapter {
    /// A script with no answers queued.
    pub fn new() -> (r: Self)
        ensures
            r@ == Seq::<MockBehavior>::empty(),
    {
        let r = MockAdapter { behaviors: Vec::new() };
        assert(r@ =~= Seq::<MockBehavior>::empty());
        r
    }

    /// A script holding one answer.
    pub fn with_behavior(behavior: MockBehavior) -> (r: Self)
        ensures
            r@ == seq![behavior],
    {
        let mut r = Self::new();
        r.add_behavior(behavior);
        assert(r@ =~= seq![behavior]);
        r
    }

    /// Queues one more answer.
    pub fn add_behavior(&mut self, behavior: MockBehavior)
        ensures
            final(self)@ == old(self)@.push(behavior),
    {
        self.behaviors.push(behavior);
    }

    /// The next answer, removed from the queue; `TextReply("Mock default answer.")` when
    /// the queue is empty.
    pub fn next_behavior(&mut self) -> (r: MockBehavior)
        ensures
            old(self)@.len() > 0 ==> r == old(self)@[0] && final(self)@ == old(self)@.drop_first(),
            old(self)@.len() == 0 ==> final(self)@ == old(self)@ && (r matches MockBehavior::TextReply(t)
                && t@ == "Mock default answer."@),
    {
        if self.behaviors.len() == 0 {
            MockBehavior::TextReply("Mock default answer.".to_owned())
        } else {
            let ghost before = self.behaviors@;
            let r = self.behaviors.remove(0);
            assert(self.behaviors@ =~= before.drop_first());
            r
        }
    }
}

/// Views of a list of stream items extended by one.
proof fn lemma_push_item(s: Seq<StreamItem>, x: StreamItem)
    ensures
        views_of(s.push(x)) == views_of(s).push(x@),
{
    assert(views_of(s.push(x)) =~= views_of(s).push(x@));
}

/// The pieces of `text` cut after each space.
fn split_words(text: &str) -> (r: Vec<String>)
    ensures
        views_of(r@) == words_inclusive(text@),
{
    let cs = chars_of(text);
    let mut done: Vec<String> = Vec::new();
    let mut cur: Vec<char> = Vec::new();
    let mut i: usize = 0;
    while i < cs.len()
        invariant
            i <= cs.len(),
            cs@ == text@,
            cur@.len() > 0 ==> cur@.last() != ' ',
            forall|k: int| 0 <= k < done@.len() ==> (#[trigger] done@[k])@.len() > 0 && done@[k]@.last() == ' ',
            words_inclusive(text@.take(i as int)) == views_of(done@) + (if cur@.len() > 0 {
                seq![cur@]
            } else {
                Seq::<Seq<char>>::empty()
            }),
        decreases cs.len() - i,
    {
        let c = cs[i];
        let ghost t = text@.take(i + 1);
        let ghost p = words_inclusive(text@.take(i as int));
        assert(t.drop_last() =~= text@.take(i as int));
        assert(t.last() == c);
        let ghost old_done = done@;
        let ghost old_cur = cur@;
        cur.push(c);
        if c == ' ' {
            let w = string_from_chars(&cur);
            proof {
                lemma_views_push_string(done@, w);
            }
            done.push(w);
            cur = Vec::new();
        }
        proof {
            let w = old_cur.push(c);
            if old_cur.len() > 0 {
                assert(p.last() == old_cur);
                assert(p.drop_last() =~= views_of(old_done));
                assert(words_inclusive(t) == views_of(old_done).push(w));
            } else {
                assert(p =~= views_of(old_done));
                if p.len() > 0 {
                    assert(p.last() == old_done[p.len() - 1]@);
                }
                assert(w =~= seq![c]);
                assert(words_inclusive(t) == views_of(old_done).push(w));
            }
            if c == ' ' {
                assert(views_of(done@) == views_of(old_done).push(w));
                assert(cur@.len() == 0);
                assert(words_inclusive(t) =~= views_of(done@) + Seq::<Seq<char>>::empty());
            } else {
                assert(cur@ == w);
                assert(done@ == old_done);
                assert(words_inclusive(t) =~= views_of(done@) + seq![cur@]);
            }
        }
        i = i + 1;
    }
    assert(text@.take(cs.len() as int) =~= text@);
    if cur.len() > 0 {
        let w = string_from_chars(&cur);
        proof {
            lemma_views_push_string(done@, w);
        }
        done.push(w);
    } else {
        assert(views_of(done@) + Seq::<Seq<char>>::empty() =~= views_of(done@));
    }
    done
}

/// Views of a list of strings extended by one.
proof fn lemma_views_push_string(s: Seq<String>, x: String)
    ensures
        views_of(s.push(x)) == views_of(s).push(x@),
{
    assert(views_of(s.push(x)) =~= views_of(s).push(x@));
}

/// The stream items the scripted upstream sends for `behavior`.
pub fn mock_stream_items(behavior: MockBehavior) -> (r: Vec<StreamItem>)
    ensures
        views_of(r@) == mock_items(behavior),
{
    let ghost b = behavior;
    let mut items: Vec<StreamItem> = Vec::new();
    match behavior {
        MockBehavior::TextReply(text) => {
            let words = split_words(text.as_str());
            let ghost ws = words_inclusive(text@);
            let mut k: usize = 0;
            while k < words.len()
                invariant
                    k <= words.len(),
                    views_of(words@) == ws,
                    views_of(items@) == ws.take(k as int).map_values(|w: Seq<char>| StreamItemView::Token(w)),
                decreases words.len() - k,
            {
                let item = StreamItem::Token(words[k].clone());
                proof {
                    lemma_push_item(items@, item);
                    assert(ws[k as int] == words@[k as int]@);
                    assert(ws.take(k + 1).map_values(|w: Seq<char>| StreamItemView::Token(w)) =~= ws.take(
                        k as int,
                    ).map_values(|w: Seq<char>| StreamItemView::Token(w)).push(item@));
                }
                items.push(item);
                k = k + 1;
            }
            assert(ws.take(words.len() as int) =~= ws);
            let fin = StreamItem::Finish { reason: "stop".to_owned() };
            proof {
                lemma_push_item(items@, fin);
            }
            items.push(fin);
        },
        MockBehavior::ToolCall { id, name, arguments } => {
            let d = StreamItem::ToolCallDelta { index: 0, id: Some(id), name: Some(name), arguments_delta: arguments };
            proof {
                lemma_push_item(items@, d);
            }
            items.push(d);
            let fin = StreamItem::Finish { reason: "tool_calls".to_owned() };
            proof {
                lemma_push_item(items@, fin);
            }
            items.push(fin);
        },
        MockBehavior::ParallelToolCalls(calls) => {
            let ghost cs = calls@;
            let ghost deltas = Seq::new(
                cs.len(),
                |k: int| StreamItemView::ToolCallDelta {
                    index: k as usize,
                    id: Some(cs[k].id@),
                    name: Some(cs[k].name@),
                    arguments_delta: cs[k].arguments@,
                },
            );
            let mut k: usize = 0;
            while k < calls.len()
                invariant
                    k <= calls.len(),
                    cs == calls@,
                    deltas == Seq::new(
                        cs.len(),
                        |k: int| StreamItemView::ToolCallDelta {
                            index: k as usize,
                            id: Some(cs[k].id@),
                            name: Some(cs[k].name@),
                            arguments_delta: cs[k].arguments@,
                        },
                    ),
                    views_of(items@) == deltas.take(k as int),
                decreases calls.len() - k,
            {
                let c = &calls[k];
                let d = StreamItem::ToolCallDelta {
                    index: k,
                    id: Some(c.id.clone()),
                    name: Some(c.name.clone()),
                    arguments_delta: c.arguments.clone(),
                };
                proof {
                    lemma_push_item(items@, d);
                    assert(deltas.take(k + 1) =~= deltas.take(k as int).push(d@));
                }
                items.push(d);
                k = k + 1;
            }
            assert(deltas.take(calls.len() as int) =~= deltas);
            let fin = StreamItem::Finish { reason: "tool_calls".to_owned() };
            proof {
                lemma_push_item(items@, fin);
            }
            items.push(fin);
        },
        MockBehavior::Sequential(_) => {
            let t = StreamItem::Token("Sequential step".to_owned());
            proof {
                lemma_push_item(items@, t);
            }
            items.push(t);
            let fin = StreamItem::Finish { reason: "stop".to_owned() };
            proof {
                lemma_push_item(items@, fin);
            }
            items.push(fin);
        },
    }
    assert(views_of(items@) =~= mock_items(b));
    items
}

} // verus!
