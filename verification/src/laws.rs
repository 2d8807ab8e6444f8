use vstd::prelude::*;

use crate::stream::is_transition;
use crate::meta::{keys_ascending, lemma_meta_insert_keys_ascending};
use crate::translator::{step_spec, StepOut, TransV};
use crate::{
    lookup_attr,
    DelimType, ErrorKind, FlatStreamBit, FlatStreamBitV, SentDelim, StreamBitV, TokenV,
};

verus! {

/// What a run of the translator over a whole token sequence yields: the final
/// state, the events emitted in order, and whether every token was consumed
/// without failure (the first failure stops the run).
pub struct RunRes {
    pub post: TransV,
    pub events: Seq<FlatStreamBitV>,
    pub ok: bool,
}

/// Folds `step_spec` over `toks` from state `s`, collecting emitted events.
pub open spec fn run(s: TransV, toks: Seq<TokenV>) -> RunRes
    decreases toks.len(),
{
    if toks.len() == 0 {
        RunRes { post: s, events: Seq::empty(), ok: true }
    } else {
        let sr = step_spec(s, toks[0]);
        match sr.out {
            StepOut::Fail(_) => RunRes { post: sr.post, events: Seq::empty(), ok: false },
            StepOut::Skip => run(sr.post, toks.skip(1)),
            StepOut::Emit(b) => {
                let rest = run(sr.post, toks.skip(1));
                RunRes { post: rest.post, events: seq![b] + rest.events, ok: rest.ok }
            },
        }
    }
}

/// The results of two translator steps correspond piece by piece.
pub open spec fn same_outcome(
    r1: Result<Option<FlatStreamBit>, ErrorKind>,
    r2: Result<Option<FlatStreamBit>, ErrorKind>,
) -> bool {
    match r1 {
        Ok(None) => r2 matches Ok(None),
        Ok(Some(b1)) => match r2 {
            Ok(Some(b2)) => b1@ == b2@,
            _ => false,
        },
        Err(e1) => match r2 {
            Err(e2) => e1@ == e2@,
            _ => false,
        },
    }
}

/// Feeding tokens of equal shape to translators in states of equal shape
/// moves them to equal states and returns structurally equal events or
/// errors: re-reading the same input reproduces the same event sequence.
pub proof fn lemma_feed_deterministic(
    pre1: TransV,
    t1: TokenV,
    post1: TransV,
    r1: Result<Option<FlatStreamBit>, ErrorKind>,
    pre2: TransV,
    t2: TokenV,
    post2: TransV,
    r2: Result<Option<FlatStreamBit>, ErrorKind>,
)
    requires
        is_transition(pre1, t1, post1, r1),
        is_transition(pre2, t2, post2, r2),
        pre1 == pre2,
        t1 == t2,
    ensures
        post1 == post2,
        same_outcome(r1, r2),
{
}

/// The sentence delimiter that one step emits, if any.
pub open spec fn emitted_sent(out: StepOut) -> Option<SentDelim> {
    match out {
        StepOut::Emit(b) => match b {
            FlatStreamBitV::StreamBit(sb) => match sb {
                StreamBitV::SentDelim(d) => Some(d),
                _ => None,
            },
            _ => None,
        },
        _ => None,
    }
}

/// The sentence delimiters among a run's events, in order.
pub open spec fn sent_events(events: Seq<FlatStreamBitV>) -> Seq<SentDelim>
    decreases events.len(),
{
    if events.len() == 0 {
        Seq::empty()
    } else {
        let rest = sent_events(events.skip(1));
        match events[0] {
            FlatStreamBitV::StreamBit(sb) => match sb {
                StreamBitV::SentDelim(d) => seq![d] + rest,
                _ => rest,
            },
            _ => rest,
        }
    }
}

/// Sentence elements are properly paired and never nested: no sentence opens
/// inside a sentence, and every sentence that opens closes.
pub open spec fn sent_shape(toks: Seq<TokenV>, in_s: bool) -> bool
    decreases toks.len(),
{
    if toks.len() == 0 {
        !in_s
    } else {
        match toks[0] {
            TokenV::StartElement { name, attrs } => if name == "s"@ {
                &&& !in_s
                &&& sent_shape(toks.skip(1), true)
            } else {
                sent_shape(toks.skip(1), in_s)
            },
            TokenV::EndElement { name } => if name == "s"@ {
                &&& in_s
                &&& sent_shape(toks.skip(1), false)
            } else {
                sent_shape(toks.skip(1), in_s)
            },
            _ => sent_shape(toks.skip(1), in_s),
        }
    }
}

/// `ds` alternates Start and End delimiters with matching ids; when `in_s`,
/// its first delimiter closes the open sentence `cur`.
pub open spec fn strictly_paired(ds: Seq<SentDelim>, in_s: bool, cur: u64) -> bool
    decreases ds.len(),
{
    if in_s {
        &&& ds.len() >= 1
        &&& ds[0] == (SentDelim { id: cur, delim_type: DelimType::End })
        &&& strictly_paired(ds.skip(1), false, cur)
    } else {
        ds.len() == 0 || {
            &&& ds[0].delim_type == DelimType::Start
            &&& strictly_paired(ds.skip(1), true, ds[0].id)
        }
    }
}

/// How one non-failing step treats sentence delimiters: an `s` start tag
/// emits the Start delimiter of the id it stores, an `s` end tag emits the
/// End delimiter of the stored id, and every other token leaves the stored id
/// alone and emits no sentence delimiter.
proof fn lemma_step_sent_facts(s: TransV, t: TokenV)
    requires
        !(step_spec(s, t).out is Fail),
    ensures
        ({
            let sr = step_spec(s, t);
            match t {
                TokenV::StartElement { name, attrs } => if name == "s"@ {
                    emitted_sent(sr.out) == Some(
                        SentDelim { id: sr.post.sent_id, delim_type: DelimType::Start },
                    )
                } else {
                    sr.post.sent_id == s.sent_id && emitted_sent(sr.out) is None
                },
                TokenV::EndElement { name } => if name == "s"@ {
                    sr.post.sent_id == s.sent_id && emitted_sent(sr.out) == Some(
                        SentDelim { id: s.sent_id, delim_type: DelimType::End },
                    )
                } else {
                    sr.post.sent_id == s.sent_id && emitted_sent(sr.out) is None
                },
                _ => sr.post.sent_id == s.sent_id && emitted_sent(sr.out) is None,
            }
        }),
{
    reveal_strlit("meta");
    reveal_strlit("s");
    reveal_strlit("time");
    reveal_strlit("w");
    assert("meta"@.len() == 4 && "s"@.len() == 1 && "time"@.len() == 4 && "w"@.len() == 1);
    assert("meta"@[0] == 'm' && "time"@[0] == 't' && "s"@[0] == 's' && "w"@[0] == 'w');
    match t {
        TokenV::StartElement { name, attrs } => {
            if name == "s"@ {
                match lookup_attr(attrs, "id"@) {
                    None => {
                        assert(false);
                    },
                    Some(raw) => {
                        match crate::text::dec_result(raw) {
                            Err(_) => {
                                assert(false);
                            },
                            Ok(id) => {},
                        }
                    },
                }
            }
        },
        _ => {},
    }
}


/// How many sentence elements open in `toks`.
pub open spec fn count_s_starts(toks: Seq<TokenV>) -> nat
    decreases toks.len(),
{
    if toks.len() == 0 {
        0
    } else {
        let rest = count_s_starts(toks.skip(1));
        match toks[0] {
            TokenV::StartElement { name, attrs } => if name == "s"@ {
                1 + rest
            } else {
                rest
            },
            _ => rest,
        }
    }
}

/// In a run of a document whose sentence elements are properly paired and
/// never nested, the translator emits exactly one Start and one End sentence
/// delimiter per sentence element, with matching ids, in strict alternation:
/// the delimiters pair up and there are two per sentence element.
pub proof fn lemma_sentence_pairing(s: TransV, toks: Seq<TokenV>, in_s: bool)
    requires
        sent_shape(toks, in_s),
        run(s, toks).ok,
    ensures
        strictly_paired(sent_events(run(s, toks).events), in_s, s.sent_id),
        sent_events(run(s, toks).events).len() == 2 * count_s_starts(toks) + if in_s {
            1nat
        } else {
            0nat
        },
    decreases toks.len(),
{
    if toks.len() == 0 {
    } else {
        let sr = step_spec(s, toks[0]);
        let rest = run(sr.post, toks.skip(1));
        lemma_step_sent_facts(s, toks[0]);
        let in_s_next: bool = match toks[0] {
            TokenV::StartElement { name, attrs } => if name == "s"@ {
                true
            } else {
                in_s
            },
            TokenV::EndElement { name } => if name == "s"@ {
                false
            } else {
                in_s
            },
            _ => in_s,
        };
        assert(sent_shape(toks.skip(1), in_s_next));
        match sr.out {
            StepOut::Fail(_) => {},
            StepOut::Skip => {
                lemma_sentence_pairing(sr.post, toks.skip(1), in_s_next);
                assert(run(s, toks) == rest);
                match emitted_sent(sr.out) {
                    Some(_) => {
                        assert(false);
                    },
                    None => {
                        assert(sr.post.sent_id == s.sent_id);
                    },
                }
            },
            StepOut::Emit(b) => {
                lemma_sentence_pairing(sr.post, toks.skip(1), in_s_next);
                assert(run(s, toks).events == seq![b] + rest.events);
                assert((seq![b] + rest.events).skip(1) =~= rest.events);
                assert((seq![b] + rest.events)[0] == b);
                match emitted_sent(sr.out) {
                    Some(d) => {
                        assert(b == FlatStreamBitV::StreamBit(StreamBitV::SentDelim(d)));
                        assert(sent_events(seq![b] + rest.events) == seq![d] + sent_events(
                            rest.events,
                        ));
                        assert((seq![d] + sent_events(rest.events)).skip(1) =~= sent_events(
                            rest.events,
                        ));
                        assert((seq![d] + sent_events(rest.events))[0] == d);
                    },
                    None => {
                        assert(sent_events(seq![b] + rest.events) == sent_events(rest.events));
                        assert(sr.post.sent_id == s.sent_id);
                    },
                }
            },
        }
    }
}


/// Whether one step emits a word event.
pub open spec fn emits_word(out: StepOut) -> bool {
    match out {
        StepOut::Emit(b) => match b {
            FlatStreamBitV::StreamBit(sb) => sb is Word,
            _ => false,
        },
        _ => false,
    }
}

/// How many of a run's events are word events.
pub open spec fn count_words(events: Seq<FlatStreamBitV>) -> nat
    decreases events.len(),
{
    if events.len() == 0 {
        0
    } else {
        let rest = count_words(events.skip(1));
        match events[0] {
            FlatStreamBitV::StreamBit(sb) => if sb is Word {
                1 + rest
            } else {
                rest
            },
            _ => rest,
        }
    }
}

/// Word elements are properly paired and never nested, no metadata block
/// opens, and the character tokens inside word elements are non-empty.
pub open spec fn word_shape(toks: Seq<TokenV>, in_w: bool) -> bool
    decreases toks.len(),
{
    if toks.len() == 0 {
        true
    } else {
        match toks[0] {
            TokenV::StartElement { name, attrs } => if name == "meta"@ {
                false
            } else if name == "w"@ {
                &&& !in_w
                &&& word_shape(toks.skip(1), true)
            } else {
                word_shape(toks.skip(1), in_w)
            },
            TokenV::EndElement { name } => if name == "w"@ {
                &&& in_w
                &&& word_shape(toks.skip(1), false)
            } else {
                word_shape(toks.skip(1), in_w)
            },
            TokenV::Characters { text } => {
                &&& (in_w ==> text.len() > 0)
                &&& word_shape(toks.skip(1), in_w)
            },
            _ => word_shape(toks.skip(1), in_w),
        }
    }
}

/// How many non-empty character tokens stand strictly inside word elements.
pub open spec fn count_w_chars(toks: Seq<TokenV>, in_w: bool) -> nat
    decreases toks.len(),
{
    if toks.len() == 0 {
        0
    } else {
        match toks[0] {
            TokenV::StartElement { name, attrs } => if name == "w"@ {
                count_w_chars(toks.skip(1), true)
            } else {
                count_w_chars(toks.skip(1), in_w)
            },
            TokenV::EndElement { name } => if name == "w"@ {
                count_w_chars(toks.skip(1), false)
            } else {
                count_w_chars(toks.skip(1), in_w)
            },
            TokenV::Characters { text } => if in_w && text.len() > 0 {
                1 + count_w_chars(toks.skip(1), in_w)
            } else {
                count_w_chars(toks.skip(1), in_w)
            },
            _ => count_w_chars(toks.skip(1), in_w),
        }
    }
}

/// How one non-failing step outside a metadata block treats word ids and word
/// events: a `w` start tag stores an id, a `w` end tag clears it, character
/// data is emitted as a word exactly when an id is stored, and no other token
/// touches the stored id or emits a word.
proof fn lemma_step_word_facts(s: TransV, t: TokenV)
    requires
        !(step_spec(s, t).out is Fail),
        s.in_meta == false,
        !(t matches TokenV::StartElement { name, attrs } && name == "meta"@),
    ensures
        ({
            let sr = step_spec(s, t);
            &&& sr.post.in_meta == false
            &&& match t {
                TokenV::StartElement { name, attrs } => if name == "w"@ {
                    sr.post.word_id is Some && !emits_word(sr.out)
                } else {
                    sr.post.word_id == s.word_id && !emits_word(sr.out)
                },
                TokenV::EndElement { name } => if name == "w"@ {
                    sr.post.word_id is None && !emits_word(sr.out)
                } else {
                    sr.post.word_id == s.word_id && !emits_word(sr.out)
                },
                TokenV::Characters { text } => sr.post.word_id == s.word_id && emits_word(sr.out)
                    == (s.word_id is Some),
                _ => sr.post.word_id == s.word_id && !emits_word(sr.out),
            }
        }),
{
    reveal_strlit("meta");
    reveal_strlit("s");
    reveal_strlit("time");
    reveal_strlit("w");
    assert("meta"@.len() == 4 && "s"@.len() == 1 && "time"@.len() == 4 && "w"@.len() == 1);
    assert("meta"@[0] == 'm' && "time"@[0] == 't' && "s"@[0] == 's' && "w"@[0] == 'w');
    match t {
        TokenV::StartElement { name, attrs } => {
            if name == "w"@ {
                match lookup_attr(attrs, "id"@) {
                    None => {
                        assert(false);
                    },
                    Some(raw) => {
                        match crate::text::dec_result(crate::text::split_seq(raw, '.').last()) {
                            Err(_) => {
                                assert(false);
                            },
                            Ok(id) => {},
                        }
                    },
                }
            }
        },
        _ => {},
    }
}

/// In a run of a document whose word elements are properly paired and never
/// nested, which opens no metadata block, and whose text inside word elements
/// is non-empty, the translator emits exactly one word event per non-empty
/// character token standing strictly inside a word element.
pub proof fn lemma_word_count(s: TransV, toks: Seq<TokenV>, in_w: bool)
    requires
        word_shape(toks, in_w),
        run(s, toks).ok,
        s.in_meta == false,
        in_w == (s.word_id is Some),
    ensures
        count_words(run(s, toks).events) == count_w_chars(toks, in_w),
    decreases toks.len(),
{
    if toks.len() == 0 {
    } else {
        let sr = step_spec(s, toks[0]);
        let rest = run(sr.post, toks.skip(1));
        lemma_step_word_facts(s, toks[0]);
        let in_w_next: bool = match toks[0] {
            TokenV::StartElement { name, attrs } => if name == "w"@ {
                true
            } else {
                in_w
            },
            TokenV::EndElement { name } => if name == "w"@ {
                false
            } else {
                in_w
            },
            _ => in_w,
        };
        assert(word_shape(toks.skip(1), in_w_next));
        match sr.out {
            StepOut::Fail(_) => {},
            StepOut::Skip => {
                lemma_word_count(sr.post, toks.skip(1), in_w_next);
                assert(run(s, toks) == rest);
            },
            StepOut::Emit(b) => {
                lemma_word_count(sr.post, toks.skip(1), in_w_next);
                assert(run(s, toks).events == seq![b] + rest.events);
                assert((seq![b] + rest.events).skip(1) =~= rest.events);
                assert((seq![b] + rest.events)[0] == b);
                if emits_word(sr.out) {
                    assert(count_words(seq![b] + rest.events) == 1 + count_words(rest.events));
                } else {
                    assert(count_words(seq![b] + rest.events) == count_words(rest.events));
                }
            },
        }
    }
}


/// One step keeps the metadata accumulator in key order and only ever emits
/// a metadata event whose entries are in key order.
proof fn lemma_step_meta_facts(s: TransV, t: TokenV)
    requires
        keys_ascending(s.meta),
    ensures
        ({
            let sr = step_spec(s, t);
            &&& keys_ascending(sr.post.meta)
            &&& match sr.out {
                StepOut::Emit(b) => match b {
                    FlatStreamBitV::Meta(m) => keys_ascending(m),
                    _ => true,
                },
                _ => true,
            }
        }),
{
    match t {
        TokenV::Characters { text } => {
            if s.in_meta && s.meta_stack.len() >= 2 {
                lemma_meta_insert_keys_ascending(s.meta, s.meta_stack[1], s.meta_stack[0], text);
            }
        },
        _ => {},
    }
}

/// Every metadata event a run emits carries its entries in increasing key
/// order, each key held once: the accumulator starts empty and every
/// insertion keeps it ordered.
pub proof fn lemma_meta_events_sorted(s: TransV, toks: Seq<TokenV>)
    requires
        keys_ascending(s.meta),
    ensures
        keys_ascending(run(s, toks).post.meta),
        forall|k: int|
            0 <= k < run(s, toks).events.len() ==> (match #[trigger] run(s, toks).events[k] {
                FlatStreamBitV::Meta(m) => keys_ascending(m),
                _ => true,
            }),
    decreases toks.len(),
{
    if toks.len() == 0 {
    } else {
        let sr = step_spec(s, toks[0]);
        let rest = run(sr.post, toks.skip(1));
        lemma_step_meta_facts(s, toks[0]);
        match sr.out {
            StepOut::Fail(_) => {},
            StepOut::Skip => {
                lemma_meta_events_sorted(sr.post, toks.skip(1));
            },
            StepOut::Emit(b) => {
                lemma_meta_events_sorted(sr.post, toks.skip(1));
                let events = seq![b] + rest.events;
                assert(run(s, toks).events == events);
                assert forall|k: int|
                    0 <= k < events.len() implies (match #[trigger] events[k] {
                    FlatStreamBitV::Meta(m) => keys_ascending(m),
                    _ => true,
                }) by {
                    if k == 0 {
                        assert(events[0] == b);
                    } else {
                        assert(events[k] == rest.events[k - 1]);
                    }
                }
            },
        }
    }
}

} // verus!
