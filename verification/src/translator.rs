use vstd::prelude::*;

use crate::duration::{duration_result, parse_duration};
use crate::meta::{meta_insert, MetaEntryV, MetaMap};
use crate::text::{dec_result, parse_u64, split_seq, split_str, str_eq};
use crate::time_id::{parse_time_id, time_id_result};
use crate::{
    lookup_attr, req_value, BlockDelim, DelimType, ErrorKind, ErrorKindV, FlatStreamBit,
    FlatStreamBitV, SentDelim, StreamBit, StreamBitV, Token, TokenV, Word, WordV,
};

verus! {

/// The translator's state between two tokens: the id of the word being read,
/// the id of the open sentence, whether a `meta` block has been entered, the
/// stack of tag names open inside it, and the metadata gathered so far.
pub struct Translator {
    pub word_id: Option<u64>,
    pub sent_id: u64,
    pub in_meta: bool,
    pub meta_stack: Vec<String>,
    pub meta: MetaMap,
}

/// The mathematical shape of the translator's state.
#[verifier::ext_equal]
pub struct TransV {
    pub word_id: Option<u64>,
    pub sent_id: u64,
    pub in_meta: bool,
    pub meta_stack: Seq<Seq<char>>,
    pub meta: Seq<MetaEntryV>,
}

impl View for Translator {
    type V = TransV;

    open spec fn view(&self) -> TransV {
        TransV {
            word_id: self.word_id,
            sent_id: self.sent_id,
            in_meta: self.in_meta,
            meta_stack: self.meta_stack@.map_values(|t: String| t@),
            meta: self.meta@,
        }
    }
}

/// What one token makes the translator do besides moving to its next state.
pub enum StepOut {
    /// Return this event.
    Emit(FlatStreamBitV),
    /// Consume the token silently and read on.
    Skip,
    /// Abort with this error.
    Fail(ErrorKindV),
}

/// The translator's next state and action after one token.
#[verifier::ext_equal]
pub struct StepRes {
    pub post: TransV,
    pub out: StepOut,
}

/// The state after the translator has been built and before any token.
pub open spec fn initial_state() -> TransV {
    TransV {
        word_id: None,
        sent_id: 0,
        in_meta: false,
        meta_stack: Seq::empty(),
        meta: Seq::empty(),
    }
}

/// The translator's transition relation: how state `s` consumes token `t`.
pub open spec fn step_spec(s: TransV, t: TokenV) -> StepRes {
    match t {
        TokenV::StartElement { name, attrs } => {
            if name == "meta"@ {
                StepRes { post: TransV { in_meta: true, ..s }, out: StepOut::Skip }
            } else if name == "s"@ {
                match lookup_attr(attrs, "id"@) {
                    None => StepRes {
                        post: s,
                        out: StepOut::Fail(ErrorKindV::ExpectedAttribute("id"@)),
                    },
                    Some(raw) => match dec_result(raw) {
                        Err(e) => StepRes { post: s, out: StepOut::Fail(ErrorKindV::ParseIntError(e)) },
                        Ok(id) => StepRes {
                            post: TransV { sent_id: id, ..s },
                            out: StepOut::Emit(
                                FlatStreamBitV::StreamBit(
                                    StreamBitV::SentDelim(
                                        SentDelim { id, delim_type: DelimType::Start },
                                    ),
                                ),
                            ),
                        },
                    },
                }
            } else if name == "time"@ {
                match lookup_attr(attrs, "id"@) {
                    None => StepRes {
                        post: s,
                        out: StepOut::Fail(ErrorKindV::ExpectedAttribute("id"@)),
                    },
                    Some(raw_id) => match time_id_result(raw_id) {
                        Err(e) => StepRes { post: s, out: StepOut::Fail(ErrorKindV::TimeIdParseErr(e)) },
                        Ok((kind, num_id)) => match lookup_attr(attrs, "value"@) {
                            None => StepRes {
                                post: s,
                                out: StepOut::Fail(ErrorKindV::ExpectedAttribute("value"@)),
                            },
                            Some(raw_value) => match duration_result(raw_value) {
                                Err(e) => StepRes {
                                    post: s,
                                    out: StepOut::Fail(ErrorKindV::DurationParseErr(e)),
                                },
                                Ok(offset) => StepRes {
                                    post: s,
                                    out: StepOut::Emit(
                                        FlatStreamBitV::StreamBit(
                                            StreamBitV::BlockDelim(
                                                BlockDelim { id: num_id, offset, delim_type: kind },
                                            ),
                                        ),
                                    ),
                                },
                            },
                        },
                    },
                }
            } else if name == "w"@ {
                match lookup_attr(attrs, "id"@) {
                    None => StepRes {
                        post: s,
                        out: StepOut::Fail(ErrorKindV::ExpectedAttribute("id"@)),
                    },
                    Some(raw) => match dec_result(split_seq(raw, '.').last()) {
                        Err(e) => StepRes { post: s, out: StepOut::Fail(ErrorKindV::ParseIntError(e)) },
                        Ok(id) => StepRes {
                            post: TransV { word_id: Some(id), ..s },
                            out: StepOut::Skip,
                        },
                    },
                }
            } else {
                if s.in_meta {
                    StepRes {
                        post: TransV { meta_stack: s.meta_stack.push(name), ..s },
                        out: StepOut::Skip,
                    }
                } else {
                    StepRes { post: s, out: StepOut::Skip }
                }
            }
        },
        TokenV::EndElement { name } => {
            if name == "s"@ {
                StepRes {
                    post: s,
                    out: StepOut::Emit(
                        FlatStreamBitV::StreamBit(
                            StreamBitV::SentDelim(
                                SentDelim { id: s.sent_id, delim_type: DelimType::End },
                            ),
                        ),
                    ),
                }
            } else if name == "w"@ {
                StepRes { post: TransV { word_id: None, ..s }, out: StepOut::Skip }
            } else if name == "meta"@ {
                StepRes {
                    post: TransV { meta: Seq::empty(), ..s },
                    out: StepOut::Emit(FlatStreamBitV::Meta(s.meta)),
                }
            } else {
                if s.in_meta && s.meta_stack.len() > 0 && s.meta_stack.last() == name {
                    StepRes {
                        post: TransV { meta_stack: s.meta_stack.drop_last(), ..s },
                        out: StepOut::Skip,
                    }
                } else {
                    StepRes { post: s, out: StepOut::Skip }
                }
            }
        },
        TokenV::Characters { text } => {
            if s.in_meta && s.meta_stack.len() >= 2 {
                StepRes {
                    post: TransV {
                        meta: meta_insert(s.meta, s.meta_stack[1], s.meta_stack[0], text),
                        ..s
                    },
                    out: StepOut::Skip,
                }
            } else if s.word_id is Some {
                StepRes {
                    post: s,
                    out: StepOut::Emit(
                        FlatStreamBitV::StreamBit(
                            StreamBitV::Word(WordV { id: s.word_id->0, word: text }),
                        ),
                    ),
                }
            } else {
                StepRes { post: s, out: StepOut::Skip }
            }
        },
        TokenV::EndDocument => StepRes { post: s, out: StepOut::Emit(FlatStreamBitV::EndStream) },
        TokenV::Other => StepRes { post: s, out: StepOut::Skip },
    }
}

impl Translator {
    /// A translator that has read nothing yet.
    pub fn new() -> (r: Translator)
        ensures
            r@ == initial_state(),
    {
        let r = Translator {
            word_id: None,
            sent_id: 0,
            in_meta: false,
            meta_stack: Vec::new(),
            meta: MetaMap::new(),
        };
        proof {
            assert(r@.meta_stack =~= Seq::<Seq<char>>::empty());
            assert(r@ =~= initial_state());
        }
        r
    }

    /// Consumes one token: moves to the next state and either emits one
    /// event, reads on silently, or fails, exactly as `step_spec` says.
    pub fn feed_token(&mut self, tok: Token) -> (r: Result<Option<FlatStreamBit>, ErrorKind>)
        ensures
            ({
                let sr = step_spec(old(self)@, tok@);
                &&& final (self)@ == sr.post
                &&& match r {
                    Ok(None) => sr.out == StepOut::Skip,
                    Ok(Some(b)) => sr.out == StepOut::Emit(b@),
                    Err(e) => sr.out == StepOut::Fail(e@),
                }
            }),
    {
        let ghost pre = self@;
        match tok {
            Token::StartElement { name, attrs } => {
                if str_eq(name.as_str(), "meta") {
                    self.in_meta = true;
                    proof {
                        assert(self@ =~= step_spec(pre, TokenV::StartElement {
                            name: name@,
                            attrs: attrs@.map_values(|a: crate::Attr| a@),
                        }).post);
                    }
                    Ok(None)
                } else if str_eq(name.as_str(), "s") {
                    let raw = match req_value(&attrs, "id") {
                        Ok(v) => v,
                        Err(e) => {
                            return Err(e);
                        },
                    };
                    let id = match parse_u64(raw.as_str()) {
                        Ok(v) => v,
                        Err(e) => {
                            return Err(ErrorKind::ParseIntError(e));
                        },
                    };
                    self.sent_id = id;
                    proof {
                        assert(self@ =~= step_spec(pre, TokenV::StartElement {
                            name: name@,
                            attrs: attrs@.map_values(|a: crate::Attr| a@),
                        }).post);
                    }
                    Ok(
                        Some(
                            FlatStreamBit::StreamBit(
                                StreamBit::SentDelim(
                                    SentDelim { id, delim_type: DelimType::Start },
                                ),
                            ),
                        ),
                    )
                } else if str_eq(name.as_str(), "time") {
                    let raw_id = match req_value(&attrs, "id") {
                        Ok(v) => v,
                        Err(e) => {
                            return Err(e);
                        },
                    };
                    let (kind, num_id) = match parse_time_id(raw_id.as_str()) {
                        Ok(v) => v,
                        Err(e) => {
                            return Err(ErrorKind::TimeIdParseErr(e));
                        },
                    };
                    let raw_value = match req_value(&attrs, "value") {
                        Ok(v) => v,
                        Err(e) => {
                            return Err(e);
                        },
                    };
                    let offset = match parse_duration(raw_value.as_str()) {
                        Ok(v) => v,
                        Err(e) => {
                            return Err(ErrorKind::DurationParseErr(e));
                        },
                    };
                    Ok(
                        Some(
                            FlatStreamBit::StreamBit(
                                StreamBit::BlockDelim(
                                    BlockDelim { id: num_id, offset, delim_type: kind },
                                ),
                            ),
                        ),
                    )
                } else if str_eq(name.as_str(), "w") {
                    let raw = match req_value(&attrs, "id") {
                        Ok(v) => v,
                        Err(e) => {
                            return Err(e);
                        },
                    };
                    let segments = split_str(raw.as_str(), '.');
                    proof {
                        crate::text::lemma_split_seq_len(raw@, '.');
                        assert(segments@.map_values(|t: String| t@).last() == segments@.last()@);
                    }
                    let last = &segments[segments.len() - 1];
                    let id = match parse_u64(last.as_str()) {
                        Ok(v) => v,
                        Err(e) => {
                            return Err(ErrorKind::ParseIntError(e));
                        },
                    };
                    self.word_id = Some(id);
                    proof {
                        assert(self@ =~= step_spec(pre, TokenV::StartElement {
                            name: name@,
                            attrs: attrs@.map_values(|a: crate::Attr| a@),
                        }).post);
                    }
                    Ok(None)
                } else {
                    if self.in_meta {
                        let ghost stack_pre = self@.meta_stack;
                        let ghost namev = name@;
                        self.meta_stack.push(name);
                        proof {
                            assert(self@.meta_stack =~= stack_pre.push(namev));
                            assert(self@ =~= step_spec(pre, TokenV::StartElement {
                                name: namev,
                                attrs: attrs@.map_values(|a: crate::Attr| a@),
                            }).post);
                        }
                    }
                    Ok(None)
                }
            },
            Token::EndElement { name } => {
                if str_eq(name.as_str(), "s") {
                    Ok(
                        Some(
                            FlatStreamBit::StreamBit(
                                StreamBit::SentDelim(
                                    SentDelim { id: self.sent_id, delim_type: DelimType::End },
                                ),
                            ),
                        ),
                    )
                } else if str_eq(name.as_str(), "w") {
                    self.word_id = None;
                    Ok(None)
                } else if str_eq(name.as_str(), "meta") {
                    let mut taken = MetaMap::new();
                    core::mem::swap(&mut taken, &mut self.meta);
                    Ok(Some(FlatStreamBit::Meta(taken)))
                } else {
                    let n = self.meta_stack.len();
                    if self.in_meta && n > 0 && str_eq(
                        self.meta_stack[n - 1].as_str(),
                        name.as_str(),
                    ) {
                        let ghost stack_pre = self@.meta_stack;
                        self.meta_stack.pop();
                        proof {
                            assert(self@.meta_stack =~= stack_pre.drop_last());
                            assert(self@ =~= step_spec(pre, TokenV::EndElement {
                                name: name@,
                            }).post);
                        }
                    }
                    Ok(None)
                }
            },
            Token::Characters { text } => {
                let n = self.meta_stack.len();
                if self.in_meta && n >= 2 {
                    let attr = self.meta_stack[1].clone();
                    let cat = self.meta_stack[0].clone();
                    self.meta.insert(attr, cat, text);
                    Ok(None)
                } else {
                    match self.word_id {
                        Some(word_id) => Ok(
                            Some(
                                FlatStreamBit::StreamBit(
                                    StreamBit::Word(Word { id: word_id, word: text }),
                                ),
                            ),
                        ),
                        None => Ok(None),
                    }
                }
            },
            Token::EndDocument => Ok(Some(FlatStreamBit::EndStream)),
            Token::Other => Ok(None),
        }
    }
}

} // verus!
