use vstd::prelude::*;

use xml::reader::XmlEvent;

use crate::translator::{initial_state, step_spec, StepOut, Translator, TransV};
use crate::{ErrorKind, ErrorKindV, FlatStreamBit, Token, TokenV};

verus! {

#[verifier::external_type_specification]
#[verifier::external_body]
pub struct ExXmlError(xml::reader::Error);

/// A live markup-token source: a pull parser of the `xml` crate over some
/// byte stream. Verus sees nothing of its insides; every read goes through
/// `next_token`.
#[verifier::external_body]
pub struct TokenSource {
    pub er: xml::reader::EventReader<Box<dyn std::io::Read>>,
}

/// Relies on xml::reader::EventReader::new: builds a pull parser that reads
/// one document held in memory.
#[verifier::external_body]
pub fn source_from_bytes(data: Vec<u8>) -> (r: TokenSource) {
    TokenSource { er: xml::reader::EventReader::new(Box::new(std::io::Cursor::new(data))) }
}

/// Relies on xml::reader::EventReader::next: yields the document's next
/// markup event or the source's failure. Element names, attributes and
/// character data are carried over one for one; event kinds the translator
/// ignores become `Token::Other`.
#[verifier::external_body]
fn next_token(source: &mut TokenSource) -> (r: Result<Token, xml::reader::Error>) {
    match source.er.next() {
        Err(e) => Err(e),
        Ok(XmlEvent::StartElement { name, attributes, .. }) => Ok(Token::StartElement {
            name: name.local_name,
            attrs: attributes.into_iter().map(|a| crate::Attr { name: a.name.local_name, value: a.value }).collect(),
        }),
        Ok(XmlEvent::EndElement { name }) => Ok(Token::EndElement { name: name.local_name }),
        Ok(XmlEvent::Characters(text)) => Ok(Token::Characters { text }),
        Ok(XmlEvent::EndDocument) => Ok(Token::EndDocument),
        Ok(_) => Ok(Token::Other),
    }
}

/// `r` together with the move from `pre` to `post` is what consuming token
/// `t` does: the states and the returned event or error follow `step_spec`.
pub open spec fn is_transition(
    pre: TransV,
    t: TokenV,
    post: TransV,
    r: Result<Option<FlatStreamBit>, ErrorKind>,
) -> bool {
    let sr = step_spec(pre, t);
    &&& post == sr.post
    &&& match r {
        Ok(None) => sr.out == StepOut::Skip,
        Ok(Some(b)) => sr.out == StepOut::Emit(b@),
        Err(e) => sr.out == StepOut::Fail(e@),
    }
}

/// `r` reports that the token source itself failed before any token reached
/// the translator.
pub open spec fn is_source_failure(r: Result<Option<FlatStreamBit>, ErrorKind>) -> bool {
    match r {
        Err(e) => e@ == ErrorKindV::XmlParseError,
        Ok(_) => false,
    }
}

/// The event translator over a live markup-token source: the token reader and
/// the translator state it feeds.
pub struct OpusStream {
    pub source: TokenSource,
    pub state: Translator,
}

impl OpusStream {
    /// A translator over the given token source, in the initial state.
    pub fn new(source: TokenSource) -> (r: OpusStream)
        ensures
            r.state@ == initial_state(),
    {
        OpusStream { source, state: Translator::new() }
    }

    /// A translator over one document held in memory, in the initial state.
    pub fn from_bytes(data: Vec<u8>) -> (r: OpusStream)
        ensures
            r.state@ == initial_state(),
    {
        OpusStream { source: source_from_bytes(data), state: Translator::new() }
    }

    /// Consumes the source's next token and feeds it to the translator.
    /// Whatever token the source hands back, the outcome is one legal
    /// transition of the state machine; when the source itself fails, its
    /// error is returned and the state is untouched.
    pub fn step(&mut self) -> (r: Result<Option<FlatStreamBit>, ErrorKind>)
        ensures
            (final (self).state@ == old(self).state@ && is_source_failure(r)) || exists|t: TokenV|
                is_transition(old(self).state@, t, final (self).state@, r),
    {
        let tok = match next_token(&mut self.source) {
            Ok(t) => t,
            Err(e) => {
                return Err(ErrorKind::XmlParseError(e));
            },
        };
        let ghost tv = tok@;
        let ghost pre = self.state@;
        let r = self.state.feed_token(tok);
        proof {
            assert(is_transition(pre, tv, self.state@, r));
        }
        r
    }
}

} // verus!
