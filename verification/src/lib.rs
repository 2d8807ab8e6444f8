use vstd::prelude::*;

pub mod duration;
pub mod laws;
pub mod meta;
pub mod stream;
pub mod text;
pub mod time_id;
pub mod translator;
pub mod walker;

use crate::meta::{MetaEntryV, MetaMap};
use crate::text::IntParseError;

verus! {

/// Whether a sentence or block delimiter marks the start or the end of its span.
#[derive(Debug, Clone, Copy, PartialEq, Eq, Structural)]
pub enum DelimType {
    Start,
    End,
}

/// A word token: its corpus-assigned id and its surface form.
#[derive(Debug, Clone)]
pub struct Word {
    pub id: u64,
    pub word: String,
}

/// The mathematical shape of a word token.
pub struct WordV {
    pub id: u64,
    pub word: Seq<char>,
}

impl View for Word {
    type V = WordV;

    open spec fn view(&self) -> WordV {
        WordV { id: self.id, word: self.word@ }
    }
}

/// A sentence delimiter: the enclosing sentence's id, at its start or end.
#[derive(Debug, Clone, Copy, PartialEq, Eq, Structural)]
pub struct SentDelim {
    pub id: u64,
    pub delim_type: DelimType,
}

/// A timing-block delimiter: its numeric id, its offset from the start of the
/// document, and whether it opens or closes the block.
#[derive(Debug, Clone, Copy, PartialEq, Eq, Structural)]
pub struct BlockDelim {
    pub id: u64,
    pub offset: crate::duration::Duration,
    pub delim_type: DelimType,
}

/// An event from the main part of the stream.
#[derive(Debug, Clone)]
pub enum StreamBit {
    SentDelim(SentDelim),
    BlockDelim(BlockDelim),
    Word(Word),
}

/// The mathematical shape of a main-stream event.
pub enum StreamBitV {
    SentDelim(SentDelim),
    BlockDelim(BlockDelim),
    Word(WordV),
}

impl View for StreamBit {
    type V = StreamBitV;

    open spec fn view(&self) -> StreamBitV {
        match self {
            StreamBit::SentDelim(d) => StreamBitV::SentDelim(*d),
            StreamBit::BlockDelim(d) => StreamBitV::BlockDelim(*d),
            StreamBit::Word(w) => StreamBitV::Word(w@),
        }
    }
}

/// An event from the whole document, metadata and end marker included.
#[derive(Debug, Clone)]
pub enum FlatStreamBit {
    Meta(MetaMap),
    StreamBit(StreamBit),
    EndStream,
}

/// The mathematical shape of a document event.
pub enum FlatStreamBitV {
    Meta(Seq<MetaEntryV>),
    StreamBit(StreamBitV),
    EndStream,
}

impl View for FlatStreamBit {
    type V = FlatStreamBitV;

    open spec fn view(&self) -> FlatStreamBitV {
        match self {
            FlatStreamBit::Meta(m) => FlatStreamBitV::Meta(m@),
            FlatStreamBit::StreamBit(b) => FlatStreamBitV::StreamBit(b@),
            FlatStreamBit::EndStream => FlatStreamBitV::EndStream,
        }
    }
}

/// One attribute of a markup tag: its name and its raw value.
#[derive(Debug, Clone)]
pub struct Attr {
    pub name: String,
    pub value: String,
}

/// The mathematical shape of a tag attribute.
pub struct AttrV {
    pub name: Seq<char>,
    pub value: Seq<char>,
}

impl View for Attr {
    type V = AttrV;

    open spec fn view(&self) -> AttrV {
        AttrV { name: self.name@, value: self.value@ }
    }
}

/// One event of the underlying markup-token stream, reduced to what the
/// translator reads: tag names, attributes, character data and the end marker.
#[derive(Debug, Clone)]
pub enum Token {
    StartElement { name: String, attrs: Vec<Attr> },
    EndElement { name: String },
    Characters { text: String },
    EndDocument,
    Other,
}

/// The mathematical shape of a markup token.
pub enum TokenV {
    StartElement { name: Seq<char>, attrs: Seq<AttrV> },
    EndElement { name: Seq<char> },
    Characters { text: Seq<char> },
    EndDocument,
    Other,
}

impl View for Token {
    type V = TokenV;

    open spec fn view(&self) -> TokenV {
        match self {
            Token::StartElement { name, attrs } => TokenV::StartElement {
                name: name@,
                attrs: attrs@.map_values(|a: Attr| a@),
            },
            Token::EndElement { name } => TokenV::EndElement { name: name@ },
            Token::Characters { text } => TokenV::Characters { text: text@ },
            Token::EndDocument => TokenV::EndDocument,
            Token::Other => TokenV::Other,
        }
    }
}

/// Why the translator failed on a document.
#[derive(Debug)]
pub enum ErrorKind {
    /// A `value` attribute is not a well-formed duration.
    DurationParseErr(crate::duration::ErrorKind),
    /// A time `id` attribute is not a well-formed time identifier.
    TimeIdParseErr(crate::time_id::ErrorKind),
    /// A numeric attribute is not a non-negative 64-bit integer.
    ParseIntError(IntParseError),
    /// The underlying markup-token source failed.
    XmlParseError(xml::reader::Error),
    /// A required attribute of the named kind was absent from its tag.
    ExpectedAttribute(String),
}

/// The mathematical shape of a translator error; the token source's own
/// failure carries no further structure here.
pub enum ErrorKindV {
    DurationParseErr(crate::duration::ErrorKind),
    TimeIdParseErr(crate::time_id::ErrorKind),
    ParseIntError(IntParseError),
    XmlParseError,
    ExpectedAttribute(Seq<char>),
}

impl View for ErrorKind {
    type V = ErrorKindV;

    open spec fn view(&self) -> ErrorKindV {
        match self {
            ErrorKind::DurationParseErr(e) => ErrorKindV::DurationParseErr(*e),
            ErrorKind::TimeIdParseErr(e) => ErrorKindV::TimeIdParseErr(*e),
            ErrorKind::ParseIntError(e) => ErrorKindV::ParseIntError(*e),
            ErrorKind::XmlParseError(_) => ErrorKindV::XmlParseError,
            ErrorKind::ExpectedAttribute(name) => ErrorKindV::ExpectedAttribute(name@),
        }
    }
}

/// The value of the first attribute called `name`, if any.
pub open spec fn lookup_attr(attrs: Seq<AttrV>, name: Seq<char>) -> Option<Seq<char>>
    decreases attrs.len(),
{
    if attrs.len() == 0 {
        None
    } else if attrs[0].name == name {
        Some(attrs[0].value)
    } else {
        lookup_attr(attrs.skip(1), name)
    }
}

/// Looks up the first attribute called `name` in one tag's attribute list.
pub fn get_value<'a>(attrs: &'a Vec<Attr>, name: &str) -> (r: Option<&'a String>)
    ensures
        match r {
            Some(v) => lookup_attr(attrs@.map_values(|a: Attr| a@), name@) == Some(v@),
            None => lookup_attr(attrs@.map_values(|a: Attr| a@), name@) is None,
        },
{
    let ghost full = attrs@.map_values(|a: Attr| a@);
    let n = attrs.len();
    let mut i: usize = 0;
    proof {
        assert(full.skip(0) =~= full);
    }
    while i < n
        invariant
            i <= n,
            n == attrs@.len(),
            full == attrs@.map_values(|a: Attr| a@),
            lookup_attr(full, name@) == lookup_attr(full.skip(i as int), name@),
        decreases n - i,
    {
        proof {
            assert(full.skip(i as int)[0] == full[i as int]);
            assert(full[i as int] == attrs@[i as int]@);
            assert(full.skip(i as int).skip(1) =~= full.skip(i + 1));
        }
        if crate::text::str_eq(attrs[i].name.as_str(), name) {
            return Some(&attrs[i].value);
        }
        i += 1;
    }
    proof {
        assert(full.skip(n as int) =~= Seq::<AttrV>::empty());
    }
    None
}

/// Looks up a required attribute, failing with `ExpectedAttribute` when the
/// tag does not carry it.
pub fn req_value<'a>(attrs: &'a Vec<Attr>, name: &str) -> (r: Result<&'a String, ErrorKind>)
    ensures
        match r {
            Ok(v) => lookup_attr(attrs@.map_values(|a: Attr| a@), name@) == Some(v@),
            Err(e) => lookup_attr(attrs@.map_values(|a: Attr| a@), name@) is None && e@
                == ErrorKindV::ExpectedAttribute(name@),
        },
{
    match get_value(attrs, name) {
        Some(v) => Ok(v),
        None => Err(ErrorKind::ExpectedAttribute(name.to_owned())),
    }
}

} // verus!
