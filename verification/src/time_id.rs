use vstd::prelude::*;

use crate::text::{dec_result, parse_u64, IntParseError};
use crate::DelimType;

verus! {

/// Why a piece of text is not a `T<digits><S|E>` time identifier.
#[derive(Debug, Clone, Copy, PartialEq, Eq, Structural)]
pub enum ErrorKind {
    /// Fewer than three characters.
    NotEnoughCharacters,
    /// The first character is not `T`.
    ExpectedBeginWithT,
    /// The last character is neither `S` nor `E`.
    ExpectedEndWithSOrE,
    /// The digits between the markers are not a non-negative 64-bit integer.
    ParseIntError(IntParseError),
}

/// What reading `s` as a time identifier yields: the boundary kind named by
/// the trailing marker and the numeric id between the markers.
pub open spec fn time_id_result(s: Seq<char>) -> Result<(DelimType, u64), ErrorKind> {
    if s.len() < 3 {
        Err(ErrorKind::NotEnoughCharacters)
    } else if s[0] != 'T' {
        Err(ErrorKind::ExpectedBeginWithT)
    } else if s.last() != 'S' && s.last() != 'E' {
        Err(ErrorKind::ExpectedEndWithSOrE)
    } else {
        let kind = if s.last() == 'S' {
            DelimType::Start
        } else {
            DelimType::End
        };
        match dec_result(s.subrange(1, s.len() - 1)) {
            Ok(id) => Ok((kind, id)),
            Err(e) => Err(ErrorKind::ParseIntError(e)),
        }
    }
}

/// Reads a time identifier such as `T12S`: a leading `T`, a numeric id, and a
/// trailing `S` (start) or `E` (end).
pub fn parse_time_id(time_id: &str) -> (r: Result<(DelimType, u64), ErrorKind>)
    ensures
        r == time_id_result(time_id@),
{
    let n = time_id.unicode_len();
    if n < 3 {
        return Err(ErrorKind::NotEnoughCharacters);
    }
    if time_id.get_char(0) != 'T' {
        return Err(ErrorKind::ExpectedBeginWithT);
    }
    let marker = time_id.get_char(n - 1);
    let kind = if marker == 'S' {
        DelimType::Start
    } else if marker == 'E' {
        DelimType::End
    } else {
        return Err(ErrorKind::ExpectedEndWithSOrE);
    };
    let digits = time_id.substring_char(1, n - 1);
    match parse_u64(digits) {
        Ok(id) => Ok((kind, id)),
        Err(e) => Err(ErrorKind::ParseIntError(e)),
    }
}

} // verus!
