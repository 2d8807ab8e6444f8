use vstd::prelude::*;

use crate::text::{dec_result, parse_u64, split_seq, split_str, IntParseError};

verus! {

/// An elapsed time: whole seconds and a sub-second remainder in nanoseconds.
#[derive(Debug, Clone, Copy, PartialEq, Eq, Structural)]
pub struct Duration {
    pub secs: u64,
    pub nanos: u32,
}

/// Why a piece of text is not a `HH:MM:SS,mmm` duration.
#[derive(Debug, Clone, Copy, PartialEq, Eq, Structural)]
pub enum ErrorKind {
    /// Splitting on `:` did not give exactly three fields.
    WrongNumberOfColons,
    /// Splitting the seconds field on `,` did not give exactly two subfields.
    WrongNumberOfCommas,
    /// A numeric field is not a non-negative 64-bit integer.
    ParseIntError(IntParseError),
}

/// The total of the four duration fields, counted in nanoseconds.
pub open spec fn total_nanos(h: u64, m: u64, s: u64, millis: u64) -> int {
    (h * 3600 + m * 60 + s) * 1_000_000_000 + millis * 1_000_000
}

/// What reading `s` as a `HH:MM:SS,mmm` duration yields.
pub open spec fn duration_result(s: Seq<char>) -> Result<Duration, ErrorKind> {
    let bits = split_seq(s, ':');
    if bits.len() != 3 {
        Err(ErrorKind::WrongNumberOfColons)
    } else {
        let sec_bits = split_seq(bits[2], ',');
        if sec_bits.len() != 2 {
            Err(ErrorKind::WrongNumberOfCommas)
        } else {
            match dec_result(bits[0]) {
                Err(e) => Err(ErrorKind::ParseIntError(e)),
                Ok(h) => match dec_result(bits[1]) {
                    Err(e) => Err(ErrorKind::ParseIntError(e)),
                    Ok(m) => match dec_result(sec_bits[0]) {
                        Err(e) => Err(ErrorKind::ParseIntError(e)),
                        Ok(sec) => match dec_result(sec_bits[1]) {
                            Err(e) => Err(ErrorKind::ParseIntError(e)),
                            Ok(millis) => {
                                if h * 3600 + m * 60 + sec + millis / 1000 > u64::MAX {
                                    Err(ErrorKind::ParseIntError(IntParseError::Overflow))
                                } else {
                                    Ok(Duration {
                                        secs: (h * 3600 + m * 60 + sec + millis / 1000) as u64,
                                        nanos: ((millis % 1000) * 1_000_000) as u32,
                                    })
                                }
                            },
                        },
                    },
                },
            }
        }
    }
}

/// A duration returned by the parser counts exactly the nanoseconds of its fields.
pub proof fn lemma_duration_exact(h: u64, m: u64, s: u64, millis: u64, d: Duration)
    requires
        h * 3600 + m * 60 + s + millis / 1000 <= u64::MAX,
        d.secs == h * 3600 + m * 60 + s + millis / 1000,
        d.nanos == (millis % 1000) * 1_000_000,
    ensures
        d.secs * 1_000_000_000 + d.nanos == total_nanos(h, m, s, millis),
        d.nanos < 1_000_000_000,
{
    vstd::arithmetic::div_mod::lemma_fundamental_div_mod(millis as int, 1000);
    assert(millis == 1000 * (millis as int / 1000) + millis as int % 1000);
    let q = millis as int / 1000;
    let r = millis as int % 1000;
    assert(millis * 1_000_000 == (1000 * q + r) * 1_000_000);
    assert((1000 * q + r) * 1_000_000 == q * 1_000_000_000 + r * 1_000_000)
        by (nonlinear_arith);
}

/// Reads a subtitle timestamp such as `00:01:31,950`: hours, minutes and
/// seconds separated by `:`, then a millisecond count after a `,`.
pub fn parse_duration(in_dur: &str) -> (r: Result<Duration, ErrorKind>)
    ensures
        r == duration_result(in_dur@),
{
    let bits = split_str(in_dur, ':');
    proof {
        assert(bits@.map_values(|t: String| t@).len() == bits@.len());
    }
    if bits.len() != 3 {
        return Err(ErrorKind::WrongNumberOfColons);
    }
    proof {
        assert(bits@.map_values(|t: String| t@)[2] == bits@[2]@);
    }
    let sec_bits = split_str(bits[2].as_str(), ',');
    proof {
        assert(sec_bits@.map_values(|t: String| t@).len() == sec_bits@.len());
    }
    if sec_bits.len() != 2 {
        return Err(ErrorKind::WrongNumberOfCommas);
    }
    proof {
        assert(bits@.map_values(|t: String| t@)[0] == bits@[0]@);
        assert(bits@.map_values(|t: String| t@)[1] == bits@[1]@);
        assert(sec_bits@.map_values(|t: String| t@)[0] == sec_bits@[0]@);
        assert(sec_bits@.map_values(|t: String| t@)[1] == sec_bits@[1]@);
    }
    let h = match parse_u64(bits[0].as_str()) {
        Ok(v) => v,
        Err(e) => {
            return Err(ErrorKind::ParseIntError(e));
        },
    };
    let m = match parse_u64(bits[1].as_str()) {
        Ok(v) => v,
        Err(e) => {
            return Err(ErrorKind::ParseIntError(e));
        },
    };
    let s = match parse_u64(sec_bits[0].as_str()) {
        Ok(v) => v,
        Err(e) => {
            return Err(ErrorKind::ParseIntError(e));
        },
    };
    let millis = match parse_u64(sec_bits[1].as_str()) {
        Ok(v) => v,
        Err(e) => {
            return Err(ErrorKind::ParseIntError(e));
        },
    };
    let total: u128 = h as u128 * 3600 + m as u128 * 60 + s as u128 + millis as u128 / 1000;
    if total > u64::MAX as u128 {
        return Err(ErrorKind::ParseIntError(IntParseError::Overflow));
    }
    Ok(Duration { secs: total as u64, nanos: ((millis % 1000) * 1_000_000) as u32 })
}

} // verus!
