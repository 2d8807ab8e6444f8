use vstd::prelude::*;

verus! {

/// A decimal digit character.
pub open spec fn is_digit(c: char) -> bool {
    ('0' as u32) <= (c as u32) && (c as u32) <= ('9' as u32)
}

/// The numeric value of a digit character.
pub open spec fn digit_val(c: char) -> nat {
    ((c as u32) - ('0' as u32)) as nat
}

/// Every character of `s` is a decimal digit.
pub open spec fn all_digits(s: Seq<char>) -> bool {
    forall|i: int| 0 <= i < s.len() ==> is_digit(s[i])
}

/// The value of `s` read as a base-ten numeral.
pub open spec fn dec_val(s: Seq<char>) -> nat
    decreases s.len(),
{
    if s.len() == 0 {
        0
    } else {
        dec_val(s.drop_last()) * 10 + digit_val(s.last())
    }
}

/// Why a piece of text is not a non-negative integer.
#[derive(Debug, Clone, Copy, PartialEq, Eq, Structural)]
pub enum IntParseError {
    /// The text is empty.
    Empty,
    /// Some character is not a decimal digit.
    InvalidDigit,
    /// The numeral does not fit in 64 bits.
    Overflow,
}

/// What reading `s` as a non-negative 64-bit integer yields.
pub open spec fn dec_result(s: Seq<char>) -> Result<u64, IntParseError> {
    if s.len() == 0 {
        Err(IntParseError::Empty)
    } else if !all_digits(s) {
        Err(IntParseError::InvalidDigit)
    } else if dec_val(s) > u64::MAX {
        Err(IntParseError::Overflow)
    } else {
        Ok(dec_val(s) as u64)
    }
}

/// A longer prefix of a digit string never has a smaller value.
proof fn lemma_dec_val_take_mono(s: Seq<char>, i: int)
    requires
        0 <= i <= s.len(),
    ensures
        dec_val(s.take(i)) <= dec_val(s),
    decreases s.len() - i,
{
    if i == s.len() {
        assert(s.take(i) =~= s);
    } else {
        assert(s.take(i + 1).drop_last() =~= s.take(i));
        assert(s.take(i + 1).last() == s[i]);
        assert(dec_val(s.take(i)) * 10 >= dec_val(s.take(i))) by {
            assert(dec_val(s.take(i)) >= 0);
        }
        lemma_dec_val_take_mono(s, i + 1);
    }
}

/// Reads `s` as a non-negative decimal integer.
pub fn parse_u64(s: &str) -> (r: Result<u64, IntParseError>)
    ensures
        r == dec_result(s@),
{
    let n = s.unicode_len();
    if n == 0 {
        return Err(IntParseError::Empty);
    }
    let mut i: usize = 0;
    while i < n
        invariant
            i <= n,
            n == s@.len(),
            forall|j: int| 0 <= j < i ==> is_digit(s@[j]),
        decreases n - i,
    {
        let c = s.get_char(i);
        let cv = c as u32;
        if cv < '0' as u32 || cv > '9' as u32 {
            return Err(IntParseError::InvalidDigit);
        }
        i += 1;
    }
    let mut val: u64 = 0;
    let mut i: usize = 0;
    while i < n
        invariant
            i <= n,
            n == s@.len(),
            all_digits(s@),
            val == dec_val(s@.take(i as int)),
        decreases n - i,
    {
        let c = s.get_char(i);
        let d = (c as u32 - '0' as u32) as u64;
        proof {
            assert(is_digit(s@[i as int]));
            assert(d == digit_val(s@[i as int]));
            assert(s@.take(i + 1).drop_last() =~= s@.take(i as int));
            assert(s@.take(i + 1).last() == s@[i as int]);
        }
        if val > (u64::MAX - d) / 10 {
            proof {
                vstd::arithmetic::div_mod::lemma_fundamental_div_mod((u64::MAX - d) as int, 10);
                assert(dec_val(s@.take(i + 1)) > u64::MAX);
                lemma_dec_val_take_mono(s@, i + 1);
            }
            return Err(IntParseError::Overflow);
        }
        proof {
            vstd::arithmetic::div_mod::lemma_fundamental_div_mod((u64::MAX - d) as int, 10);
        }
        val = val * 10 + d;
        i += 1;
    }
    proof {
        assert(s@.take(n as int) =~= s@);
    }
    Ok(val)
}

/// The fields of `s` between occurrences of `sep`; always at least one field.
pub open spec fn split_seq(s: Seq<char>, sep: char) -> Seq<Seq<char>>
    decreases s.len(),
{
    if s.len() == 0 {
        seq![Seq::<char>::empty()]
    } else if s[0] == sep {
        seq![Seq::<char>::empty()] + split_seq(s.skip(1), sep)
    } else {
        let rest = split_seq(s.skip(1), sep);
        seq![seq![s[0]] + rest[0]] + rest.skip(1)
    }
}

pub proof fn lemma_split_seq_len(s: Seq<char>, sep: char)
    ensures
        split_seq(s, sep).len() >= 1,
    decreases s.len(),
{
    if s.len() != 0 {
        lemma_split_seq_len(s.skip(1), sep);
    }
}

/// A separator-free text splits into just itself.
proof fn lemma_split_no_sep(a: Seq<char>, sep: char)
    requires
        forall|i: int| 0 <= i < a.len() ==> a[i] != sep,
    ensures
        split_seq(a, sep) == seq![a],
    decreases a.len(),
{
    if a.len() == 0 {
        assert(split_seq(a, sep) =~~= seq![a]);
    } else {
        lemma_split_no_sep(a.skip(1), sep);
        lemma_split_seq_len(a.skip(1), sep);
        assert(seq![a[0]] + a.skip(1) =~= a);
        assert(split_seq(a, sep) =~~= seq![a]);
    }
}

/// Splitting at the first separator yields the prefix and the split of the rest.
proof fn lemma_split_at_sep(a: Seq<char>, b: Seq<char>, sep: char)
    requires
        forall|i: int| 0 <= i < a.len() ==> a[i] != sep,
    ensures
        split_seq(a + seq![sep] + b, sep) == seq![a] + split_seq(b, sep),
    decreases a.len(),
{
    let u = a + seq![sep] + b;
    if a.len() == 0 {
        assert(u =~= seq![sep] + b);
        assert(u.skip(1) =~= b);
        assert(split_seq(u, sep) =~~= seq![a] + split_seq(b, sep));
    } else {
        assert(u[0] == a[0]);
        assert(u.skip(1) =~= a.skip(1) + seq![sep] + b);
        lemma_split_at_sep(a.skip(1), b, sep);
        let r = split_seq(u.skip(1), sep);
        lemma_split_seq_len(b, sep);
        assert(r[0] == a.skip(1));
        assert(seq![u[0]] + r[0] =~= a);
        assert(r.skip(1) =~= split_seq(b, sep));
        assert(split_seq(u, sep) =~~= seq![a] + split_seq(b, sep));
    }
}

/// Splits `s` into the fields between occurrences of `sep`.
pub fn split_str(s: &str, sep: char) -> (r: Vec<String>)
    ensures
        r@.map_values(|t: String| t@) == split_seq(s@, sep),
{
    let n = s.unicode_len();
    let mut res: Vec<String> = Vec::new();
    let mut start: usize = 0;
    let mut i: usize = 0;
    proof {
        assert(s@.skip(0) =~= s@);
    }
    while i < n
        invariant
            start <= i <= n,
            n == s@.len(),
            forall|j: int| start <= j < i ==> s@[j] != sep,
            res@.map_values(|t: String| t@) + split_seq(s@.skip(start as int), sep) == split_seq(
                s@,
                sep,
            ),
        decreases n - i,
    {
        let c = s.get_char(i);
        if c == sep {
            let field = s.substring_char(start, i).to_owned();
            proof {
                let pre = s@.subrange(start as int, i as int);
                assert(s@.skip(start as int) =~= pre + seq![sep] + s@.skip(i + 1));
                lemma_split_at_sep(pre, s@.skip(i + 1), sep);
                assert((res@ + seq![field]).map_values(|t: String| t@) =~= res@.map_values(
                    |t: String| t@,
                ) + seq![field@]);
                assert((res@.map_values(|t: String| t@) + seq![field@]) + split_seq(
                    s@.skip(i + 1),
                    sep,
                ) =~= res@.map_values(|t: String| t@) + (seq![field@] + split_seq(
                    s@.skip(i + 1),
                    sep,
                )));
            }
            res.push(field);
            start = i + 1;
        }
        i += 1;
    }
    let field = s.substring_char(start, n).to_owned();
    proof {
        let tail = s@.skip(start as int);
        assert(field@ =~= tail);
        lemma_split_no_sep(tail, sep);
        assert((res@ + seq![field]).map_values(|t: String| t@) =~= res@.map_values(|t: String| t@)
            + seq![field@]);
        assert(res@.map_values(|t: String| t@) + seq![field@] =~= res@.map_values(|t: String| t@)
            + split_seq(tail, sep));
    }
    res.push(field);
    res
}

/// Whether two pieces of text hold the same characters.
pub fn str_eq(a: &str, b: &str) -> (r: bool)
    ensures
        r == (a@ == b@),
{
    let na = a.unicode_len();
    let nb = b.unicode_len();
    if na != nb {
        return false;
    }
    let mut i: usize = 0;
    while i < na
        invariant
            i <= na,
            na == a@.len(),
            na == b@.len(),
            forall|j: int| 0 <= j < i ==> a@[j] == b@[j],
        decreases na - i,
    {
        if a.get_char(i) != b.get_char(i) {
            return false;
        }
        i += 1;
    }
    proof {
        assert(a@ =~= b@);
    }
    true
}

/// Lexicographic order on text, by character code point.
pub open spec fn seq_char_lt(a: Seq<char>, b: Seq<char>) -> bool
    decreases a.len() + b.len(),
{
    if b.len() == 0 {
        false
    } else if a.len() == 0 {
        true
    } else if (a[0] as u32) < (b[0] as u32) {
        true
    } else if (b[0] as u32) < (a[0] as u32) {
        false
    } else {
        seq_char_lt(a.skip(1), b.skip(1))
    }
}

/// Characters with the same code point are the same character.
proof fn lemma_char_inj(x: char, y: char)
    requires
        (x as u32) == (y as u32),
    ensures
        x == y,
{
}

/// Two texts are lexicographically ordered one way or the other, or equal.
pub proof fn lemma_seq_char_lt_connected(a: Seq<char>, b: Seq<char>)
    ensures
        seq_char_lt(a, b) || seq_char_lt(b, a) || a == b,
    decreases a.len() + b.len(),
{
    if b.len() == 0 {
        if a.len() == 0 {
            assert(a =~= b);
        } else {
            assert(seq_char_lt(b, a));
        }
    } else if a.len() == 0 {
        assert(seq_char_lt(a, b));
    } else if (a[0] as u32) < (b[0] as u32) {
        assert(seq_char_lt(a, b));
    } else if (b[0] as u32) < (a[0] as u32) {
        assert(seq_char_lt(b, a));
    } else {
        lemma_char_inj(a[0], b[0]);
        lemma_seq_char_lt_connected(a.skip(1), b.skip(1));
        if seq_char_lt(a.skip(1), b.skip(1)) {
            assert(seq_char_lt(a, b));
        } else if seq_char_lt(b.skip(1), a.skip(1)) {
            assert(seq_char_lt(b, a));
        } else {
            assert(a.skip(1) == b.skip(1));
            assert(a =~= seq![a[0]] + a.skip(1));
            assert(b =~= seq![b[0]] + b.skip(1));
            assert(a == b);
        }
    }
}

/// Lexicographic order on text is transitive.
pub proof fn lemma_seq_char_lt_trans(a: Seq<char>, b: Seq<char>, c: Seq<char>)
    requires
        seq_char_lt(a, b),
        seq_char_lt(b, c),
    ensures
        seq_char_lt(a, c),
    decreases a.len() + b.len() + c.len(),
{
    if a.len() == 0 || b.len() == 0 || c.len() == 0 {
    } else if (a[0] as u32) == (b[0] as u32) && (b[0] as u32) == (c[0] as u32) {
        lemma_seq_char_lt_trans(a.skip(1), b.skip(1), c.skip(1));
    }
}

/// No text comes before itself.
pub proof fn lemma_seq_char_lt_irrefl(a: Seq<char>)
    ensures
        !seq_char_lt(a, a),
    decreases a.len(),
{
    if a.len() > 0 {
        lemma_seq_char_lt_irrefl(a.skip(1));
    }
}

/// Whether `a` comes strictly before `b` in lexicographic order.
pub fn str_lt(a: &str, b: &str) -> (r: bool)
    ensures
        r == seq_char_lt(a@, b@),
{
    let na = a.unicode_len();
    let nb = b.unicode_len();
    let mut i: usize = 0;
    proof {
        assert(a@.skip(0) =~= a@);
        assert(b@.skip(0) =~= b@);
    }
    while i < na && i < nb
        invariant
            i <= na,
            i <= nb,
            na == a@.len(),
            nb == b@.len(),
            seq_char_lt(a@, b@) == seq_char_lt(a@.skip(i as int), b@.skip(i as int)),
        decreases na - i,
    {
        let ca = a.get_char(i) as u32;
        let cb = b.get_char(i) as u32;
        proof {
            assert(a@.skip(i as int)[0] == a@[i as int]);
            assert(b@.skip(i as int)[0] == b@[i as int]);
            assert(a@.skip(i as int).skip(1) =~= a@.skip(i + 1));
            assert(b@.skip(i as int).skip(1) =~= b@.skip(i + 1));
        }
        if ca < cb {
            return true;
        }
        if cb < ca {
            return false;
        }
        i += 1;
    }
    proof {
        assert(a@.skip(i as int).len() == na - i);
        assert(b@.skip(i as int).len() == nb - i);
    }
    i < nb
}

/// `suffix` closes `s`.
pub open spec fn has_suffix(s: Seq<char>, suffix: Seq<char>) -> bool {
    suffix.len() <= s.len() && s.skip(s.len() - suffix.len()) == suffix
}

/// Whether the text `s` ends with `suffix`.
pub fn ends_with(s: &str, suffix: &str) -> (r: bool)
    ensures
        r == has_suffix(s@, suffix@),
{
    let n = s.unicode_len();
    let m = suffix.unicode_len();
    if m > n {
        return false;
    }
    let tail = s.substring_char(n - m, n);
    let r = str_eq(tail, suffix);
    proof {
        assert(tail@ =~= s@.skip(s@.len() - suffix@.len()));
    }
    r
}

} // verus!
