//! Small text utilities shared by the engine: decimal formatting with
//! zero-padding, decimal parsing with the driver's "default to zero" policy,
//! and character-level string building.

use vstd::prelude::*;

verus! {

/// The decimal digit character for `d` in `0 ..= 9`.
pub open spec fn digit_char(d: int) -> char {
    ((0x30 + d) as u8) as char
}

/// The decimal rendering of `n`, left-padded with zeros to at least `w`
/// characters.  With `w <= 1` this is the plain decimal rendering.
pub open spec fn dec_pad(n: nat, w: nat) -> Seq<char>
    decreases n, w,
{
    if n >= 10 || w > 1 {
        dec_pad(n / 10, if w > 0 { (w - 1) as nat } else { 0 }) + seq![digit_char((n % 10) as int)]
    } else {
        seq![digit_char(n as int)]
    }
}

/// The plain decimal rendering of `n`, without padding.
pub open spec fn dec_str(n: nat) -> Seq<char> {
    dec_pad(n, 1)
}

/// Relies on `String::push`: appends exactly the one character.
#[verifier::external_body]
pub(crate) fn push_char(s: &mut String, c: char)
    ensures
        final(s)@ == old(s)@ + seq![c],
{
    s.push(c)
}

/// Appends the decimal rendering of `n`, zero-padded to at least `w`
/// characters, to `s`.
pub fn push_dec_pad(s: &mut String, n: u64, w: usize)
    ensures
        final(s)@ == old(s)@ + dec_pad(n as nat, w as nat),
    decreases n, w,
{
    if n >= 10 || w > 1 {
        push_dec_pad(s, n / 10, if w > 0 { w - 1 } else { 0 });
    }
    push_char(s, (0x30 + (n % 10) as u8) as char);
    proof {
        assert(final(s)@ =~= old(s)@ + dec_pad(n as nat, w as nat));
    }
}

/// Appends the plain decimal rendering of `n` to `s`.
pub fn push_dec(s: &mut String, n: u64)
    ensures
        final(s)@ == old(s)@ + dec_str(n as nat),
{
    push_dec_pad(s, n, 1);
}

/// The decimal rendering of `n` as a fresh string.
pub fn u64_to_dec(n: u64) -> (r: String)
    ensures
        r@ == dec_str(n as nat),
{
    let mut s = String::new();
    push_dec(&mut s, n);
    proof {
        assert(s@ =~= dec_str(n as nat));
    }
    s
}

/// Whether `c` is an ASCII decimal digit.
pub open spec fn is_digit(c: char) -> bool {
    0x30 <= c as u32 <= 0x39
}

/// The numeric value of the digit character `c`.
pub open spec fn digit_val(c: char) -> int {
    c as u32 - 0x30
}

/// The integer value of a digit string, most significant digit first.
pub open spec fn dec_value(s: Seq<char>) -> int
    decreases s.len(),
{
    if s.len() == 0 {
        0
    } else {
        dec_value(s.drop_last()) * 10 + digit_val(s.last())
    }
}

/// The digit part of a numeral: everything after one optional leading `'+'`.
pub open spec fn numeral_digits(s: Seq<char>) -> Seq<char> {
    if s.len() > 0 && s[0] == '+' {
        s.skip(1)
    } else {
        s
    }
}

/// Whether every character of `s` is an ASCII decimal digit.
pub open spec fn all_digits(s: Seq<char>) -> bool {
    forall|i: int| 0 <= i < s.len() ==> is_digit(#[trigger] s[i])
}

/// Whether `s` is a numeral that a 64-bit unsigned parse accepts: an optional
/// leading `'+'`, then at least one digit, and a value within range.
pub open spec fn parses_to_u64(s: Seq<char>) -> bool {
    let d = numeral_digits(s);
    d.len() > 0 && all_digits(d) && dec_value(d) <= u64::MAX
}

/// The parsed value of `s`, or zero where `s` is not an in-range numeral.
pub open spec fn parsed_u64_or_zero(s: Seq<char>) -> u64 {
    if parses_to_u64(s) {
        dec_value(numeral_digits(s)) as u64
    } else {
        0
    }
}

/// The value of a digit string never shrinks as more digits are appended.
proof fn lemma_dec_value_nonneg(s: Seq<char>)
    requires
        all_digits(s),
    ensures
        dec_value(s) >= 0,
    decreases s.len(),
{
    if s.len() > 0 {
        assert(all_digits(s.drop_last())) by {
            assert(forall|i: int|
                0 <= i < s.drop_last().len() ==> s.drop_last()[i] == #[trigger] s[i]);
        }
        lemma_dec_value_nonneg(s.drop_last());
    }
}

/// Parses `s` as an unsigned 64-bit decimal numeral; any string that is not
/// such a numeral (empty, a stray character, out of range) yields zero.
pub fn parse_u64_or_zero(s: &str) -> (r: u64)
    ensures
        r == parsed_u64_or_zero(s@),
{
    let n = s.unicode_len();
    let mut start: usize = 0;
    if n > 0 && s.get_char(0) == '+' {
        start = 1;
    }
    proof {
        assert(numeral_digits(s@) =~= s@.skip(start as int));
    }
    let ghost d = numeral_digits(s@);
    if start == n {
        // no digits at all
        assert(!parses_to_u64(s@));
        return 0;
    }
    let mut acc: u64 = 0;
    let mut i: usize = start;
    while i < n
        invariant
            start <= i <= n,
            n == s@.len(),
            start < n,
            d == s@.skip(start as int),
            d == numeral_digits(s@),
            all_digits(d.take(i - start)),
            acc == dec_value(d.take(i - start)),
            dec_value(d.take(i - start)) <= u64::MAX,
        decreases n - i,
    {
        let c = s.get_char(i);
        let cu = c as u32;
        proof {
            assert(d[i - start] == s@[i as int]);
            assert(d.take(i + 1 - start).drop_last() =~= d.take(i - start));
            assert(d.take(i + 1 - start).last() == d[i - start]);
        }
        if !(0x30 <= cu && cu <= 0x39) {
            proof {
                assert(!is_digit(c));
                assert(!all_digits(d)) by {
                    assert(!is_digit(d[i - start]));
                }
            }
            return 0;
        }
        let dv: u64 = (cu - 0x30) as u64;
        proof {
            assert(is_digit(c) && digit_val(c) == dv);
            assert(all_digits(d.take(i + 1 - start))) by {
                assert(forall|k: int| 0 <= k < i - start
                    ==> d.take(i + 1 - start)[k] == #[trigger] d.take(i - start)[k]);
                assert(d.take(i + 1 - start)[i - start] == c);
            }
            assert(dec_value(d.take(i + 1 - start)) == acc * 10 + dv);
        }
        let grown = match acc.checked_mul(10) {
            Some(m) => m.checked_add(dv),
            None => None,
        };
        match grown {
            Some(v) => {
                acc = v;
            }
            None => {
                // the value has outgrown 64 bits; every longer prefix is at
                // least as large, so the whole numeral is out of range
                proof {
                    assert(acc * 10 + dv > u64::MAX);
                    if all_digits(d) {
                        lemma_dec_value_prefix_le(d, i + 1 - start, d.len() as int);
                        assert(d.take(d.len() as int) =~= d);
                        assert(dec_value(d) > u64::MAX);
                    }
                }
                return 0;
            }
        }
        i = i + 1;
    }
    proof {
        assert(d.take(i - start) =~= d);
    }
    acc
}

/// Along a digit string, the value of a prefix never exceeds the value of a
/// longer prefix.
proof fn lemma_dec_value_prefix_le(s: Seq<char>, i: int, j: int)
    requires
        0 <= i <= j <= s.len(),
        all_digits(s),
    ensures
        dec_value(s.take(i)) <= dec_value(s.take(j)),
    decreases j - i,
{
    if i < j {
        lemma_dec_value_prefix_le(s, i, j - 1);
        assert(s.take(j).drop_last() =~= s.take(j - 1));
        assert(all_digits(s.take(j - 1))) by {
            assert(forall|k: int|
                0 <= k < s.take(j - 1).len() ==> s.take(j - 1)[k] == #[trigger] s[k]);
        }
        lemma_dec_value_nonneg(s.take(j - 1));
        assert(is_digit(s.take(j).last()));
    }
}


/// Lexicographic order on character sequences, by scalar value: the order
/// strings sort in.
pub open spec fn lex_le(a: Seq<char>, b: Seq<char>) -> bool
    decreases a.len(),
{
    if a.len() == 0 {
        true
    } else if b.len() == 0 {
        false
    } else if a[0] == b[0] {
        lex_le(a.skip(1), b.skip(1))
    } else {
        (a[0] as u32) < (b[0] as u32)
    }
}

/// Every string is at or before itself.
pub proof fn lemma_lex_le_refl(a: Seq<char>)
    ensures
        lex_le(a, a),
    decreases a.len(),
{
    if a.len() > 0 {
        lemma_lex_le_refl(a.skip(1));
    }
}

/// Any two strings are ordered one way or the other.
pub proof fn lemma_lex_le_total(a: Seq<char>, b: Seq<char>)
    ensures
        lex_le(a, b) || lex_le(b, a),
    decreases a.len(),
{
    if a.len() > 0 && b.len() > 0 {
        if a[0] == b[0] {
            lemma_lex_le_total(a.skip(1), b.skip(1));
        } else {
            vstd::utf8::char_u32_cast(a[0], a[0] as u32);
            vstd::utf8::char_u32_cast(b[0], b[0] as u32);
        }
    }
}

/// The order is transitive.
pub proof fn lemma_lex_le_trans(a: Seq<char>, b: Seq<char>, c: Seq<char>)
    requires
        lex_le(a, b),
        lex_le(b, c),
    ensures
        lex_le(a, c),
    decreases a.len(),
{
    if a.len() > 0 && b.len() > 0 && c.len() > 0 && a[0] == b[0] && b[0] == c[0] {
        lemma_lex_le_trans(a.skip(1), b.skip(1), c.skip(1));
    }
}

/// Compares `a` and `b` from position `i` on, both already equal before it.
fn str_le_from(a: &str, b: &str, i: usize) -> (r: bool)
    requires
        i <= a@.len(),
        i <= b@.len(),
    ensures
        r == lex_le(a@.skip(i as int), b@.skip(i as int)),
    decreases a@.len() - i,
{
    let na = a.unicode_len();
    let nb = b.unicode_len();
    if i == na {
        true
    } else if i == nb {
        false
    } else {
        let ca = a.get_char(i);
        let cb = b.get_char(i);
        proof {
            assert(a@.skip(i as int)[0] == a@[i as int]);
            assert(b@.skip(i as int)[0] == b@[i as int]);
            assert(a@.skip(i as int).skip(1) =~= a@.skip(i + 1));
            assert(b@.skip(i as int).skip(1) =~= b@.skip(i + 1));
        }
        if ca as u32 == cb as u32 {
            proof {
                assert(ca == cb) by {
                    assert(ca as u32 == cb as u32);
                };
            }
            str_le_from(a, b, i + 1)
        } else {
            (ca as u32) < (cb as u32)
        }
    }
}

/// Whether `a` sorts at or before `b` in lexicographic order by scalar
/// value.
pub fn str_le(a: &str, b: &str) -> (r: bool)
    ensures
        r == lex_le(a@, b@),
{
    proof {
        assert(a@.skip(0) =~= a@);
        assert(b@.skip(0) =~= b@);
    }
    str_le_from(a, b, 0)
}

} // verus!
