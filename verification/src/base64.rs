//! Standard base64 encoding, used to carry binary cell values inside a
//! text-safe structured form.

use vstd::prelude::*;

verus! {

/// The base64 alphabet character for a 6-bit group `v` in `0 ..= 63`.
pub open spec fn b64_char(v: int) -> char {
    if v < 26 {
        ((0x41 + v) as u8) as char
    } else if v < 52 {
        ((0x61 + (v - 26)) as u8) as char
    } else if v < 62 {
        ((0x30 + (v - 52)) as u8) as char
    } else if v == 62 {
        '+'
    } else {
        '/'
    }
}

/// The base64 encoding of `b`: each group of three bytes becomes four
/// alphabet characters, and a final group of one or two bytes is closed
/// with `'='` padding.
pub open spec fn base64_of(b: Seq<u8>) -> Seq<char>
    decreases b.len(),
{
    if b.len() == 0 {
        Seq::empty()
    } else if b.len() == 1 {
        let b0 = b[0] as int;
        seq![b64_char(b0 / 4), b64_char((b0 % 4) * 16), '=', '=']
    } else if b.len() == 2 {
        let b0 = b[0] as int;
        let b1 = b[1] as int;
        seq![b64_char(b0 / 4), b64_char((b0 % 4) * 16 + b1 / 16), b64_char((b1 % 16) * 4), '=']
    } else {
        let b0 = b[0] as int;
        let b1 = b[1] as int;
        let b2 = b[2] as int;
        seq![
            b64_char(b0 / 4),
            b64_char((b0 % 4) * 16 + b1 / 16),
            b64_char((b1 % 16) * 4 + b2 / 64),
            b64_char(b2 % 64),
        ] + base64_of(b.skip(3))
    }
}

/// The alphabet character for the 6-bit group `v`.
fn b64_digit(v: u8) -> (c: char)
    requires
        v < 64,
    ensures
        c == b64_char(v as int),
{
    if v < 26 {
        (0x41 + v) as char
    } else if v < 52 {
        (0x61 + (v - 26)) as char
    } else if v < 62 {
        (0x30 + (v - 52)) as char
    } else if v == 62 {
        '+'
    } else {
        '/'
    }
}

/// Encodes `b` as base64 text.
pub fn base64_encode(b: &Vec<u8>) -> (r: String)
    ensures
        r@ == base64_of(b@),
{
    let n = b.len();
    let mut s = String::new();
    let mut i: usize = 0;
    proof {
        assert(b@.skip(0) =~= b@);
    }
    while n - i >= 3
        invariant
            i <= n,
            n == b@.len(),
            base64_of(b@) == s@ + base64_of(b@.skip(i as int)),
        decreases n - i,
    {
        let b0 = b[i];
        let b1 = b[i + 1];
        let b2 = b[i + 2];
        proof {
            assert(b@.skip(i as int)[0] == b@[i as int]);
            assert(b@.skip(i as int)[1] == b@[i as int + 1]);
            assert(b@.skip(i as int)[2] == b@[i as int + 2]);
            assert(b@.skip(i as int).skip(3) =~= b@.skip(i as int + 3));
        }
        crate::text::push_char(&mut s, b64_digit(b0 / 4));
        crate::text::push_char(&mut s, b64_digit((b0 % 4) * 16 + b1 / 16));
        crate::text::push_char(&mut s, b64_digit((b1 % 16) * 4 + b2 / 64));
        crate::text::push_char(&mut s, b64_digit(b2 % 64));
        i = i + 3;
        proof {
            assert(base64_of(b@) =~= s@ + base64_of(b@.skip(i as int)));
        }
    }
    if n - i == 2 {
        let b0 = b[i];
        let b1 = b[i + 1];
        proof {
            assert(b@.skip(i as int)[0] == b@[i as int]);
            assert(b@.skip(i as int)[1] == b@[i as int + 1]);
        }
        crate::text::push_char(&mut s, b64_digit(b0 / 4));
        crate::text::push_char(&mut s, b64_digit((b0 % 4) * 16 + b1 / 16));
        crate::text::push_char(&mut s, b64_digit((b1 % 16) * 4));
        crate::text::push_char(&mut s, '=');
    } else if n - i == 1 {
        let b0 = b[i];
        proof {
            assert(b@.skip(i as int)[0] == b@[i as int]);
        }
        crate::text::push_char(&mut s, b64_digit(b0 / 4));
        crate::text::push_char(&mut s, b64_digit((b0 % 4) * 16));
        crate::text::push_char(&mut s, '=');
        crate::text::push_char(&mut s, '=');
    }
    proof {
        assert(s@ =~= base64_of(b@));
    }
    s
}

} // verus!
