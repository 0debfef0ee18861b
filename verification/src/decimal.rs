//! Decimal text rendered as ASCII bytes, with exact sequence
//! specifications, and the one conversion into `String`.

use vstd::prelude::*;

verus! {

/// The ASCII decimal digits of `n`, most significant first.
pub open spec fn dec_digits(n: nat) -> Seq<u8>
    decreases n,
{
    if n < 10 {
        seq![(48 + n) as u8]
    } else {
        dec_digits(n / 10).push((48 + n % 10) as u8)
    }
}

/// The digits of `n`, left-padded with ASCII zeros to at least `w` bytes.
pub open spec fn dec_padded(n: nat, w: nat) -> Seq<u8>
    decreases n,
{
    let w2 = if w >= 1 {
        (w - 1) as nat
    } else {
        0
    };
    if n < 10 {
        Seq::new(w2, |i: int| 48u8).push((48 + n) as u8)
    } else {
        dec_padded(n / 10, w2).push((48 + n % 10) as u8)
    }
}

/// Append the decimal digits of `n`.
pub fn push_decimal(out: &mut Vec<u8>, n: u64)
    ensures
        final(out)@ == old(out)@ + dec_digits(n as nat),
    decreases n,
{
    if n >= 10 {
        push_decimal(out, n / 10);
        out.push(48 + (n % 10) as u8);
        proof {
            assert(out@ =~= old(out)@ + dec_digits(n as nat));
        }
    } else {
        out.push(48 + n as u8);
        proof {
            assert(out@ =~= old(out)@ + dec_digits(n as nat));
        }
    }
}

/// Append the decimal digits of `n`, left-padded with ASCII zeros to at
/// least `w` bytes.
pub fn push_decimal_padded(out: &mut Vec<u8>, n: u64, w: usize)
    ensures
        final(out)@ == old(out)@ + dec_padded(n as nat, w as nat),
    decreases n,
{
    let w2: usize = if w >= 1 {
        w - 1
    } else {
        0
    };
    if n >= 10 {
        push_decimal_padded(out, n / 10, w2);
        out.push(48 + (n % 10) as u8);
        proof {
            assert(out@ =~= old(out)@ + dec_padded(n as nat, w as nat));
        }
    } else {
        let ghost entry = out@;
        let mut k: usize = 0;
        while k < w2
            invariant
                k <= w2,
                out@ == entry + Seq::new(k as nat, |i: int| 48u8),
            decreases w2 - k,
        {
            out.push(48);
            k = k + 1;
            proof {
                assert(out@ =~= entry + Seq::new(k as nat, |i: int| 48u8));
            }
        }
        out.push(48 + n as u8);
        proof {
            assert(out@ =~= old(out)@ + dec_padded(n as nat, w as nat));
        }
    }
}

/// The characters an ASCII byte sequence reads as.
pub open spec fn ascii_chars(s: Seq<u8>) -> Seq<char> {
    s.map_values(|b: u8| b as char)
}

/// Relies on `String::from_utf8`: ASCII bytes decode to exactly those
/// characters.
#[verifier::external_body]
pub fn ascii_string(bytes: Vec<u8>) -> (s: String)
    requires
        forall|i: int| 0 <= i < bytes@.len() ==> bytes@[i] < 128,
    ensures
        s@ == ascii_chars(bytes@),
{
    String::from_utf8(bytes).unwrap_or_default()
}

/// Every byte of a decimal rendering is an ASCII digit.
pub proof fn lemma_dec_digits_ascii(n: nat)
    ensures
        forall|i: int| 0 <= i < dec_digits(n).len() ==> 48 <= #[trigger] dec_digits(n)[i] <= 57,
    decreases n,
{
    if n >= 10 {
        lemma_dec_digits_ascii(n / 10);
        assert forall|i: int| 0 <= i < dec_digits(n).len() implies 48 <= #[trigger] dec_digits(
            n,
        )[i] <= 57 by {
            if i < dec_digits(n / 10).len() {
                assert(dec_digits(n)[i] == dec_digits(n / 10)[i]);
            }
        }
    }
}

/// Every byte of a padded decimal rendering is an ASCII digit.
pub proof fn lemma_dec_padded_ascii(n: nat, w: nat)
    ensures
        forall|i: int|
            0 <= i < dec_padded(n, w).len() ==> 48 <= #[trigger] dec_padded(n, w)[i] <= 57,
    decreases n,
{
    let w2 = if w >= 1 {
        (w - 1) as nat
    } else {
        0
    };
    if n >= 10 {
        lemma_dec_padded_ascii(n / 10, w2);
        assert forall|i: int| 0 <= i < dec_padded(n, w).len() implies 48 <= #[trigger] dec_padded(
            n,
            w,
        )[i] <= 57 by {
            if i < dec_padded(n / 10, w2).len() {
                assert(dec_padded(n, w)[i] == dec_padded(n / 10, w2)[i]);
            }
        }
    }
}

} // verus!
