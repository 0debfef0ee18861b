//! Wall-clock bookkeeping for progress reporting: a compound time and its
//! text rendering.

use vstd::prelude::*;
use crate::decimal::{dec_digits, dec_padded, ascii_chars, ascii_string, push_decimal,
    push_decimal_padded, lemma_dec_digits_ascii, lemma_dec_padded_ascii};

verus! {

/// A span of time split into weeks, days, hours, minutes and seconds.
#[derive(Clone, Copy, PartialEq, Eq, Structural, Debug)]
pub struct CompoundTime {
    pub w: usize,
    pub d: usize,
    pub h: usize,
    pub m: usize,
    pub s: usize,
}

/// The balanced form: seconds roll into minutes, minutes into hours,
/// hours into days and days into weeks.
pub open spec fn balanced(c: CompoundTime) -> CompoundTime {
    let m2 = c.m + c.s / 60;
    let h2 = c.h + m2 / 60;
    let d2 = c.d + h2 / 24;
    let w2 = c.w + d2 / 7;
    CompoundTime {
        w: w2 as usize,
        d: (d2 % 7) as usize,
        h: (h2 % 24) as usize,
        m: (m2 % 60) as usize,
        s: (c.s % 60) as usize,
    }
}

impl CompoundTime {
    #[inline]
    pub fn new(w: usize, d: usize, h: usize, m: usize, s: usize) -> (r: CompoundTime)
        ensures
            r == (CompoundTime { w, d, h, m, s }),
    {
        CompoundTime { w, d, h, m, s }
    }

    /// Roll each field over into the next larger unit.
    #[inline]
    pub fn balance(&mut self)
        requires
            old(self).m + old(self).s / 60 <= usize::MAX,
            old(self).h + (old(self).m + old(self).s / 60) / 60 <= usize::MAX,
            old(self).d + (old(self).h + (old(self).m + old(self).s / 60) / 60) / 24
                <= usize::MAX,
            old(self).w + (old(self).d + (old(self).h + (old(self).m + old(self).s / 60) / 60)
                / 24) / 7 <= usize::MAX,
        ensures
            *final(self) == balanced(*old(self)),
    {
        self.m = self.m + self.s / 60;
        self.s = self.s % 60;
        self.h = self.h + self.m / 60;
        self.m = self.m % 60;
        self.d = self.d + self.h / 24;
        self.h = self.h % 24;
        self.w = self.w + self.d / 7;
        self.d = self.d % 7;
    }
}

/// All bytes of the sequence are ASCII.
pub open spec fn all_ascii(s: Seq<u8>) -> bool {
    forall|i: int| 0 <= i < s.len() ==> #[trigger] s[i] < 128
}

/// The text `H:MM:SS.mmm` for a duration of whole `seconds` plus
/// `subsec_nanos` nanoseconds, with the hour count open-ended.
pub open spec fn duration_chars(seconds: nat, subsec_nanos: nat) -> Seq<char> {
    let c = balanced(CompoundTime { w: 0, d: 0, h: 0, m: 0, s: seconds as usize });
    let hours = c.w * 168 + c.d * 24 + c.h;
    let ms = subsec_nanos / 1000000;
    ascii_chars(
        dec_digits(hours as nat) + seq![58u8] + dec_padded(c.m as nat, 2) + seq![58u8]
            + dec_padded(c.s as nat, 2) + seq![46u8] + dec_padded(ms, 3),
    )
}

/// Render a duration as `H:MM:SS.mmm`.
pub fn duration_to_string(seconds: usize, subsec_nanos: u32) -> (r: String)
    requires
        seconds <= 0xFFFF_FFFF_FFFF,
    ensures
        r@ == duration_chars(seconds as nat, subsec_nanos as nat),
{
    let mut c = CompoundTime::new(0, 0, 0, 0, seconds);
    proof {
        vstd::arithmetic::div_mod::lemma_div_nonincreasing(seconds as int, 60);
        vstd::arithmetic::div_mod::lemma_div_nonincreasing((seconds as int) / 60, 60);
        vstd::arithmetic::div_mod::lemma_div_nonincreasing((seconds as int) / 60 / 60, 24);
        vstd::arithmetic::div_mod::lemma_div_nonincreasing((seconds as int) / 60 / 60 / 24, 7);
        vstd::arithmetic::div_mod::lemma_div_pos_is_pos(seconds as int, 60);
        vstd::arithmetic::div_mod::lemma_div_pos_is_pos((seconds as int) / 60, 60);
        vstd::arithmetic::div_mod::lemma_div_pos_is_pos((seconds as int) / 60 / 60, 24);
    }
    c.balance();
    let hours: u64 = (c.w as u64) * 168 + (c.d as u64) * 24 + (c.h as u64);
    let ms: u32 = subsec_nanos / 1000000;
    let mut out: Vec<u8> = Vec::new();
    push_decimal(&mut out, hours);
    proof {
        lemma_dec_digits_ascii(hours as nat);
        assert(all_ascii(out@));
    }
    out.push(58);
    push_decimal_padded(&mut out, c.m as u64, 2);
    proof {
        lemma_dec_padded_ascii(c.m as nat, 2);
        assert(all_ascii(out@));
    }
    out.push(58);
    push_decimal_padded(&mut out, c.s as u64, 2);
    proof {
        lemma_dec_padded_ascii(c.s as nat, 2);
        assert(all_ascii(out@));
    }
    out.push(46);
    push_decimal_padded(&mut out, ms as u64, 3);
    proof {
        lemma_dec_padded_ascii(ms as nat, 3);
        assert(all_ascii(out@));
        assert(out@ =~= dec_digits(hours as nat) + seq![58u8] + dec_padded(c.m as nat, 2)
            + seq![58u8] + dec_padded(c.s as nat, 2) + seq![46u8] + dec_padded(ms as nat, 3));
    }
    ascii_string(out)
}

/// Render the compound time as `Ww Dd Hh Mm Ss`.
pub open spec fn compound_chars(c: CompoundTime) -> Seq<char> {
    ascii_chars(
        dec_digits(c.w as nat) + seq![119u8, 32u8] + dec_digits(c.d as nat) + seq![100u8, 32u8]
            + dec_digits(c.h as nat) + seq![104u8, 32u8] + dec_digits(c.m as nat) + seq![
            109u8,
            32u8,
        ] + dec_digits(c.s as nat) + seq![115u8],
    )
}

impl CompoundTime {
    /// The text `Ww Dd Hh Mm Ss`.
    pub fn to_text(&self) -> (r: String)
        ensures
            r@ == compound_chars(*self),
    {
        let mut out: Vec<u8> = Vec::new();
        push_decimal(&mut out, self.w as u64);
        proof {
            lemma_dec_digits_ascii(self.w as nat);
            assert(all_ascii(out@));
        }
        out.push(119);
        out.push(32);
        push_decimal(&mut out, self.d as u64);
        proof {
            lemma_dec_digits_ascii(self.d as nat);
            assert(all_ascii(out@));
        }
        out.push(100);
        out.push(32);
        push_decimal(&mut out, self.h as u64);
        proof {
            lemma_dec_digits_ascii(self.h as nat);
            assert(all_ascii(out@));
        }
        out.push(104);
        out.push(32);
        push_decimal(&mut out, self.m as u64);
        proof {
            lemma_dec_digits_ascii(self.m as nat);
            assert(all_ascii(out@));
        }
        out.push(109);
        out.push(32);
        push_decimal(&mut out, self.s as u64);
        proof {
            lemma_dec_digits_ascii(self.s as nat);
            assert(all_ascii(out@));
        }
        out.push(115);
        proof {
            assert(all_ascii(out@));
            assert(out@ =~= dec_digits(self.w as nat) + seq![119u8, 32u8] + dec_digits(
                self.d as nat,
            ) + seq![100u8, 32u8] + dec_digits(self.h as nat) + seq![104u8, 32u8] + dec_digits(
                self.m as nat,
            ) + seq![109u8, 32u8] + dec_digits(self.s as nat) + seq![115u8]);
        }
        ascii_string(out)
    }
}

} // verus!
