//! Decimal text for the wire format: digit strings for unsigned integers,
//! and a fixed-point value standing for the controller's fractional fields
//! (positions, angles, times), with millidegree/millimeter resolution.

use vstd::prelude::*;

verus! {

/// A byte is an ASCII decimal digit.
pub open spec fn is_digit(b: u8) -> bool {
    48 <= b <= 57
}

/// Every byte of `s` is an ASCII decimal digit.
pub open spec fn all_digits(s: Seq<u8>) -> bool {
    forall|i: int| 0 <= i < s.len() ==> is_digit(#[trigger] s[i])
}

/// The decimal digit string of `n`, most significant digit first,
/// without leading zeros ("0" for zero).
pub open spec fn dec_digits(n: nat) -> Seq<u8>
    decreases n,
{
    if n < 10 {
        seq![(48 + n) as u8]
    } else {
        dec_digits(n / 10).push((48 + n % 10) as u8)
    }
}

/// The numeric value of a digit string, most significant digit first.
pub open spec fn digits_val(s: Seq<u8>) -> nat
    decreases s.len(),
{
    if s.len() == 0 {
        0
    } else {
        (digits_val(s.drop_last()) * 10 + (s.last() - 48)) as nat
    }
}

pub proof fn lemma_dec_digits_all_digits(n: nat)
    ensures
        dec_digits(n).len() >= 1,
        all_digits(dec_digits(n)),
    decreases n,
{
    if n >= 10 {
        lemma_dec_digits_all_digits(n / 10);
    }
}

/// Reading back the digit string of `n` yields `n`.
pub proof fn lemma_digits_val_of_dec_digits(n: nat)
    ensures
        digits_val(dec_digits(n)) == n,
    decreases n,
{
    if n < 10 {
        assert(dec_digits(n).drop_last() =~= Seq::<u8>::empty());
        assert(digits_val(Seq::<u8>::empty()) == 0);
    } else {
        lemma_digits_val_of_dec_digits(n / 10);
        assert(dec_digits(n / 10).push((48 + n % 10) as u8).drop_last() =~= dec_digits(n / 10));
    }
}

/// The value of a prefix never exceeds the value of the whole digit string.
pub proof fn lemma_digits_val_take_le(s: Seq<u8>, i: int)
    requires
        all_digits(s),
        0 <= i <= s.len(),
    ensures
        digits_val(s.take(i)) <= digits_val(s),
    decreases s.len() - i,
{
    if i == s.len() {
        assert(s.take(i) =~= s);
    } else {
        lemma_digits_val_take_le(s, i + 1);
        assert(s.take(i + 1).drop_last() =~= s.take(i));
        assert(s.take(i + 1).last() == s[i]);
    }
}

/// Exact digit string of a 64-bit unsigned integer.
pub fn u64_to_digits(n: u64) -> (r: Vec<u8>)
    ensures
        r@ == dec_digits(n as nat),
    decreases n,
{
    if n < 10 {
        let mut v: Vec<u8> = Vec::new();
        v.push(48 + n as u8);
        proof {
            assert(v@ =~= dec_digits(n as nat));
        }
        v
    } else {
        let mut v = u64_to_digits(n / 10);
        v.push(48 + (n % 10) as u8);
        proof {
            assert(v@ =~= dec_digits(n as nat));
        }
        v
    }
}

/// Reads a digit string back into a 64-bit unsigned integer.
/// Returns `None` on a non-digit byte, an empty string, or overflow.
pub fn digits_to_u64(s: &[u8]) -> (r: Option<u64>)
    ensures
        (match r {
            Some(v) => s@.len() >= 1 && all_digits(s@) && v == digits_val(s@),
            None => s@.len() == 0 || !all_digits(s@) || digits_val(s@) > u64::MAX,
        }),
{
    if s.len() == 0 {
        return None;
    }
    let mut acc: u64 = 0;
    let mut i: usize = 0;
    while i < s.len()
        invariant
            0 <= i <= s@.len(),
            all_digits(s@.take(i as int)),
            acc == digits_val(s@.take(i as int)),
        decreases s@.len() - i,
    {
        let b = s[i];
        if b < 48 || b > 57 {
            proof {
                assert(!is_digit(s@[i as int]));
            }
            return None;
        }
        let d = (b - 48) as u64;
        if acc > (u64::MAX - d) / 10 {
            proof {
                // the prefix through i already exceeds u64::MAX, so the whole does
                assert(s@.take(i as int + 1).drop_last() =~= s@.take(i as int));
                assert(s@.take(i as int + 1).last() == s@[i as int]);
                assert(digits_val(s@.take(i as int + 1)) > u64::MAX);
                if all_digits(s@) {
                    lemma_digits_val_take_le(s@, i as int + 1);
                }
            }
            return None;
        }
        proof {
            assert(s@.take(i as int + 1).drop_last() =~= s@.take(i as int));
            assert(s@.take(i as int + 1).last() == s@[i as int]);
        }
        acc = acc * 10 + d;
        i = i + 1;
    }
    proof {
        assert(s@.take(i as int) =~= s@);
    }
    Some(acc)
}

/// Fixed-point decimal with three fractional digits, standing for the
/// controller's fractional wire values. The represented value is
/// `(-1 if neg) * (units + milli / 1000)`.
#[derive(Debug, Clone, Copy, PartialEq, Eq, Structural)]
pub struct Dec {
    pub neg: bool,
    pub units: u32,
    pub milli: u16,
}

impl Dec {
    /// A valid value: fraction below one, and zero is never negative,
    /// so every value has exactly one representation.
    pub open spec fn wf(self) -> bool {
        self.milli < 1000 && !(self.neg && self.units == 0 && self.milli == 0)
    }

    /// The value in thousandths.
    pub open spec fn as_millis(self) -> int {
        if self.neg {
            -(self.units * 1000 + self.milli)
        } else {
            self.units * 1000 + self.milli
        }
    }

    pub fn new(neg: bool, units: u32, milli: u16) -> (r: Dec)
        requires
            milli < 1000,
            !(neg && units == 0 && milli == 0),
        ensures
            r == (Dec { neg, units, milli }),
            r.wf(),
    {
        Dec { neg, units, milli }
    }

    /// Zero.
    pub fn zero() -> (r: Dec)
        ensures
            r == (Dec { neg: false, units: 0, milli: 0 }),
            r.wf(),
            r.as_millis() == 0,
    {
        Dec { neg: false, units: 0, milli: 0 }
    }

    /// A whole (integral) value.
    pub fn whole(neg: bool, units: u32) -> (r: Dec)
        requires
            !(neg && units == 0),
        ensures
            r == (Dec { neg, units, milli: 0 }),
            r.wf(),
    {
        Dec { neg, units, milli: 0 }
    }
}

/// The fractional digit string for `m` thousandths: the three digits of
/// `m` zero-padded on the left, trailing zeros trimmed, at least one digit.
pub open spec fn frac_digits(m: nat) -> Seq<u8> {
    if m == 0 {
        seq![48u8]
    } else if m % 100 == 0 {
        seq![(48 + m / 100) as u8]
    } else if m % 10 == 0 {
        seq![(48 + m / 100) as u8, (48 + (m / 10) % 10) as u8]
    } else {
        seq![(48 + m / 100) as u8, (48 + (m / 10) % 10) as u8, (48 + m % 10) as u8]
    }
}

/// Thousandths value of a 1- to 3-digit fraction string.
pub open spec fn frac_val(s: Seq<u8>) -> nat {
    if s.len() == 1 {
        ((s[0] - 48) * 100) as nat
    } else if s.len() == 2 {
        ((s[0] - 48) * 100 + (s[1] - 48) * 10) as nat
    } else {
        ((s[0] - 48) * 100 + (s[1] - 48) * 10 + (s[2] - 48)) as nat
    }
}

pub proof fn lemma_frac_digits_ok(m: nat)
    requires
        m < 1000,
    ensures
        1 <= frac_digits(m).len() <= 3,
        all_digits(frac_digits(m)),
        frac_val(frac_digits(m)) == m,
{
}

/// Exact fraction digit string of `m` thousandths.
pub fn milli_to_frac(m: u16) -> (r: Vec<u8>)
    requires
        m < 1000,
    ensures
        r@ == frac_digits(m as nat),
{
    let mut v: Vec<u8> = Vec::new();
    if m == 0 {
        v.push(48);
    } else if m % 100 == 0 {
        v.push(48 + (m / 100) as u8);
    } else if m % 10 == 0 {
        v.push(48 + (m / 100) as u8);
        v.push(48 + ((m / 10) % 10) as u8);
    } else {
        v.push(48 + (m / 100) as u8);
        v.push(48 + ((m / 10) % 10) as u8);
        v.push(48 + (m % 10) as u8);
    }
    proof {
        assert(v@ =~= frac_digits(m as nat));
    }
    v
}

/// Reads a 1- to 3-digit fraction string back into thousandths.
pub fn frac_to_milli(s: &[u8]) -> (r: Option<u16>)
    ensures
        (match r {
            Some(v) => 1 <= s@.len() <= 3 && all_digits(s@) && v == frac_val(s@) && v < 1000,
            None => !(1 <= s@.len() <= 3) || !all_digits(s@),
        }),
{
    if s.len() < 1 || s.len() > 3 {
        return None;
    }
    let mut i: usize = 0;
    while i < s.len()
        invariant
            0 <= i <= s@.len(),
            forall|j: int| 0 <= j < i ==> is_digit(#[trigger] s@[j]),
        decreases s@.len() - i,
    {
        if s[i] < 48 || s[i] > 57 {
            return None;
        }
        i = i + 1;
    }
    let d0 = (s[0] - 48) as u16;
    if s.len() == 1 {
        Some(d0 * 100)
    } else {
        let d1 = (s[1] - 48) as u16;
        if s.len() == 2 {
            Some(d0 * 100 + d1 * 10)
        } else {
            let d2 = (s[2] - 48) as u16;
            Some(d0 * 100 + d1 * 10 + d2)
        }
    }
}

} // verus!
