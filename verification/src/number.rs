//! Integers as decimal text: how a number is written into a wire value and
//! read back.

use crate::ast::ty::IntKind;
use vstd::prelude::*;
use vstd::string::*;

verus! {

/// The character of the decimal digit `d`.
pub open spec fn digit_char(d: nat) -> char {
    (('0' as u8) + d) as char
}

/// The decimal digit that `c` is, if it is one.
pub open spec fn digit_value(c: char) -> Option<nat> {
    if '0' <= c && c <= '9' {
        Some(((c as u8) - ('0' as u8)) as nat)
    } else {
        None
    }
}

/// The decimal digits of `n`, without leading zeros.
pub open spec fn digits(n: nat) -> Seq<char>
    decreases n,
{
    if n < 10 {
        seq![digit_char(n)]
    } else {
        digits(n / 10).push(digit_char(n % 10))
    }
}

/// The number that a run of decimal digits spells. The empty run and a run
/// that holds anything but digits spell none.
pub open spec fn digits_value(s: Seq<char>) -> Option<nat>
    decreases s.len(),
{
    if s.len() == 0 {
        None
    } else if s.len() == 1 {
        digit_value(s[0])
    } else {
        match (digits_value(s.drop_last()), digit_value(s.last())) {
            (Some(v), Some(d)) => Some(v * 10 + d),
            _ => None,
        }
    }
}

/// `i` in decimal: its digits, behind a minus sign where it is negative.
pub open spec fn decimal(i: int) -> Seq<char> {
    if i < 0 {
        seq!['-'] + digits((-i) as nat)
    } else {
        digits(i as nat)
    }
}

/// The integer that `s` spells: decimal digits behind an optional sign. A
/// plus sign is always read; a minus sign only where the number may be
/// negative.
pub open spec fn integer_value(s: Seq<char>, signed: bool) -> Option<int> {
    if s.len() > 0 && s[0] == '+' {
        match digits_value(s.drop_first()) {
            Some(v) => Some(v as int),
            None => None,
        }
    } else if s.len() > 0 && s[0] == '-' && signed {
        match digits_value(s.drop_first()) {
            Some(v) => Some(-(v as int)),
            None => None,
        }
    } else {
        match digits_value(s) {
            Some(v) => Some(v as int),
            None => None,
        }
    }
}

impl IntKind {
    /// Whether the type holds negative numbers.
    pub open spec fn signed(self) -> bool {
        match self {
            IntKind::I8 | IntKind::I16 | IntKind::I32 | IntKind::I64 | IntKind::I128 => true,
            _ => false,
        }
    }

    /// The largest number of the type.
    pub open spec fn max(self) -> int {
        match self {
            IntKind::I8 => 0x7f,
            IntKind::U8 => 0xff,
            IntKind::I16 => 0x7fff,
            IntKind::U16 => 0xffff,
            IntKind::I32 => 0x7fff_ffff,
            IntKind::U32 => 0xffff_ffff,
            IntKind::I64 => 0x7fff_ffff_ffff_ffff,
            IntKind::U64 => 0xffff_ffff_ffff_ffff,
            IntKind::I128 => 0x7fff_ffff_ffff_ffff_ffff_ffff_ffff_ffff,
            IntKind::U128 => 0xffff_ffff_ffff_ffff_ffff_ffff_ffff_ffff,
        }
    }

    /// The smallest number of the type.
    pub open spec fn min(self) -> int {
        if self.signed() {
            -self.max() - 1
        } else {
            0
        }
    }

    /// Whether `i` is a number of the type.
    pub open spec fn holds(self, i: int) -> bool {
        self.min() <= i <= self.max()
    }

    /// Whether the type holds negative numbers.
    pub fn is_signed(&self) -> (signed: bool)
        ensures
            signed == self.signed(),
    {
        match self {
            IntKind::I8 | IntKind::I16 | IntKind::I32 | IntKind::I64 | IntKind::I128 => true,
            _ => false,
        }
    }

    /// The largest number of the type.
    pub fn max_value(&self) -> (max: u128)
        ensures
            max == self.max(),
    {
        match self {
            IntKind::I8 => 0x7f,
            IntKind::U8 => 0xff,
            IntKind::I16 => 0x7fff,
            IntKind::U16 => 0xffff,
            IntKind::I32 => 0x7fff_ffff,
            IntKind::U32 => 0xffff_ffff,
            IntKind::I64 => 0x7fff_ffff_ffff_ffff,
            IntKind::U64 => 0xffff_ffff_ffff_ffff,
            IntKind::I128 => 0x7fff_ffff_ffff_ffff_ffff_ffff_ffff_ffff,
            IntKind::U128 => 0xffff_ffff_ffff_ffff_ffff_ffff_ffff_ffff,
        }
    }
}

/// The number that a wire value of a given integer type spells.
pub open spec fn number_value(s: Seq<char>, kind: IntKind) -> Option<int> {
    match integer_value(s, kind.signed()) {
        Some(i) => if kind.holds(i) {
            Some(i)
        } else {
            None
        },
        None => None,
    }
}

/// An integer of any of the supported types: a sign and a magnitude.
#[derive(Debug, Clone, Copy, PartialEq, Eq)]
pub struct Number {
    pub negative: bool,
    pub magnitude: u128,
}

impl View for Number {
    type V = int;

    open spec fn view(&self) -> int {
        if self.negative {
            -(self.magnitude as int)
        } else {
            self.magnitude as int
        }
    }
}

/// The digits of a number are digits, and spell it.
pub proof fn lemma_digits_value(n: nat)
    ensures
        digits(n).len() >= 1,
        digits_value(digits(n)) == Some(n),
        digit_value(digits(n)[0]) is Some,
    decreases n,
{
    if n >= 10 {
        lemma_digits_value(n / 10);
        let s = digits(n);
        assert(s.drop_last() =~= digits(n / 10));
        assert(s.last() == digit_char(n % 10));
        assert(s[0] == digits(n / 10)[0]);
    }
}

/// A number written in decimal is read back as itself, under every type
/// that holds it.
pub proof fn lemma_decimal_round_trip(i: int, kind: IntKind)
    requires
        kind.holds(i),
    ensures
        number_value(decimal(i), kind) == Some(i),
{
    if i < 0 {
        lemma_digits_value((-i) as nat);
        assert(decimal(i).drop_first() =~= digits((-i) as nat));
    } else {
        lemma_digits_value(i as nat);
    }
}

/// A run that spells a number is made of digits, and each of its beginnings
/// spells a number that is no larger.
pub proof fn lemma_digits_value_prefix(s: Seq<char>, k: int)
    requires
        digits_value(s) is Some,
        1 <= k <= s.len(),
    ensures
        digits_value(s.take(k)) is Some,
        digits_value(s.take(k)).unwrap() <= digits_value(s).unwrap(),
        digit_value(s[k - 1]) is Some,
    decreases s.len(),
{
    if k == s.len() {
        assert(s.take(k) =~= s);
    } else {
        lemma_digits_value_prefix(s.drop_last(), k);
        assert(s.drop_last().take(k) =~= s.take(k));
    }
}

/// Appends the decimal digits of `n`.
fn push_digits(n: u128, out: &mut String)
    ensures
        final(out)@ == old(out)@ + digits(n as nat),
    decreases n,
{
    if n >= 10 {
        push_digits(n / 10, out);
    }
    let d = (n % 10) as u8;
    let c = (48u8 + d) as char;
    assert(c == digit_char((n % 10) as nat));
    out.push(c);
    proof {
        if n >= 10 {
            assert(old(out)@ + digits((n / 10) as nat).push(c) =~= (old(out)@ + digits(
                (n / 10) as nat,
            )).push(c));
        } else {
            assert(old(out)@ + seq![c] =~= old(out)@.push(c));
        }
    }
}

impl Number {
    /// The number zero or above with the given magnitude.
    pub fn unsigned(magnitude: u128) -> (number: Number)
        ensures
            number@ == magnitude,
    {
        Number { negative: false, magnitude }
    }

    /// The number `value`.
    pub fn signed(value: i128) -> (number: Number)
        ensures
            number@ == value,
    {
        if value < 0 {
            Number { negative: true, magnitude: (-(value + 1)) as u128 + 1 }
        } else {
            Number { negative: false, magnitude: value as u128 }
        }
    }

    /// Whether the number is one of the type `kind`.
    pub fn fits(&self, kind: IntKind) -> (fits: bool)
        ensures
            fits == kind.holds(self@),
    {
        let max = kind.max_value();
        if self.negative && self.magnitude > 0 {
            kind.is_signed() && self.magnitude - 1 <= max
        } else {
            self.magnitude <= max
        }
    }

    /// Writes the number in decimal.
    pub fn to_decimal(&self) -> (text: String)
        ensures
            text@ == decimal(self@),
    {
        let mut text = String::new();
        if self.negative && self.magnitude > 0 {
            text.push('-');
            assert(text@ =~= seq!['-']);
        }
        push_digits(self.magnitude, &mut text);
        assert(Seq::<char>::empty() + digits(self.magnitude as nat) =~= digits(
            self.magnitude as nat,
        ));
        text
    }

    /// Reads a number of the type `kind` from decimal text. Text that spells
    /// no integer, and an integer that the type does not hold, give nothing.
    #[verifier::loop_isolation(false)]
    pub fn parse(text: &str, kind: IntKind) -> (res: Option<Number>)
        ensures
            match number_value(text@, kind) {
                Some(i) => res matches Some(number) && number@ == i,
                None => res is None,
            },
    {
        let n = text.unicode_len();
        if n == 0 {
            return None;
        }
        let first = text.get_char(0);
        let (negative, start): (bool, usize) = if first == '+' {
            (false, 1)
        } else if first == '-' && kind.is_signed() {
            (true, 1)
        } else {
            (false, 0)
        };
        let ghost run = text@.skip(start as int);
        proof {
            if start == 1 {
                assert(run =~= text@.drop_first());
            } else {
                assert(run =~= text@);
            }
        }
        if start == n {
            return None;
        }
        let mut magnitude: u128 = 0;
        let mut i: usize = start;
        while i < n
            invariant
                start <= i <= n,
                i > start ==> digits_value(run.take(i - start)) == Some(magnitude as nat),
                i == start ==> magnitude == 0,
            decreases n - i,
        {
            let c = text.get_char(i);
            assert(c == run[i - start]);
            if !('0' <= c && c <= '9') {
                proof {
                    if digits_value(run) is Some {
                        lemma_digits_value_prefix(run, i - start + 1);
                    }
                }
                return None;
            }
            let d = ((c as u8) - 48u8) as u128;
            assert(digit_value(c) == Some(d as nat));
            proof {
                let next = run.take(i - start + 1);
                assert(next.last() == c);
                assert(next.drop_last() =~= run.take(i - start));
            }
            if magnitude > (u128::MAX - d) / 10 {
                proof {
                    if digits_value(run) is Some {
                        lemma_digits_value_prefix(run, i - start + 1);
                        assert(digits_value(run.take(i - start + 1)) == Some(
                            (magnitude * 10 + d) as nat,
                        ));
                    }
                }
                return None;
            }
            magnitude = magnitude * 10 + d;
            i += 1;
        }
        assert(run.take(n - start) =~= run);
        let number = Number { negative, magnitude };
        if number.fits(kind) {
            Some(number)
        } else {
            None
        }
    }
}

} // verus!
