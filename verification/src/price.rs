//! Unit prices as exact fixed-point amounts.

use crate::text::all_digits;
use crate::text::chars_of;
use crate::text::decimal;
use crate::text::decimal_chars;
use crate::text::digit_char;
use crate::text::digit_to_char;
use crate::text::digit_value;
use crate::text::digits_value;
use crate::text::char_to_digit;
use crate::text::is_digit;
use crate::text::lemma_decimal_value;
use crate::text::parse_digits;
use crate::text::string_of;
use vstd::prelude::*;

verus! {

/// Number of price units in one unit of currency.
pub const MICROS_PER_UNIT: u64 = 1_000_000;

/// A non-negative unit price, held as a whole number of millionths of the
/// currency unit.
#[derive(Clone, Copy, Debug, PartialEq, Eq, Structural)]
pub struct Price {
    pub micros: u64,
}

impl View for Price {
    type V = int;

    open spec fn view(&self) -> int {
        self.micros as int
    }
}

impl Price {
    /// The zero price, which stands for "no price known".
    pub fn zero() -> (p: Price)
        ensures
            p@ == 0,
    {
        Price { micros: 0 }
    }

    /// A price of `units` whole units of currency.
    pub fn from_units(units: u32) -> (p: Price)
        ensures
            p@ == units * MICROS_PER_UNIT,
    {
        Price { micros: units as u64 * MICROS_PER_UNIT }
    }

    /// A price of `micros` millionths of the currency unit.
    pub fn from_micros(micros: u64) -> (p: Price)
        ensures
            p@ == micros,
    {
        Price { micros }
    }

    /// Whether this price is the zero price.
    pub fn is_zero(&self) -> (z: bool)
        ensures
            z == (self@ == 0),
    {
        self.micros == 0
    }

    /// Whether this price is strictly below `other`.
    pub fn is_less_than(&self, other: &Price) -> (b: bool)
        ensures
            b == (self@ < other@),
    {
        self.micros < other.micros
    }
}

/// Whether `c` separates the whole units of an amount from its fraction:
/// a decimal point or a decimal comma.
pub open spec fn is_separator(c: char) -> bool {
    c == '.' || c == ','
}

/// The position of the first separator in `s`, the length of `s` where it
/// has none.
pub open spec fn separator_position(s: Seq<char>) -> int
    decreases s.len(),
{
    if s.len() == 0 || is_separator(s[0]) {
        0
    } else {
        1 + separator_position(s.drop_first())
    }
}

/// The millionths that the fraction digits `f` write, where the digit
/// before them counts `unit` millionths: digits beyond the sixth are
/// dropped.
pub open spec fn fraction_value(f: Seq<char>, unit: nat) -> nat
    decreases f.len(),
{
    if f.len() == 0 || unit < 10 {
        0
    } else {
        (digit_value(f[0]) * (unit / 10) + fraction_value(f.drop_first(), unit / 10)) as nat
    }
}

/// The amount that `s` writes, in millionths: digits, then optionally a
/// separator and more digits, with at least one digit in all; absent where
/// `s` is not of that form or the amount is beyond the 64 bits of a price.
pub open spec fn amount_value(s: Seq<char>) -> Option<nat> {
    let k = separator_position(s);
    let whole = s.subrange(0, k);
    let fraction = if k < s.len() {
        s.subrange(k + 1, s.len() as int)
    } else {
        Seq::<char>::empty()
    };
    let value = digits_value(whole) * 1_000_000 + fraction_value(fraction, 1_000_000);
    if all_digits(whole) && all_digits(fraction) && whole.len() + fraction.len() > 0 && value
        <= u64::MAX {
        Some(value)
    } else {
        None
    }
}

/// The digits after the separator in the text of an amount whose fraction
/// is `fraction` millionths of `unit`: as many as it takes, none for zero.
pub open spec fn fraction_digits(fraction: nat, unit: nat) -> Seq<char>
    decreases unit,
{
    if fraction == 0 || unit < 10 {
        Seq::<char>::empty()
    } else {
        seq![digit_char((fraction / (unit / 10)) as int)] + fraction_digits(
            fraction % (unit / 10),
            unit / 10,
        )
    }
}

/// The text of an amount of `micros` millionths: the whole units, then,
/// where the amount is not whole, a decimal point and the digits of the
/// fraction without trailing zeros.
pub open spec fn amount_text(micros: nat) -> Seq<char> {
    if micros % 1_000_000 == 0 {
        decimal(micros / 1_000_000)
    } else {
        decimal(micros / 1_000_000) + seq!['.'] + fraction_digits(micros % 1_000_000, 1_000_000)
    }
}

/// Whether `unit` is one of the powers of ten from one to a million.
spec fn is_decimal_unit(unit: u64) -> bool {
    unit == 1 || unit == 10 || unit == 100 || unit == 1_000 || unit == 10_000 || unit == 100_000
        || unit == 1_000_000
}

proof fn lemma_separator_position(s: Seq<char>)
    ensures
        0 <= separator_position(s) <= s.len(),
        separator_position(s) < s.len() ==> is_separator(s[separator_position(s)]),
        forall|i: int| 0 <= i < separator_position(s) ==> !is_separator(#[trigger] s[i]),
    decreases s.len(),
{
    if s.len() > 0 && !is_separator(s[0]) {
        let rest = s.drop_first();
        lemma_separator_position(rest);
        assert forall|i: int| 0 <= i < separator_position(s) implies !is_separator(
            #[trigger] s[i],
        ) by {
            if i > 0 {
                assert(s[i] == rest[i - 1]);
            }
        }
    }
}

proof fn lemma_first_separator(s: Seq<char>, k: int)
    requires
        0 <= k <= s.len(),
        k < s.len() ==> is_separator(s[k]),
        forall|i: int| 0 <= i < k ==> !is_separator(#[trigger] s[i]),
    ensures
        separator_position(s) == k,
{
    lemma_separator_position(s);
    let p = separator_position(s);
    if p < k {
        assert(!is_separator(s[p]));
    } else if k < p {
        assert(!is_separator(s[k]));
    }
}

impl Price {
    /// The amount that `text` writes, as a price.
    pub fn parse(text: &str) -> (price: Option<Price>)
        ensures
            match price {
                Some(p) => amount_value(text@) == Some(p@ as nat),
                None => amount_value(text@) is None,
            },
    {
        let chars = chars_of(text);
        let n = chars.len();
        let mut k: usize = 0;
        while k < n && chars[k] != '.' && chars[k] != ','
            invariant
                k <= n,
                n == chars@.len(),
                forall|i: int| 0 <= i < k ==> !is_separator(#[trigger] chars@[i]),
            decreases n - k,
        {
            k += 1;
        }
        proof {
            lemma_first_separator(chars@, k as int);
        }
        let ghost whole = chars@.subrange(0, k as int);
        let ghost fraction = if k < n {
            chars@.subrange(k + 1, n as int)
        } else {
            Seq::<char>::empty()
        };
        let from: usize = if k < n {
            k + 1
        } else {
            n
        };
        assert(chars@.subrange(from as int, n as int) =~= fraction);
        if k + (n - from) == 0 {
            return None;
        }
        let units = match parse_digits(&chars, 0, k, 18_446_744_073_709) {
            Some(v) => v,
            None => {
                proof {
                    if all_digits(whole) {
                        assert(digits_value(whole) * 1_000_000 > u64::MAX) by (nonlinear_arith)
                            requires
                                digits_value(whole) > 18_446_744_073_709,
                        ;
                    }
                }
                return None;
            },
        };
        let mut micros: u64 = 0;
        let mut unit: u64 = 1_000_000;
        let mut i: usize = from;
        assert(fraction.skip(0) =~= fraction);
        while i < n
            invariant
                from <= i <= n,
                n == chars@.len(),
                chars@ == text@,
                k == separator_position(chars@),
                fraction == if k < n {
                    chars@.subrange(k + 1, n as int)
                } else {
                    Seq::<char>::empty()
                },
                fraction == chars@.subrange(from as int, n as int),
                all_digits(fraction.take(i - from)),
                unit <= 1_000_000,
                micros + fraction_value(fraction.skip(i - from), unit as nat) == fraction_value(
                    fraction,
                    1_000_000,
                ),
                micros + unit <= 1_000_000,
            decreases n - i,
        {
            let ghost rest = fraction.skip(i - from);
            proof {
                assert(rest[0] == chars@[i as int]);
                assert(rest.drop_first() =~= fraction.skip(i + 1 - from));
                assert(fraction[i - from] == chars@[i as int]);
            }
            match char_to_digit(chars[i]) {
                None => {
                    assert(!is_digit(fraction[i - from]));
                    return None;
                },
                Some(d) => {
                    proof {
                        let seen = fraction.take(i - from);
                        let next = fraction.take(i + 1 - from);
                        assert forall|j: int| 0 <= j < next.len() implies is_digit(
                            #[trigger] next[j],
                        ) by {
                            if j < seen.len() {
                                assert(next[j] == seen[j]);
                            }
                        }
                    }
                    if unit >= 10 {
                        unit = unit / 10;
                        assert(d as u64 * unit + unit <= unit * 10) by (nonlinear_arith)
                            requires
                                d < 10,
                        ;
                        micros = micros + d as u64 * unit;
                    }
                },
            }
            i += 1;
        }
        proof {
            assert(fraction.take(n - from) =~= fraction);
            assert(fraction.skip(n - from).len() == 0);
        }
        let total: u128 = units as u128 * 1_000_000 + micros as u128;
        if total > 0xffff_ffff_ffff_ffff {
            None
        } else {
            Some(Price { micros: total as u64 })
        }
    }

    /// The text of this price.
    pub fn to_text(&self) -> (text: String)
        ensures
            text@ == amount_text(self@ as nat),
    {
        let mut chars = decimal_chars(self.micros / 1_000_000);
        let mut fraction: u64 = self.micros % 1_000_000;
        if fraction != 0 {
            chars.push('.');
            let mut unit: u64 = 1_000_000;
            let ghost head = chars@;
            while fraction != 0 && unit >= 10
                invariant
                    fraction < unit,
                    is_decimal_unit(unit),
                    chars@ + fraction_digits(fraction as nat, unit as nat) == head
                        + fraction_digits((self.micros % 1_000_000) as nat, 1_000_000),
                decreases unit,
            {
                let ghost before = chars@;
                let ghost tail = fraction_digits(fraction as nat, unit as nat);
                unit = unit / 10;
                let d = fraction / unit;
                assert(d < 10) by (nonlinear_arith)
                    requires
                        d == fraction / unit,
                        fraction < unit * 10,
                        unit > 0,
                ;
                chars.push(digit_to_char(d as u8));
                fraction = fraction % unit;
                assert(chars@ + fraction_digits(fraction as nat, unit as nat) =~= before + tail);
            }
            assert(fraction_digits(fraction as nat, unit as nat) =~= Seq::<char>::empty());
            assert(chars@ =~= head + fraction_digits(
                (self.micros % 1_000_000) as nat,
                1_000_000,
            ));
        }
        string_of(&chars)
    }
}

/// The digits of a fraction write the fraction: what `fraction_digits`
/// writes for `fraction` millionths, `fraction_value` reads as `fraction`.
proof fn lemma_fraction_round_trip(fraction: nat, unit: u64)
    requires
        is_decimal_unit(unit),
        fraction < unit,
    ensures
        all_digits(fraction_digits(fraction, unit as nat)),
        fraction_value(fraction_digits(fraction, unit as nat), unit as nat) == fraction,
        fraction > 0 ==> fraction_digits(fraction, unit as nat).len() > 0,
    decreases unit,
{
    if fraction != 0 && unit >= 10 {
        let next = (unit / 10) as u64;
        let d = fraction / (next as nat);
        let rest = fraction % (next as nat);
        assert(d < 10 && d * next + rest == fraction) by (nonlinear_arith)
            requires
                d == fraction / (next as nat),
                rest == fraction % (next as nat),
                fraction < next * 10,
                next > 0,
        ;
        lemma_fraction_round_trip(rest, next);
        let digits = fraction_digits(fraction, unit as nat);
        let tail = fraction_digits(rest, next as nat);
        assert(digits =~= seq![digit_char(d as int)] + tail);
        assert(digits.drop_first() =~= tail);
        assert(digit_value(digits[0]) == d);
        assert forall|i: int| 0 <= i < digits.len() implies is_digit(#[trigger] digits[i]) by {
            if i > 0 {
                assert(digits[i] == tail[i - 1]);
            }
        }
    }
}

/// A price that is written and read again is the same price: the text of
/// every price reads as that price.
pub proof fn lemma_text_round_trip(micros: nat)
    requires
        micros <= u64::MAX,
    ensures
        amount_value(amount_text(micros)) == Some(micros),
{
    let units = micros / 1_000_000;
    let fraction = micros % 1_000_000;
    let whole = decimal(units);
    let text = amount_text(micros);
    lemma_decimal_value(units);
    lemma_fraction_round_trip(fraction, 1_000_000);
    let digits = fraction_digits(fraction, 1_000_000);
    if fraction == 0 {
        assert(text == whole);
        assert forall|i: int| 0 <= i < whole.len() implies !is_separator(#[trigger] text[i]) by {
            assert(is_digit(whole[i]));
        }
        lemma_first_separator(text, whole.len() as int);
        assert(text.subrange(0, whole.len() as int) =~= whole);
    } else {
        assert(text =~= whole + seq!['.'] + digits);
        assert forall|i: int| 0 <= i < whole.len() implies !is_separator(#[trigger] text[i]) by {
            assert(text[i] == whole[i]);
            assert(is_digit(whole[i]));
        }
        assert(text[whole.len() as int] == '.');
        lemma_first_separator(text, whole.len() as int);
        assert(text.subrange(0, whole.len() as int) =~= whole);
        assert(text.subrange(whole.len() as int + 1, text.len() as int) =~= digits);
    }
}

/// The position of the last of the break quantities `quantities` that
/// applies to `quantity` pieces, if any does: a break applies from its
/// quantity on.
pub open spec fn last_applicable(quantities: Seq<u32>, quantity: u32) -> Option<int>
    decreases quantities.len(),
{
    if quantities.len() == 0 {
        None
    } else if quantities.last() <= quantity {
        Some(quantities.len() - 1)
    } else {
        last_applicable(quantities.drop_last(), quantity)
    }
}

/// What the last applicable break is: it applies, and no later break does.
pub proof fn lemma_last_applicable(quantities: Seq<u32>, quantity: u32)
    ensures
        match last_applicable(quantities, quantity) {
            Some(i) => {
                &&& 0 <= i < quantities.len()
                &&& quantities[i] <= quantity
                &&& forall|j: int| i < j < quantities.len() ==> quantities[j] > quantity
            },
            None => forall|j: int| 0 <= j < quantities.len() ==> quantities[j] > quantity,
        },
    decreases quantities.len(),
{
    if quantities.len() > 0 && quantities.last() > quantity {
        let front = quantities.drop_last();
        lemma_last_applicable(front, quantity);
        assert forall|j: int| 0 <= j < front.len() implies front[j] == quantities[j] by {}
    }
}

/// The position of the last break that applies to `quantity` pieces.
pub fn last_applicable_break(quantities: &Vec<u32>, quantity: u32) -> (found: Option<usize>)
    ensures
        match found {
            Some(i) => last_applicable(quantities@, quantity) == Some(i as int),
            None => last_applicable(quantities@, quantity) is None,
        },
{
    let mut found: Option<usize> = None;
    let mut i: usize = 0;
    while i < quantities.len()
        invariant
            i <= quantities.len(),
            match found {
                Some(k) => last_applicable(quantities@.take(i as int), quantity) == Some(k as int),
                None => last_applicable(quantities@.take(i as int), quantity) is None,
            },
        decreases quantities.len() - i,
    {
        proof {
            assert(quantities@.take(i + 1).drop_last() =~= quantities@.take(i as int));
        }
        if quantity >= quantities[i] {
            found = Some(i);
        }
        i += 1;
    }
    assert(quantities@.take(i as int) =~= quantities@);
    found
}

} // verus!
