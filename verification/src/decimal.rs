//! Exact signed decimal numbers, as typed: a sign, a run of digits and the
//! number of those digits that stand behind the decimal point.

use vstd::prelude::*;
use crate::text::to_chars;

verus! {

/// A signed decimal number. Its value is the number that `digits` spell,
/// divided by ten to the power `scale`, negated where `negative` is set.
#[derive(Debug)]
pub struct Decimal {
    pub negative: bool,
    /// All digits, most significant first, each between 0 and 9.
    pub digits: Vec<u8>,
    /// How many of the digits are fractional.
    pub scale: usize,
}

pub struct DecimalView {
    pub negative: bool,
    pub digits: Seq<u8>,
    pub scale: nat,
}

impl View for Decimal {
    type V = DecimalView;

    open spec fn view(&self) -> DecimalView {
        DecimalView { negative: self.negative, digits: self.digits@, scale: self.scale as nat }
    }
}

/// The number that a sequence of digits spells in base ten.
pub open spec fn digits_value(digits: Seq<u8>) -> nat
    decreases digits.len(),
{
    if digits.len() == 0 {
        0
    } else {
        10 * digits_value(digits.drop_last()) + digits.last() as nat
    }
}

impl DecimalView {
    /// There is at least one digit, every digit is at most 9, and no more
    /// digits are fractional than there are.
    pub open spec fn wf(self) -> bool {
        &&& self.digits.len() >= 1
        &&& self.scale <= self.digits.len()
        &&& forall|i: int| 0 <= i < self.digits.len() ==> #[trigger] self.digits[i] <= 9
    }

    /// The value multiplied by ten to the power `scale`.
    pub open spec fn unscaled(self) -> int {
        if self.negative {
            -(digits_value(self.digits) as int)
        } else {
            digits_value(self.digits) as int
        }
    }

    /// The number zero, written with one digit.
    pub open spec fn zero() -> DecimalView {
        DecimalView { negative: false, digits: seq![0u8], scale: 0 }
    }

    /// The number written out: a minus sign where it is negative, the
    /// digits as they are, and a point before the fractional ones.
    pub open spec fn text(self) -> Seq<char> {
        let whole = self.digits.len() - self.scale;
        let sign = if self.negative {
            seq!['-']
        } else {
            Seq::empty()
        };
        let point = if self.scale > 0 {
            seq!['.']
        } else {
            Seq::empty()
        };
        sign + digit_chars(self.digits.take(whole)) + point + digit_chars(self.digits.skip(whole))
    }
}

pub open spec fn is_digit(c: char) -> bool {
    '0' <= c <= '9'
}

/// The value of a digit character.
pub open spec fn digit_of(c: char) -> u8 {
    (c as u32 - 48) as u8
}

/// The character that writes a digit.
pub open spec fn char_of(d: u8) -> char {
    (d + 48) as u8 as char
}

pub open spec fn digits_of(s: Seq<char>) -> Seq<u8> {
    Seq::new(s.len(), |i: int| digit_of(s[i]))
}

pub open spec fn digit_chars(digits: Seq<u8>) -> Seq<char> {
    Seq::new(digits.len(), |i: int| char_of(digits[i]))
}

/// 1 where the text starts with `+` or `-`, else 0.
pub open spec fn sign_len(s: Seq<char>) -> int {
    if s.len() > 0 && (s[0] == '+' || s[0] == '-') {
        1
    } else {
        0
    }
}

/// Where the run of digits that starts at `i` ends.
pub open spec fn digit_run(s: Seq<char>, i: int) -> int
    decreases s.len() - i,
{
    if 0 <= i < s.len() && is_digit(s[i]) {
        digit_run(s, i + 1)
    } else {
        i
    }
}

/// Whether `s` writes a signed decimal number: an optional sign, then
/// digits with at most one decimal point among, before or after them, and
/// at least one digit. No exponent, no spaces, no separators.
pub open spec fn is_decimal(s: Seq<char>) -> bool {
    let a = sign_len(s);
    let b = digit_run(s, a);
    if b >= s.len() {
        b > a
    } else {
        s[b] == '.' && digit_run(s, b + 1) == s.len() && s.len() - a >= 2
    }
}

/// The number that a text with `is_decimal` writes.
pub open spec fn decimal_of(s: Seq<char>) -> DecimalView {
    let a = sign_len(s);
    let b = digit_run(s, a);
    if b >= s.len() {
        DecimalView {
            negative: s.len() > 0 && s[0] == '-',
            digits: digits_of(s.subrange(a, s.len() as int)),
            scale: 0,
        }
    } else {
        DecimalView {
            negative: s.len() > 0 && s[0] == '-',
            digits: digits_of(s.subrange(a, b)) + digits_of(s.subrange(b + 1, s.len() as int)),
            scale: (s.len() - b - 1) as nat,
        }
    }
}

/// A stretch of digits that ends at the end of the text or before a
/// character that is no digit is the run of digits from its start.
proof fn lemma_digit_run(s: Seq<char>, from: int, to: int)
    requires
        0 <= from <= to <= s.len(),
        forall|k: int| from <= k < to ==> is_digit(#[trigger] s[k]),
        to < s.len() ==> !is_digit(s[to]),
    ensures
        digit_run(s, from) == to,
    decreases to - from,
{
    if from < to {
        lemma_digit_run(s, from + 1, to);
    }
}

/// A well-formed number written out is a decimal text, and reads back as
/// the same number.
pub proof fn lemma_text_reads_back(d: DecimalView)
    requires
        d.wf(),
    ensures
        is_decimal(d.text()),
        decimal_of(d.text()) == d,
{
    let t = d.text();
    let whole = d.digits.len() - d.scale;
    let a: int = if d.negative {
        1
    } else {
        0
    };
    let b = a + whole;
    assert(sign_len(t) == a);
    assert forall|k: int| a <= k < b implies is_digit(#[trigger] t[k]) by {
        assert(t[k] == char_of(d.digits[k - a]));
    }
    if d.scale == 0 {
        assert(t.len() == b);
        lemma_digit_run(t, a, b);
        assert(digits_of(t.subrange(a, t.len() as int)) =~= d.digits) by {
            assert forall|k: int| 0 <= k < d.digits.len() implies digits_of(
                t.subrange(a, t.len() as int),
            )[k] == d.digits[k] by {
                assert(t[a + k] == char_of(d.digits[k]));
            }
        }
    } else {
        assert(t.len() == b + 1 + d.scale);
        assert(t[b] == '.');
        lemma_digit_run(t, a, b);
        assert forall|k: int| b + 1 <= k < t.len() implies is_digit(#[trigger] t[k]) by {
            assert(t[k] == char_of(d.digits[whole + (k - b - 1)]));
        }
        lemma_digit_run(t, b + 1, t.len() as int);
        let read = digits_of(t.subrange(a, b)) + digits_of(t.subrange(b + 1, t.len() as int));
        assert(read =~= d.digits) by {
            assert forall|k: int| 0 <= k < d.digits.len() implies read[k] == d.digits[k] by {
                if k < whole {
                    assert(t[a + k] == char_of(d.digits[k]));
                } else {
                    assert(t[b + 1 + (k - whole)] == char_of(d.digits[k]));
                }
            }
        }
    }
}

fn char_is_digit(c: char) -> (b: bool)
    ensures
        b == is_digit(c),
{
    let n: u32 = c as u32;
    48 <= n && n <= 57
}

/// Reads the run of digits of `v` that starts at `from`, appending their
/// values to `digits`; returns where the run ends.
fn read_digits(v: &Vec<char>, from: usize, digits: &mut Vec<u8>) -> (end: usize)
    requires
        from <= v.len(),
        forall|k: int| 0 <= k < old(digits)@.len() ==> #[trigger] old(digits)@[k] <= 9,
    ensures
        from <= end <= v.len(),
        end == digit_run(v@, from as int),
        forall|k: int| 0 <= k < final(digits)@.len() ==> #[trigger] final(digits)@[k] <= 9,
        final(digits)@ == old(digits)@ + digits_of(v@.subrange(from as int, end as int)),
{
    let mut i: usize = from;
    while i < v.len() && char_is_digit(v[i])
        invariant
            from <= i <= v.len(),
            digit_run(v@, from as int) == digit_run(v@, i as int),
            digits@ == old(digits)@ + digits_of(v@.subrange(from as int, i as int)),
            forall|k: int| 0 <= k < digits@.len() ==> #[trigger] digits@[k] <= 9,
        decreases v.len() - i,
    {
        let d: u8 = (v[i] as u32 - 48) as u8;
        digits.push(d);
        assert(digits@ =~= old(digits)@ + digits_of(v@.subrange(from as int, i as int + 1)));
        i += 1;
    }
    i
}

impl Decimal {
    /// The number zero, written with one digit.
    pub fn zero() -> (d: Decimal)
        ensures
            d@ == DecimalView::zero(),
            d@.wf(),
            d@.unscaled() == 0,
    {
        let mut digits: Vec<u8> = Vec::new();
        digits.push(0u8);
        assert(digits@ =~= seq![0u8]);
        assert(digits_value(seq![0u8]) == 0) by {
            reveal_with_fuel(digits_value, 2);
            assert(seq![0u8].drop_last() =~= Seq::<u8>::empty());
        }
        Decimal { negative: false, digits, scale: 0 }
    }

    /// Whether there is at least one digit, every digit is at most 9, and
    /// no more digits are fractional than there are.
    pub fn is_well_formed(&self) -> (b: bool)
        ensures
            b == self@.wf(),
    {
        if self.digits.len() == 0 || self.scale > self.digits.len() {
            return false;
        }
        let mut i: usize = 0;
        while i < self.digits.len()
            invariant
                i <= self.digits.len(),
                forall|k: int| 0 <= k < i ==> #[trigger] self.digits@[k] <= 9,
            decreases self.digits.len() - i,
        {
            if self.digits[i] > 9 {
                return false;
            }
            i += 1;
        }
        true
    }

    /// Reads a signed decimal number; `None` where the text is not one.
    pub fn parse(text: &str) -> (r: Option<Decimal>)
        ensures
            r is Some <==> is_decimal(text@),
            r matches Some(d) ==> d@ == decimal_of(text@) && d@.wf(),
    {
        let v = to_chars(text);
        let n = v.len();
        let mut negative = false;
        let mut a: usize = 0;
        if n > 0 && (v[0] == '+' || v[0] == '-') {
            negative = v[0] == '-';
            a = 1;
        }
        let mut digits: Vec<u8> = Vec::new();
        let b = read_digits(&v, a, &mut digits);
        if b >= n {
            if b > a {
                assert(digits@ =~= digits_of(v@.subrange(a as int, n as int)));
                Some(Decimal { negative, digits, scale: 0 })
            } else {
                None
            }
        } else if v[b] == '.' {
            let c = read_digits(&v, b + 1, &mut digits);
            if c == n && n - a >= 2 {
                Some(Decimal { negative, digits, scale: n - b - 1 })
            } else {
                None
            }
        } else {
            None
        }
    }

    /// The number written out, as `DecimalView::text` says; `parse` reads it
    /// back as the same number.
    pub fn to_text(&self) -> (s: String)
        requires
            self@.wf(),
        ensures
            s@ == self@.text(),
            is_decimal(s@),
            decimal_of(s@) == self@,
    {
        proof {
            lemma_text_reads_back(self@);
        }
        let mut s = String::new();
        if self.negative {
            s.push('-');
        }
        let whole: usize = self.digits.len() - self.scale;
        let ghost sign = s@;
        let mut i: usize = 0;
        while i < self.digits.len()
            invariant
                i <= self.digits.len(),
                whole == self.digits.len() - self.scale,
                self@.wf(),
                i <= whole ==> s@ == sign + digit_chars(self.digits@.take(i as int)),
                i > whole ==> s@ == sign + digit_chars(self.digits@.take(whole as int)) + seq!['.']
                    + digit_chars(self.digits@.subrange(whole as int, i as int)),
            decreases self.digits.len() - i,
        {
            if i == whole {
                s.push('.');
            }
            let d: u8 = self.digits[i];
            s.push((d + 48) as char);
            proof {
                if i < whole {
                    assert(s@ =~= sign + digit_chars(self.digits@.take(i as int + 1)));
                } else {
                    assert(s@ =~= sign + digit_chars(self.digits@.take(whole as int)) + seq!['.']
                        + digit_chars(self.digits@.subrange(whole as int, i as int + 1)));
                }
            }
            i += 1;
        }
        proof {
            if self.scale == 0 {
                assert(self.digits@.skip(whole as int) =~= Seq::<u8>::empty());
                assert(s@ =~= self@.text());
            } else {
                assert(self.digits@.subrange(whole as int, i as int) =~= self.digits@.skip(
                    whole as int,
                ));
                assert(s@ =~= self@.text());
            }
        }
        s
    }
}

impl Clone for Decimal {
    fn clone(&self) -> (r: Self)
        ensures
            r@ == self@,
    {
        Decimal { negative: self.negative, digits: self.digits.clone(), scale: self.scale }
    }
}

} // verus!
