//! Numbers, as the evaluator carries them.
//!
//! A number is kept as its decimal numeral: an optional minus sign, digits,
//! and optionally a point and more digits; or one of `inf`, `-inf` and `NaN`.
//! Arithmetic on numerals is the work of the embedding program, which hands
//! each number out in one written form. What is decided here needs only the
//! numeral: the sign, whether two numerals denote the same number, and which
//! element of an array a numeral selects.

use crate::token::same_text;
use vstd::prelude::*;
use vstd::string::*;

verus! {

/// A number, written as a numeral.
#[derive(Debug, PartialEq)]
pub struct Number(pub String);

impl View for Number {
    type V = Seq<char>;

    open spec fn view(&self) -> Seq<char> {
        self.0@
    }
}

/// Whether a character is one of the ten digits.
pub open spec fn is_digit(c: char) -> bool {
    '0' <= c && c <= '9'
}

/// The value of a digit.
pub open spec fn digit_value(c: char) -> nat {
    (c as u32 - '0' as u32) as nat
}

/// The number of digits at the start of `s`.
pub open spec fn digits_len(s: Seq<char>) -> nat
    decreases s.len(),
{
    if s.len() > 0 && is_digit(s[0]) {
        1 + digits_len(s.drop_first())
    } else {
        0
    }
}

/// The value of a run of digits, read as a decimal numeral.
pub open spec fn digits_value(s: Seq<char>) -> nat
    decreases s.len(),
{
    if s.len() == 0 {
        0
    } else {
        digits_value(s.drop_last()) * 10 + digit_value(s.last())
    }
}

/// Whether some character of `s` is a digit other than `0`.
pub open spec fn has_nonzero_digit(s: Seq<char>) -> bool {
    exists|i: int| 0 <= i < s.len() && is_digit(#[trigger] s[i]) && s[i] != '0'
}

/// Whether a numeral starts with a minus sign.
pub open spec fn is_negative(s: Seq<char>) -> bool {
    s.len() > 0 && s[0] == '-'
}

/// A numeral without its sign.
pub open spec fn magnitude(s: Seq<char>) -> Seq<char> {
    if is_negative(s) {
        s.drop_first()
    } else {
        s
    }
}

/// The digits of a numeral before its point.
pub open spec fn whole_digits(s: Seq<char>) -> Seq<char> {
    magnitude(s).subrange(0, digits_len(magnitude(s)) as int)
}

/// What follows the digits before the point: the point and the digits
/// behind it, if there are any.
pub open spec fn fraction_part(s: Seq<char>) -> Seq<char> {
    magnitude(s).subrange(digits_len(magnitude(s)) as int, magnitude(s).len() as int)
}

/// Whether a numeral starts, behind its sign, with a digit.
pub open spec fn is_decimal(s: Seq<char>) -> bool {
    digits_len(magnitude(s)) > 0
}

/// The numeral of the negated number: the sign is flipped; `NaN` stays.
pub open spec fn negated(s: Seq<char>) -> Seq<char> {
    if s == "NaN"@ {
        s
    } else if is_negative(s) {
        s.drop_first()
    } else {
        seq!['-'] + s
    }
}

/// Whether a numeral denotes zero, of either sign.
pub open spec fn is_zero(s: Seq<char>) -> bool {
    is_decimal(s) && !has_nonzero_digit(s)
}

/// Whether two numerals denote the same number: `NaN` equals nothing, the
/// two zeros are equal, and otherwise the numerals are the same.
pub open spec fn same_number(a: Seq<char>, b: Seq<char>) -> bool {
    a != "NaN"@ && b != "NaN"@ && (a == b || (is_zero(a) && is_zero(b)))
}

/// The position in an array of length `len` that the index `s` selects, if it
/// selects one.
///
/// An index from zero up counts from the front and is cut to a whole number;
/// a negative index is added to the length first, and what is still negative
/// selects the first element. An index beyond the length selects nothing, and
/// neither does `inf`; any other text that is no decimal numeral selects the
/// first element.
pub open spec fn selected(len: nat, s: Seq<char>) -> Option<nat> {
    let position: int = if s == "inf"@ {
        len as int
    } else if !is_decimal(s) {
        0
    } else {
        let whole = digits_value(whole_digits(s)) as int;
        let fraction = has_nonzero_digit(fraction_part(s));
        if !is_negative(s) {
            if whole > len {
                len as int
            } else {
                whole
            }
        } else {
            let back = whole + if fraction {
                1int
            } else {
                0int
            };
            if back > len {
                0
            } else if whole == 0 && !fraction {
                0
            } else {
                len - back
            }
        }
    };
    if 0 <= position < len {
        Some(position as nat)
    } else {
        None
    }
}

/// The decimal numeral of `n`.
pub open spec fn decimal(n: nat) -> Seq<char>
    decreases n,
{
    if n < 10 {
        seq![digit_char(n)]
    } else {
        decimal(n / 10).push(digit_char(n % 10))
    }
}

/// The digit for a value below ten.
pub open spec fn digit_char(d: nat) -> char {
    if d == 0 {
        '0'
    } else if d == 1 {
        '1'
    } else if d == 2 {
        '2'
    } else if d == 3 {
        '3'
    } else if d == 4 {
        '4'
    } else if d == 5 {
        '5'
    } else if d == 6 {
        '6'
    } else if d == 7 {
        '7'
    } else if d == 8 {
        '8'
    } else {
        '9'
    }
}

/// Whether `needle` occurs in `hay` at position `at`.
pub open spec fn occurs_at(hay: Seq<char>, needle: Seq<char>, at: int) -> bool {
    0 <= at && at + needle.len() <= hay.len() && hay.subrange(at, at + needle.len()) == needle
}

/// Whether `needle` occurs somewhere in `hay`.
pub open spec fn contains_text(hay: Seq<char>, needle: Seq<char>) -> bool {
    exists|at: int| occurs_at(hay, needle, at)
}

/// The characters of a text, in order.
pub fn chars_of(s: &str) -> (r: Vec<char>)
    ensures
        r@ == s@,
{
    let n = s.unicode_len();
    let mut out: Vec<char> = Vec::new();
    let mut i: usize = 0;
    while i < n
        invariant
            i <= n,
            n == s@.len(),
            out@ == s@.subrange(0, i as int),
        decreases n - i,
    {
        out.push(s.get_char(i));
        proof {
            assert(out@ =~= s@.subrange(0, i + 1));
        }
        i += 1;
    }
    proof {
        assert(s@.subrange(0, n as int) =~= s@);
    }
    out
}

/// Whether `needle` occurs somewhere in `hay`.
pub fn text_contains(hay: &str, needle: &str) -> (r: bool)
    ensures
        r == contains_text(hay@, needle@),
{
    let h = chars_of(hay);
    let n = chars_of(needle);
    if n.len() > h.len() {
        assert(forall|at: int| !occurs_at(hay@, needle@, at));
        return false;
    }
    let last = h.len() - n.len();
    let mut at: usize = 0;
    while at <= last
        invariant
            h@ == hay@,
            n@ == needle@,
            last == h.len() - n.len(),
            n.len() <= h.len(),
            at <= last + 1,
            forall|k: int| 0 <= k < at ==> !occurs_at(hay@, needle@, k),
        decreases last + 1 - at,
    {
        let mut j: usize = 0;
        while j < n.len() && h[at + j] == n[j]
            invariant
                h@ == hay@,
                n@ == needle@,
                at <= last,
                last == h.len() - n.len(),
                n.len() <= h.len(),
                j <= n.len(),
                forall|k: int| 0 <= k < j ==> h@[at + k] == n@[k],
            decreases n.len() - j,
        {
            j += 1;
        }
        if j == n.len() {
            proof {
                assert(hay@.subrange(at as int, at + needle@.len()) =~= needle@);
                assert(occurs_at(hay@, needle@, at as int));
            }
            return true;
        }
        proof {
            assert(hay@.subrange(at as int, at + needle@.len())[j as int] == h@[at + j]);
            assert(!occurs_at(hay@, needle@, at as int));
        }
        at += 1;
    }
    assert(forall|k: int| !occurs_at(hay@, needle@, k));
    false
}

/// A run of digits that ends at `k` has `k` digits.
pub proof fn lemma_digits_len(s: Seq<char>, k: nat)
    requires
        k <= s.len(),
        forall|j: int| 0 <= j < k ==> is_digit(#[trigger] s[j]),
        k == s.len() || !is_digit(s[k as int]),
    ensures
        digits_len(s) == k,
    decreases k,
{
    if k > 0 {
        let t = s.drop_first();
        assert forall|j: int| 0 <= j < k - 1 implies is_digit(#[trigger] t[j]) by {
            assert(t[j] == s[j + 1]);
        }
        lemma_digits_len(t, (k - 1) as nat);
    }
}

/// The text of one digit.
fn digit_text(d: usize) -> (r: &'static str)
    requires
        d < 10,
    ensures
        r@ == seq![digit_char(d as nat)],
{
    proof {
        reveal_strlit("0");
        reveal_strlit("1");
        reveal_strlit("2");
        reveal_strlit("3");
        reveal_strlit("4");
        reveal_strlit("5");
        reveal_strlit("6");
        reveal_strlit("7");
        reveal_strlit("8");
        reveal_strlit("9");
    }
    let r = if d == 0 {
        "0"
    } else if d == 1 {
        "1"
    } else if d == 2 {
        "2"
    } else if d == 3 {
        "3"
    } else if d == 4 {
        "4"
    } else if d == 5 {
        "5"
    } else if d == 6 {
        "6"
    } else if d == 7 {
        "7"
    } else if d == 8 {
        "8"
    } else {
        "9"
    };
    assert(r@ =~= seq![digit_char(d as nat)]);
    r
}

/// The decimal numeral of `n`, as a text.
pub fn decimal_text(n: usize) -> (r: String)
    ensures
        r@ == decimal(n as nat),
    decreases n,
{
    if n < 10 {
        String::from_str(digit_text(n))
    } else {
        let mut r = decimal_text(n / 10);
        r.append(digit_text(n % 10));
        proof {
            assert(r@ =~= decimal(n as nat / 10).push(digit_char(n as nat % 10)));
        }
        r
    }
}

impl Number {
    /// The number whose numeral is the decimal numeral of `n`.
    pub fn from_usize(n: usize) -> (r: Number)
        ensures
            r@ == decimal(n as nat),
    {
        Number(decimal_text(n))
    }

    /// A copy of the number.
    pub fn duplicate(&self) -> (r: Number)
        ensures
            r@ == self@,
    {
        Number(self.0.clone())
    }

    /// Whether the numeral is `NaN`.
    pub fn is_nan(&self) -> (r: bool)
        ensures
            r == (self@ == "NaN"@),
    {
        same_text(self.0.as_str(), "NaN")
    }

    /// The negated number.
    pub fn negate(&self) -> (r: Number)
        ensures
            r@ == negated(self@),
    {
        if self.is_nan() {
            return self.duplicate();
        }
        let n = self.0.as_str().unicode_len();
        if n > 0 && self.0.as_str().get_char(0) == '-' {
            let rest = self.0.as_str().substring_char(1, n);
            proof {
                assert(rest@ =~= self@.drop_first());
            }
            Number(rest.to_owned())
        } else {
            let mut r = String::from_str("-");
            proof {
                reveal_strlit("-");
                assert(r@ =~= seq!['-']);
            }
            r.append(self.0.as_str());
            Number(r)
        }
    }

    /// Whether the numeral denotes zero, of either sign.
    pub fn is_zero(&self) -> (r: bool)
        ensures
            r == is_zero(self@),
    {
        let c = chars_of(self.0.as_str());
        let start: usize = if c.len() > 0 && c[0] == '-' {
            1
        } else {
            0
        };
        proof {
            let m = magnitude(self@);
            if m.len() > 0 && is_digit(m[0]) {
                assert(digits_len(m) > 0);
            } else {
                assert(digits_len(m) == 0);
            }
            if start == 1 && c.len() > 1 {
                assert(m[0] == c@[1]);
            }
        }
        if !(start < c.len() && '0' <= c[start] && c[start] <= '9') {
            return false;
        }
        let mut i: usize = 0;
        while i < c.len()
            invariant
                i <= c.len(),
                c@ == self@,
                forall|k: int| 0 <= k < i ==> !(is_digit(#[trigger] c@[k]) && c@[k] != '0'),
            decreases c.len() - i,
        {
            if '0' < c[i] && c[i] <= '9' {
                assert(is_digit(c@[i as int]) && c@[i as int] != '0');
                return false;
            }
            i += 1;
        }
        true
    }

    /// Whether two numbers are the same number.
    pub fn equals(&self, other: &Number) -> (r: bool)
        ensures
            r == same_number(self@, other@),
    {
        if self.is_nan() || other.is_nan() {
            return false;
        }
        if same_text(self.0.as_str(), other.0.as_str()) {
            return true;
        }
        self.is_zero() && other.is_zero()
    }

    /// The position in an array of length `len` that the number selects as
    /// an index, if it selects one.
    pub fn select(&self, len: usize) -> (r: Option<usize>)
        ensures
            match r {
                Some(p) => selected(len as nat, self@) == Some(p as nat),
                None => selected(len as nat, self@).is_none(),
            },
    {
        if same_text(self.0.as_str(), "inf") {
            return None;
        }
        let c = chars_of(self.0.as_str());
        let negative = c.len() > 0 && c[0] == '-';
        let start: usize = if negative {
            1
        } else {
            0
        };
        let ghost m = magnitude(self@);
        proof {
            assert(m =~= c@.subrange(start as int, c.len() as int));
            if m.len() > 0 && is_digit(m[0]) {
                assert(digits_len(m) > 0);
            } else {
                assert(digits_len(m) == 0);
            }
        }
        if !(start < c.len() && '0' <= c[start] && c[start] <= '9') {
            return if len > 0 {
                Some(0)
            } else {
                None
            };
        }
        // The digits before the point, counted up to one more than `len`.
        let cap: u128 = len as u128 + 1;
        let mut whole: u128 = 0;
        let mut i: usize = start;
        while i < c.len() && '0' <= c[i] && c[i] <= '9'
            invariant
                start <= i <= c.len(),
                c@ == self@,
                m == c@.subrange(start as int, c.len() as int),
                cap == len + 1,
                whole <= cap,
                forall|k: int| 0 <= k < i - start ==> is_digit(#[trigger] m[k]),
                whole as nat == if digits_value(m.subrange(0, i - start)) < cap {
                    digits_value(m.subrange(0, i - start))
                } else {
                    cap as nat
                },
            decreases c.len() - i,
        {
            let d: u128 = (c[i] as u32 - '0' as u32) as u128;
            proof {
                assert(m.subrange(0, i - start + 1).drop_last() =~= m.subrange(0, i - start));
                assert(m.subrange(0, i - start + 1).last() == c@[i as int]);
                assert(m[i - start] == c@[i as int]);
            }
            let next = whole * 10 + d;
            whole = if next < cap {
                next
            } else {
                cap
            };
            i += 1;
        }
        proof {
            lemma_digits_len(m, (i - start) as nat);
        }
        let ghost point = (i - start) as int;
        // Whether a digit other than zero stands behind the point.
        let mut fraction = false;
        let mut j: usize = i;
        while j < c.len()
            invariant
                start <= i <= j <= c.len(),
                c@ == self@,
                m == c@.subrange(start as int, c.len() as int),
                point == i - start,
                fraction == exists|k: int|
                    0 <= k < j - i && is_digit(#[trigger] m.subrange(point, m.len() as int)[k])
                        && m.subrange(point, m.len() as int)[k] != '0',
            decreases c.len() - j,
        {
            if '0' < c[j] && c[j] <= '9' {
                proof {
                    let t = m.subrange(point, m.len() as int);
                    assert(t[j - i] == m[point + (j - i)]);
                    assert(m[point + (j - i)] == c@[j as int]);
                    assert(is_digit(t[j - i]) && t[j - i] != '0');
                }
                fraction = true;
            } else {
                proof {
                    let t = m.subrange(point, m.len() as int);
                    assert(t[j - i] == m[point + (j - i)]);
                    assert(m[point + (j - i)] == c@[j as int]);
                }
            }
            j += 1;
        }
        proof {
            assert(fraction == has_nonzero_digit(fraction_part(self@)));
        }
        let position: u128 = if !negative {
            if whole > len as u128 {
                len as u128
            } else {
                whole
            }
        } else {
            let back: u128 = whole + if fraction {
                1
            } else {
                0
            };
            if back > len as u128 {
                0
            } else if whole == 0 && !fraction {
                0
            } else {
                len as u128 - back
            }
        };
        if position < len as u128 {
            Some(position as usize)
        } else {
            None
        }
    }
}

} // verus!
