//! Decimal numerals as they appear in a model: stoichiometric coefficients
//! and parameter values, held as canonical decimal text.

use vstd::prelude::*;

verus! {

pub open spec fn is_digit(c: char) -> bool {
    '0' <= c && c <= '9'
}

pub open spec fn all_digits(s: Seq<char>) -> bool {
    forall|i: int| 0 <= i < s.len() ==> is_digit(#[trigger] s[i])
}

/// The integer part of a canonical numeral: digits, no leading zero
/// unless it is the single digit `0`.
pub open spec fn is_whole_text(s: Seq<char>) -> bool {
    &&& s.len() > 0
    &&& all_digits(s)
    &&& (s.len() > 1 ==> s[0] != '0')
}

/// The fractional part of a canonical numeral: digits, the last one not `0`.
pub open spec fn is_fraction_text(s: Seq<char>) -> bool {
    &&& s.len() > 0
    &&& all_digits(s)
    &&& s.last() != '0'
}

/// An unsigned canonical decimal: `whole` or `whole.fraction`.
pub open spec fn is_magnitude_text(s: Seq<char>) -> bool {
    ||| is_whole_text(s)
    ||| exists|p: int|
        0 < p < s.len() && #[trigger] s[p] == '.' && is_whole_text(s.take(p)) && is_fraction_text(
            s.skip(p + 1),
        )
}

/// A canonical decimal, optionally preceded by `-`.
pub open spec fn is_numeral_text(t: Seq<char>) -> bool {
    if t.len() > 0 && t[0] == '-' {
        is_magnitude_text(t.drop_first())
    } else {
        is_magnitude_text(t)
    }
}

/// A finite decimal number in canonical form, such as `2`, `0.5` or `-13.25`.
#[derive(Debug)]
pub struct Numeral {
    pub(crate) negative: bool,
    pub(crate) magnitude: String,
}

impl View for Numeral {
    type V = Seq<char>;

    /// The numeral's text.
    open(crate) spec fn view(&self) -> Seq<char> {
        if self.negative {
            seq!['-'] + self.magnitude@
        } else {
            self.magnitude@
        }
    }
}

impl Numeral {
    #[verifier::type_invariant]
    pub(crate) closed spec fn wf(&self) -> bool {
        is_magnitude_text(self.magnitude@)
    }

    /// The text of the absolute value.
    pub open(crate) spec fn magnitude_text(&self) -> Seq<char> {
        self.magnitude@
    }

    pub open(crate) spec fn spec_is_zero(&self) -> bool {
        self.magnitude@ == seq!['0']
    }

    /// Strictly below zero (`-0` is not).
    pub open(crate) spec fn spec_is_negative(&self) -> bool {
        self.negative && !self.spec_is_zero()
    }

    /// Strictly above zero.
    pub open(crate) spec fn spec_is_positive(&self) -> bool {
        !self.negative && !self.spec_is_zero()
    }

    /// The absolute value is exactly one.
    pub open(crate) spec fn spec_is_unit(&self) -> bool {
        self.magnitude@ == seq!['1']
    }

    /// Reads a numeral written in canonical decimal form, as Rust prints a
    /// finite `f64`: `-` is optional, the integer part has no leading zero,
    /// the fractional part, if any, no trailing zero.
    pub fn parse(text: &str) -> (r: Option<Numeral>)
        ensures
            r.is_some() == is_numeral_text(text@),
            r matches Some(n) ==> n@ == text@,
    {
        let len = text.unicode_len();
        if len > 0 && text.get_char(0) == '-' {
            let body = text.substring_char(1, len);
            assert(body@ =~= text@.drop_first());
            if is_magnitude(body) {
                let n = Numeral { negative: true, magnitude: body.to_string() };
                proof {
                    assert(n@ =~= text@) by {
                        assert(text@ =~= seq![text@[0]] + text@.drop_first());
                    }
                }
                Some(n)
            } else {
                None
            }
        } else if is_magnitude(text) {
            Some(Numeral { negative: false, magnitude: text.to_string() })
        } else {
            None
        }
    }

    /// A copy of the numeral.
    pub fn copy(&self) -> (r: Numeral)
        ensures
            r@ == self@,
            r.magnitude_text() == self.magnitude_text(),
    {
        proof {
            use_type_invariant(self);
        }
        Numeral { negative: self.negative, magnitude: self.magnitude.clone() }
    }

    /// The absolute value.
    pub fn abs(&self) -> (r: Numeral)
        ensures
            r.magnitude_text() == self.magnitude_text(),
            r@ == self.magnitude_text(),
    {
        proof {
            use_type_invariant(self);
        }
        Numeral { negative: false, magnitude: self.magnitude.clone() }
    }

    /// The text of the absolute value.
    pub fn magnitude_str(&self) -> (r: &str)
        ensures
            r@ == self.magnitude_text(),
    {
        self.magnitude.as_str()
    }

    /// The numeral's text.
    pub fn to_text(&self) -> (r: String)
        ensures
            r@ == self@,
    {
        if self.negative {
            let mut t = String::new();
            t.append("-");
            t.append(self.magnitude.as_str());
            proof {
                reveal_strlit("-");
                assert(t@ =~= self@);
            }
            t
        } else {
            self.magnitude.clone()
        }
    }

    pub fn is_negative(&self) -> (r: bool)
        ensures
            r == self.spec_is_negative(),
    {
        self.negative && !self.is_zero()
    }

    pub fn is_positive(&self) -> (r: bool)
        ensures
            r == self.spec_is_positive(),
    {
        !self.negative && !self.is_zero()
    }

    /// Whether the absolute value is exactly one.
    pub fn is_unit(&self) -> (r: bool)
        ensures
            r == self.spec_is_unit(),
    {
        let m = self.magnitude.as_str();
        let r = m.unicode_len() == 1 && m.get_char(0) == '1';
        proof {
            if r {
                assert(m@ =~= seq!['1']);
            }
        }
        r
    }

    pub fn is_zero(&self) -> (r: bool)
        ensures
            r == self.spec_is_zero(),
    {
        let m = self.magnitude.as_str();
        let r = m.unicode_len() == 1 && m.get_char(0) == '0';
        proof {
            if r {
                assert(m@ =~= seq!['0']);
            }
        }
        r
    }
}

/// Whether `s[lo..hi]` is the integer part of a canonical numeral.
fn is_whole_range(s: &str, lo: usize, hi: usize) -> (r: bool)
    requires
        lo <= hi <= s@.len(),
    ensures
        r == is_whole_text(s@.subrange(lo as int, hi as int)),
{
    if lo == hi {
        return false;
    }
    if hi - lo > 1 && s.get_char(lo) == '0' {
        return false;
    }
    digits_only(s, lo, hi)
}

/// Whether `s[lo..hi]` is the fractional part of a canonical numeral.
fn is_fraction_range(s: &str, lo: usize, hi: usize) -> (r: bool)
    requires
        lo <= hi <= s@.len(),
    ensures
        r == is_fraction_text(s@.subrange(lo as int, hi as int)),
{
    if lo == hi {
        return false;
    }
    if s.get_char(hi - 1) == '0' {
        return false;
    }
    digits_only(s, lo, hi)
}

fn digits_only(s: &str, lo: usize, hi: usize) -> (r: bool)
    requires
        lo <= hi <= s@.len(),
    ensures
        r == all_digits(s@.subrange(lo as int, hi as int)),
{
    let mut i = lo;
    while i < hi
        invariant
            lo <= i <= hi <= s@.len(),
            all_digits(s@.subrange(lo as int, i as int)),
        decreases hi - i,
    {
        let c = s.get_char(i);
        if !('0' <= c && c <= '9') {
            assert(s@.subrange(lo as int, hi as int)[i - lo] == c);
            return false;
        }
        assert(forall|j: int|
            0 <= j < i + 1 - lo ==> #[trigger] s@.subrange(lo as int, i + 1)[j] == s@.subrange(
                lo as int,
                i as int,
            ).push(c)[j]);
        i = i + 1;
    }
    true
}

/// Whether `s` is an unsigned canonical decimal.
fn is_magnitude(s: &str) -> (r: bool)
    ensures
        r == is_magnitude_text(s@),
{
    let len = s.unicode_len();
    let mut p: usize = 0;
    while p < len
        invariant
            p <= len == s@.len(),
            forall|j: int| 0 <= j < p ==> s@[j] != '.',
        ensures
            p <= len == s@.len(),
            forall|j: int| 0 <= j < p ==> s@[j] != '.',
            p < len ==> s@[p as int] == '.',
        decreases len - p,
    {
        if s.get_char(p) == '.' {
            break;
        }
        p = p + 1;
    }
    if p == len {
        let r = is_whole_range(s, 0, len);
        assert(s@.subrange(0, len as int) =~= s@);
        return r;
    }
    let r = p > 0 && is_whole_range(s, 0, p) && is_fraction_range(s, p + 1, len);
    proof {
        assert(s@.take(p as int) =~= s@.subrange(0, p as int));
        assert(s@.skip(p + 1) =~= s@.subrange(p + 1, len as int));
        assert(!is_whole_text(s@)) by {
            if is_whole_text(s@) {
                assert(is_digit(s@[p as int]));
            }
        }
        if !r {
            assert forall|q: int|
                0 < q < s@.len() && #[trigger] s@[q] == '.' implies !(is_whole_text(s@.take(q))
                && is_fraction_text(s@.skip(q + 1))) by {
                if q > p {
                    assert(s@.take(q)[p as int] == '.');
                } else {
                    assert(q == p);
                }
            }
        }
    }
    r
}

} // verus!
