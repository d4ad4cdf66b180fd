//! Fresh identifiers: a prefix followed by the smallest positive number
//! that no existing identifier uses.

use vstd::prelude::*;
use crate::expression::{contains_string, strings_view};

verus! {

pub open spec fn digit_char(d: nat) -> char {
    if d == 0 {
        '0'
    } else if d == 1 {
        '1'
    } else if d == 2 {
        '2'
    } else if d == 3 {
        '3'
    } else if d == 4 {
        '4'
    } else if d == 5 {
        '5'
    } else if d == 6 {
        '6'
    } else if d == 7 {
        '7'
    } else if d == 8 {
        '8'
    } else {
        '9'
    }
}

/// The decimal digits of `n`, without leading zeros.
pub open spec fn decimal_text(n: nat) -> Seq<char>
    decreases n,
{
    if n < 10 {
        seq![digit_char(n)]
    } else {
        decimal_text(n / 10).push(digit_char(n % 10))
    }
}

/// The identifier `prefix` followed by the digits of `n`.
pub open spec fn candidate(prefix: Seq<char>, n: nat) -> Seq<char> {
    prefix + decimal_text(n)
}

/// Whether `s` is `prefix` followed by the smallest positive number for
/// which no identifier of `ids` is the same.
pub open spec fn is_first_free(ids: Seq<Seq<char>>, prefix: Seq<char>, s: Seq<char>) -> bool {
    &&& exists|n: nat|
        #![trigger candidate(prefix, n)]
        n >= 1 && s == candidate(prefix, n) && forall|m: nat|
            1 <= m < n ==> ids.contains(#[trigger] candidate(prefix, m))
    &&& !ids.contains(s)
}

/// Prefix of generated small molecule identifiers.
pub const SMALL_MOLECULE_PREFIX: &'static str = "s";

/// Prefix of generated protein identifiers.
pub const PROTEIN_PREFIX: &'static str = "p";

/// Prefix of generated reaction identifiers.
pub const REACTION_PREFIX: &'static str = "r";

/// Prefix of generated measurement identifiers.
pub const MEASUREMENT_PREFIX: &'static str = "m";

/// Prefix of generated vessel identifiers.
pub const VESSEL_PREFIX: &'static str = "v";

/// Prefix of generated parameter identifiers.
pub const PARAMETER_PREFIX: &'static str = "q";

proof fn lemma_decimal_text_len(n: nat)
    ensures
        decimal_text(n).len() >= 1,
        n >= 10 ==> decimal_text(n).len() >= 2,
    decreases n,
{
    if n >= 10 {
        lemma_decimal_text_len(n / 10);
    }
}

proof fn lemma_digit_char_injective(a: nat, b: nat)
    requires
        a < 10,
        b < 10,
        digit_char(a) == digit_char(b),
    ensures
        a == b,
{
}

proof fn lemma_decimal_text_injective(a: nat, b: nat)
    requires
        decimal_text(a) == decimal_text(b),
    ensures
        a == b,
    decreases a,
{
    lemma_decimal_text_len(a);
    lemma_decimal_text_len(b);
    if a >= 10 && b >= 10 {
        let ta = decimal_text(a);
        let tb = decimal_text(b);
        assert(ta.drop_last() =~= decimal_text(a / 10));
        assert(tb.drop_last() =~= decimal_text(b / 10));
        assert(ta.last() == digit_char(a % 10));
        assert(tb.last() == digit_char(b % 10));
        lemma_digit_char_injective(a % 10, b % 10);
        lemma_decimal_text_injective(a / 10, b / 10);
        assert(a == 10 * (a / 10) + a % 10);
        assert(b == 10 * (b / 10) + b % 10);
    } else if a < 10 && b < 10 {
        assert(decimal_text(a) == seq![digit_char(a)]);
        assert(decimal_text(b) == seq![digit_char(b)]);
        assert(decimal_text(a)[0] == digit_char(a));
        assert(decimal_text(b)[0] == digit_char(b));
        lemma_digit_char_injective(a, b);
    } else {
        assert(decimal_text(a).len() == decimal_text(b).len());
    }
}

fn digit_str(d: usize) -> (r: &'static str)
    requires
        d < 10,
    ensures
        r@ == seq![digit_char(d as nat)],
{
    proof {
        reveal_strlit("0");
        reveal_strlit("1");
        reveal_strlit("2");
        reveal_strlit("3");
        reveal_strlit("4");
        reveal_strlit("5");
        reveal_strlit("6");
        reveal_strlit("7");
        reveal_strlit("8");
        reveal_strlit("9");
    }
    let r = if d == 0 {
        "0"
    } else if d == 1 {
        "1"
    } else if d == 2 {
        "2"
    } else if d == 3 {
        "3"
    } else if d == 4 {
        "4"
    } else if d == 5 {
        "5"
    } else if d == 6 {
        "6"
    } else if d == 7 {
        "7"
    } else if d == 8 {
        "8"
    } else {
        "9"
    };
    assert(r@ =~= seq![digit_char(d as nat)]);
    r
}

/// The decimal text of `n`.
pub fn to_decimal(n: usize) -> (r: String)
    ensures
        r@ == decimal_text(n as nat),
    decreases n,
{
    if n < 10 {
        digit_str(n).to_string()
    } else {
        let mut s = to_decimal(n / 10);
        s.append(digit_str(n % 10));
        assert(s@ =~= decimal_text(n as nat));
        s
    }
}

/// The identifier `prefix` followed by the smallest positive number for
/// which no identifier of `ids` is the same.
pub fn generate_id(ids: &Vec<String>, prefix: &str) -> (r: String)
    requires
        ids@.len() < usize::MAX,
    ensures
        is_first_free(strings_view(ids@), prefix@, r@),
{
    let ghost known = strings_view(ids@).to_set();
    let mut i: usize = 1;
    let ghost mut seen: Set<Seq<char>> = Set::empty();
    proof {
        strings_view(ids@).lemma_cardinality_of_set();
    }
    loop
        invariant
            1 <= i <= ids@.len() + 1,
            ids@.len() < usize::MAX,
            known == strings_view(ids@).to_set(),
            known.finite(),
            known.len() <= ids@.len(),
            seen.finite(),
            seen.len() == i - 1,
            seen.subset_of(known),
            forall|s: Seq<char>| seen.contains(s) ==> exists|m: nat| 1 <= m < i && s == candidate(prefix@, m),
            forall|m: nat| 1 <= m < i ==> strings_view(ids@).contains(#[trigger] candidate(prefix@, m)),
        decreases ids@.len() + 1 - i,
    {
        let mut id = prefix.to_string();
        let digits = to_decimal(i);
        id.append(digits.as_str());
        assert(id@ == candidate(prefix@, i as nat));
        if !contains_string(ids, &id) {
            return id;
        }
        proof {
            if seen.contains(id@) {
                let m = choose|m: nat| 1 <= m < i && id@ == candidate(prefix@, m);
                assert(decimal_text(m) =~= candidate(prefix@, m).skip(prefix@.len() as int));
                assert(decimal_text(i as nat) =~= candidate(prefix@, i as nat).skip(prefix@.len() as int));
                lemma_decimal_text_injective(m, i as nat);
            }
            seen = seen.insert(id@);
            assert(seen.len() == i);
            vstd::set_lib::lemma_len_subset(seen, known);
            assert(i <= ids@.len());
            assert forall|s: Seq<char>| seen.contains(s) implies exists|m: nat|
                1 <= m < i + 1 && s == candidate(prefix@, m) by {
                if s == id@ {
                    assert(s == candidate(prefix@, i as nat));
                }
            }
        }
        i = i + 1;
    }
}

} // verus!
