//! Deriving the right-hand sides of ODE equations from the reactions'
//! stoichiometry and rate expressions.

use vstd::prelude::*;
use crate::expression::symbols_of;
use crate::model::{
    same_but_equations,
    same_but_parameters,
    equations_view,
    params_view,
    Document,
    Equation,
    ModelError,
    EquationType,
    EquationView,
    Reaction,
    ReactionElement,
};
use crate::numeral::Numeral;
use crate::text::same_text;
use crate::parameters::{
    bound_vars,
    cleanup_parameters,
    kept,
    process_equation,
    reconcile,
    retire_all,
    unused,
    ParameterBuffer,
};
use crate::model::ParameterView;

verus! {

/// What one reaction contributes to the rate of change of one species.
#[derive(Debug)]
pub struct EquationPart {
    /// Whether the contribution is subtracted.
    pub negative: bool,
    /// The absolute value of the stoichiometric coefficient.
    pub stoichiometry: Numeral,
    /// The reaction's rate expression.
    pub equation: String,
}

/// A contribution with its texts as character sequences.
pub struct PartView {
    pub negative: bool,
    pub coefficient: Seq<char>,
    pub law: Seq<char>,
}

impl View for EquationPart {
    type V = PartView;

    open spec fn view(&self) -> PartView {
        PartView {
            negative: self.negative,
            coefficient: self.stoichiometry.magnitude_text(),
            law: self.equation@,
        }
    }
}

pub open spec fn parts_view(v: Seq<EquationPart>) -> Seq<PartView> {
    v.map_values(|p: EquationPart| p@)
}

/// The first element of `elems` for species `s`.
pub open spec fn find_element(elems: Seq<ReactionElement>, s: Seq<char>) -> Option<
    ReactionElement,
>
    decreases elems.len(),
{
    if elems.len() == 0 {
        None
    } else {
        match find_element(elems.drop_last(), s) {
            Some(e) => Some(e),
            None => if elems.last().species_id@ == s {
                Some(elems.last())
            } else {
                None
            },
        }
    }
}

/// Whether species `s` is a reactant or a product of `r`.
pub open spec fn involves(r: Reaction, s: Seq<char>) -> bool {
    find_element(r.reactants@, s).is_some() || find_element(r.products@, s).is_some()
}

/// What reaction `r` contributes to species `s`: nothing without a rate
/// expression or where `s` takes no part; else the signed coefficient is
/// minus the reactant's coefficient, or the product's, and the part holds
/// its sign and absolute value.
pub open spec fn part_of(s: Seq<char>, r: Reaction) -> Option<PartView> {
    match r.kinetic_law {
        None => None,
        Some(law) => match find_element(r.reactants@, s) {
            Some(e) => Some(
                PartView {
                    negative: e.stoichiometry.spec_is_positive(),
                    coefficient: e.stoichiometry.magnitude_text(),
                    law: law@,
                },
            ),
            None => match find_element(r.products@, s) {
                Some(e) => Some(
                    PartView {
                        negative: e.stoichiometry.spec_is_negative(),
                        coefficient: e.stoichiometry.magnitude_text(),
                        law: law@,
                    },
                ),
                None => None,
            },
        },
    }
}

/// The contributions of the reactions `rs` to species `s`, in reaction order.
pub open spec fn parts_for(s: Seq<char>, rs: Seq<Reaction>) -> Seq<PartView>
    decreases rs.len(),
{
    if rs.len() == 0 {
        Seq::empty()
    } else {
        match part_of(s, rs.last()) {
            Some(p) => parts_for(s, rs.drop_last()).push(p),
            None => parts_for(s, rs.drop_last()),
        }
    }
}

/// The parts of `ps` with the given sign, in order.
pub open spec fn with_sign(ps: Seq<PartView>, negative: bool) -> Seq<PartView>
    decreases ps.len(),
{
    if ps.len() == 0 {
        ps
    } else if ps.last().negative == negative {
        with_sign(ps.drop_last(), negative).push(ps.last())
    } else {
        with_sign(ps.drop_last(), negative)
    }
}

/// `ps` stably ordered by sign: the added parts, then the subtracted ones.
pub open spec fn order_parts(ps: Seq<PartView>) -> Seq<PartView> {
    with_sign(ps, false) + with_sign(ps, true)
}

/// A rate expression with a `+` or `-` in it is put in parentheses.
pub open spec fn law_term(law: Seq<char>) -> Seq<char> {
    if law.contains('+') || law.contains('-') {
        seq!['('] + law + seq![')']
    } else {
        law
    }
}

pub open spec fn is_unit_text(c: Seq<char>) -> bool {
    c == seq!['1']
}

/// The first part: `-` when subtracted, then `c * law`, or the law alone
/// where the coefficient is one.
pub open spec fn first_term(p: PartView) -> Seq<char> {
    let sign = if p.negative {
        seq!['-']
    } else {
        Seq::empty()
    };
    if is_unit_text(p.coefficient) {
        sign + law_term(p.law)
    } else {
        sign + p.coefficient + seq![' ', '*', ' '] + law_term(p.law)
    }
}

/// A later part: ` + ` or ` - `, then `c*law`, or the law alone where the
/// coefficient is one.
pub open spec fn next_term(p: PartView) -> Seq<char> {
    let sign = if p.negative {
        seq![' ', '-', ' ']
    } else {
        seq![' ', '+', ' ']
    };
    if is_unit_text(p.coefficient) {
        sign + law_term(p.law)
    } else {
        sign + p.coefficient + seq!['*'] + law_term(p.law)
    }
}

/// The text of the sum of the parts, in order.
pub open spec fn assemble(ps: Seq<PartView>) -> Seq<char>
    decreases ps.len(),
{
    if ps.len() == 0 {
        Seq::empty()
    } else if ps.len() == 1 {
        first_term(ps[0])
    } else {
        assemble(ps.drop_last()) + next_term(ps.last())
    }
}

/// The derived right-hand side for species `s`.
pub open spec fn derived_rhs(s: Seq<char>, rs: Seq<Reaction>) -> Seq<char> {
    assemble(order_parts(parts_for(s, rs)))
}

/// An ODE equation with its text derived from `rs`; any other unchanged.
pub open spec fn derive_equation(e: EquationView, rs: Seq<Reaction>) -> EquationView {
    if e.equation_type == EquationType::Ode {
        EquationView { equation: derived_rhs(e.species_id, rs), ..e }
    } else {
        e
    }
}

/// Whether every reaction has a rate expression.
pub open spec fn all_have_laws(rs: Seq<Reaction>) -> bool {
    forall|i: int| 0 <= i < rs.len() ==> (#[trigger] rs[i]).kinetic_law.is_some()
}

/// Parameters and buffer after the ODE equations of `eqs` are reconciled in
/// order; one whose text does not parse changes nothing.
pub open spec fn process_all(
    params: Seq<ParameterView>,
    buf: Seq<ParameterView>,
    bound: Seq<Seq<char>>,
    eqs: Seq<EquationView>,
) -> (Seq<ParameterView>, Seq<ParameterView>)
    decreases eqs.len(),
{
    if eqs.len() == 0 {
        (params, buf)
    } else {
        let (p, b) = process_all(params, buf, bound, eqs.drop_last());
        let e = eqs.last();
        if e.equation_type == EquationType::Ode {
            match symbols_of(e.equation) {
                Some(syms) => reconcile(p, b, bound, syms),
                None => (p, b),
            }
        } else {
            (p, b)
        }
    }
}

/// Whether the text of every ODE equation of `eqs` parses.
pub open spec fn odes_parse(eqs: Seq<EquationView>) -> bool
    decreases eqs.len(),
{
    if eqs.len() == 0 {
        true
    } else {
        odes_parse(eqs.drop_last()) && (eqs.last().equation_type == EquationType::Ode
            ==> symbols_of(eqs.last().equation).is_some())
    }
}

proof fn lemma_with_sign(ps: Seq<PartView>, negative: bool)
    ensures
        forall|i: int|
            0 <= i < with_sign(ps, negative).len() ==> (#[trigger] with_sign(ps, negative)[i]).negative
                == negative,
    decreases ps.len(),
{
    if ps.len() > 0 {
        lemma_with_sign(ps.drop_last(), negative);
        let prev = with_sign(ps.drop_last(), negative);
        if ps.last().negative == negative {
            assert forall|i: int| 0 <= i < prev.len() + 1 implies (#[trigger] prev.push(
                ps.last(),
            )[i]).negative == negative by {
                if i < prev.len() {
                    assert(prev.push(ps.last())[i] == prev[i]);
                }
            }
        }
    }
}

/// In a derived right-hand side every added part comes before every
/// subtracted one.
pub proof fn lemma_positive_parts_first(ps: Seq<PartView>)
    ensures
        forall|i: int, j: int|
            0 <= i < j < order_parts(ps).len() && (#[trigger] order_parts(ps)[i]).negative
                ==> (#[trigger] order_parts(ps)[j]).negative,
        order_parts(ps).len() == ps.len(),
{
    lemma_with_sign(ps, false);
    lemma_with_sign(ps, true);
    lemma_with_sign_len(ps);
    let pos = with_sign(ps, false);
    let neg = with_sign(ps, true);
    assert forall|i: int, j: int|
        0 <= i < j < order_parts(ps).len() && (#[trigger] order_parts(ps)[i]).negative
            implies (#[trigger] order_parts(ps)[j]).negative by {
        if i < pos.len() {
            assert(order_parts(ps)[i] == pos[i]);
        }
        assert(order_parts(ps)[j] == neg[j - pos.len()]);
    }
}

/// A rate expression stands in the derived text in parentheses exactly when
/// it holds a `+` or a `-`, and as it is otherwise.
pub proof fn lemma_parenthesised_iff_signed(law: Seq<char>)
    ensures
        (law_term(law) == seq!['('] + law + seq![')']) <==> (law.contains('+') || law.contains(
            '-',
        )),
        !(law.contains('+') || law.contains('-')) ==> law_term(law) == law,
{
    if !(law.contains('+') || law.contains('-')) {
        assert((seq!['('] + law + seq![')']).len() == law.len() + 2);
    }
}

/// A part's coefficient is written exactly when its absolute value is not
/// one; otherwise the part is its sign and its rate expression alone.
pub proof fn lemma_unit_coefficient_left_out(p: PartView)
    ensures
        (first_term(p) == (if p.negative {
            seq!['-']
        } else {
            Seq::empty()
        }) + law_term(p.law)) <==> is_unit_text(p.coefficient),
        (next_term(p) == (if p.negative {
            seq![' ', '-', ' ']
        } else {
            seq![' ', '+', ' ']
        }) + law_term(p.law)) <==> is_unit_text(p.coefficient),
{
    let lt = law_term(p.law);
    if !is_unit_text(p.coefficient) {
        let s1 = if p.negative {
            seq!['-']
        } else {
            Seq::<char>::empty()
        };
        let s2 = if p.negative {
            seq![' ', '-', ' ']
        } else {
            seq![' ', '+', ' ']
        };
        assert(first_term(p).len() == s1.len() + p.coefficient.len() + 3 + lt.len());
        assert(next_term(p).len() == s2.len() + p.coefficient.len() + 1 + lt.len());
        assert((s1 + lt).len() == s1.len() + lt.len());
        assert((s2 + lt).len() == s2.len() + lt.len());
    }
}

/// The assembled text is the parts' terms in order: the first part's term
/// (see `first_term`), then each later part's (see `next_term`).
pub proof fn lemma_assemble_term_by_term(ps: Seq<PartView>, i: int)
    requires
        0 <= i < ps.len(),
    ensures
        i == 0 ==> assemble(ps.take(1)) == first_term(ps[0]),
        i > 0 ==> assemble(ps.take(i + 1)) == assemble(ps.take(i)) + next_term(ps[i]),
{
    assert(ps.take(i + 1).drop_last() =~= ps.take(i));
    assert(ps.take(i + 1).last() == ps[i]);
    if i == 0 {
        assert(ps.take(1)[0] == ps[0]);
    }
}

/// For a species consumed twice by a reaction with rate `k1*S` and made once
/// by one with rate `k2*E`, the added part comes first and the derived text
/// is `k2*E - 2*k1*S`.
pub proof fn lemma_sign_order_example()
    ensures
        assemble(
            order_parts(
                seq![
                    PartView { negative: true, coefficient: seq!['2'], law: seq!['k', '1', '*', 'S'] },
                    PartView { negative: false, coefficient: seq!['1'], law: seq!['k', '2', '*', 'E'] },
                ],
            ),
        ) == seq!['k', '2', '*', 'E', ' ', '-', ' ', '2', '*', 'k', '1', '*', 'S'],
{
    let r1 = PartView { negative: true, coefficient: seq!['2'], law: seq!['k', '1', '*', 'S'] };
    let r2 = PartView { negative: false, coefficient: seq!['1'], law: seq!['k', '2', '*', 'E'] };
    let ps = seq![r1, r2];
    assert(ps.drop_last() =~= seq![r1]);
    assert(seq![r1].drop_last() =~= Seq::<PartView>::empty());
    assert(seq![r1].last() == r1);
    assert(ps.last() == r2);
    assert(with_sign(Seq::<PartView>::empty(), false) =~= Seq::<PartView>::empty());
    assert(with_sign(Seq::<PartView>::empty(), true) =~= Seq::<PartView>::empty());
    assert(with_sign(seq![r1], false) =~= Seq::<PartView>::empty());
    assert(with_sign(ps, false) =~= seq![r2]);
    assert(with_sign(seq![r1], true) =~= Seq::<PartView>::empty().push(r1));
    assert(with_sign(ps, true) =~= seq![r1]);
    let ordered = order_parts(ps);
    assert(ordered =~= seq![r2, r1]);
    assert(!r1.law.contains('+') && !r1.law.contains('-')) by {
        assert forall|i: int| 0 <= i < r1.law.len() implies r1.law[i] != '+' && r1.law[i] != '-' by {
            assert(r1.law[i] == 'k' || r1.law[i] == '1' || r1.law[i] == '*' || r1.law[i] == 'S');
        }
    }
    assert(!r2.law.contains('+') && !r2.law.contains('-')) by {
        assert forall|i: int| 0 <= i < r2.law.len() implies r2.law[i] != '+' && r2.law[i] != '-' by {
            assert(r2.law[i] == 'k' || r2.law[i] == '2' || r2.law[i] == '*' || r2.law[i] == 'E');
        }
    }
    assert(ordered.drop_last() =~= seq![r2]);
    assert(ordered.last() == r1);
    assert(first_term(r2) =~= seq!['k', '2', '*', 'E']);
    assert(!is_unit_text(r1.coefficient)) by {
        assert(r1.coefficient[0] != seq!['1'][0]);
    }
    assert(next_term(r1) =~= seq![' ', '-', ' ', '2', '*', 'k', '1', '*', 'S']);
    assert(seq![r2][0] == r2);
    assert(assemble(seq![r2]) == first_term(r2));
    assert(assemble(ordered) == assemble(seq![r2]) + next_term(r1));
    assert(assemble(ordered) =~= seq!['k', '2', '*', 'E', ' ', '-', ' ', '2', '*', 'k', '1', '*', 'S']);
}

proof fn lemma_with_sign_len(ps: Seq<PartView>)
    ensures
        with_sign(ps, false).len() + with_sign(ps, true).len() == ps.len(),
    decreases ps.len(),
{
    if ps.len() > 0 {
        lemma_with_sign_len(ps.drop_last());
    }
}

/// Whether the equation's species takes part in `reaction`.
pub fn has_species_id(equation: &Equation, reaction: &Reaction) -> (r: bool)
    ensures
        r == involves(*reaction, equation.species_id@),
{
    find_element_index(&reaction.reactants, &equation.species_id).is_some()
        || find_element_index(&reaction.products, &equation.species_id).is_some()
}

/// The index of the first element of `elems` for species `s`.
fn find_element_index(elems: &Vec<ReactionElement>, s: &String) -> (r: Option<usize>)
    ensures
        match r {
            Some(k) => k < elems@.len() && find_element(elems@, s@) == Some(elems@[k as int]),
            None => find_element(elems@, s@).is_none(),
        },
{
    let mut i: usize = 0;
    while i < elems.len()
        invariant
            i <= elems@.len(),
            find_element(elems@.take(i as int), s@).is_none(),
        decreases elems@.len() - i,
    {
        assert(elems@.take(i + 1).drop_last() =~= elems@.take(i as int));
        if elems[i].species_id == *s {
            proof {
                lemma_find_element_extends(elems@, s@, i + 1);
            }
            return Some(i);
        }
        i = i + 1;
    }
    assert(elems@.take(i as int) =~= elems@);
    None
}

proof fn lemma_find_element_extends(elems: Seq<ReactionElement>, s: Seq<char>, k: int)
    requires
        0 <= k <= elems.len(),
        find_element(elems.take(k), s).is_some(),
    ensures
        find_element(elems, s) == find_element(elems.take(k), s),
    decreases elems.len() - k,
{
    if k < elems.len() {
        assert(elems.take(k + 1).drop_last() =~= elems.take(k));
        lemma_find_element_extends(elems, s, k + 1);
    } else {
        assert(elems.take(k) =~= elems);
    }
}

/// Appends what `reaction` contributes to the equation's species, if
/// anything: a reactant's coefficient counts negatively, a product's
/// positively.
pub fn derive_part_from_reac(
    equation: &Equation,
    parts: &mut Vec<EquationPart>,
    reaction: &Reaction,
)
    ensures
        parts_view(final(parts)@) == match part_of(equation.species_id@, *reaction) {
            Some(p) => parts_view(old(parts)@).push(p),
            None => parts_view(old(parts)@),
        },
{
    let law = match &reaction.kinetic_law {
        Some(l) => l,
        None => return ,
    };
    let ghost before = parts@;
    match find_element_index(&reaction.reactants, &equation.species_id) {
        Some(k) => {
            let st = &reaction.reactants[k].stoichiometry;
            parts.push(
                EquationPart { negative: st.is_positive(), stoichiometry: st.abs(), equation: law.clone() },
            );
        },
        None => match find_element_index(&reaction.products, &equation.species_id) {
            Some(k) => {
                let st = &reaction.products[k].stoichiometry;
                parts.push(
                    EquationPart {
                        negative: st.is_negative(),
                        stoichiometry: st.abs(),
                        equation: law.clone(),
                    },
                );
            },
            None => {},
        },
    }
    assert(parts_view(parts@) =~= match part_of(equation.species_id@, *reaction) {
        Some(p) => parts_view(before).push(p),
        None => parts_view(before),
    });
}

/// The parts ordered by sign, stably: added ones first.
pub fn sort_parts(parts: Vec<EquationPart>) -> (r: Vec<EquationPart>)
    ensures
        parts_view(r@) == order_parts(parts_view(parts@)),
{
    let ghost orig = parts_view(parts@);
    let mut rest = parts;
    let mut pos: Vec<EquationPart> = Vec::new();
    let mut neg: Vec<EquationPart> = Vec::new();
    let n = rest.len();
    let mut i: usize = 0;
    while i < n
        invariant
            i <= n == orig.len(),
            rest@.len() == n - i,
            parts_view(rest@) == orig.skip(i as int),
            parts_view(pos@) == with_sign(orig.take(i as int), false),
            parts_view(neg@) == with_sign(orig.take(i as int), true),
        decreases n - i,
    {
        let ghost items_before = rest@;
        let p = rest.remove(0);
        proof {
            assert(p@ == parts_view(items_before)[0]);
            assert(orig.take(i + 1).drop_last() =~= orig.take(i as int));
            assert(orig.skip(i as int)[0] == orig[i as int]);
            assert forall|j: int| 0 <= j < rest@.len() implies parts_view(rest@)[j] == orig.skip(
                i + 1,
            )[j] by {
                assert(rest@[j] == items_before[j + 1]);
                assert(parts_view(items_before)[j + 1] == orig.skip(i as int)[j + 1]);
            }
            assert(parts_view(rest@) =~= orig.skip(i + 1));
        }
        if p.negative {
            let ghost before = neg@;
            neg.push(p);
            assert(parts_view(neg@) =~= parts_view(before).push(p@));
        } else {
            let ghost before = pos@;
            pos.push(p);
            assert(parts_view(pos@) =~= parts_view(before).push(p@));
        }
        i = i + 1;
    }
    assert(orig.take(n as int) =~= orig);
    let ghost pv = pos@;
    let ghost nv = neg@;
    pos.append(&mut neg);
    assert(parts_view(pos@) =~= parts_view(pv) + parts_view(nv));
    pos
}

/// Whether `s` holds a `+` or a `-`.
pub fn has_sign_char(s: &str) -> (r: bool)
    ensures
        r == (s@.contains('+') || s@.contains('-')),
{
    let n = s.unicode_len();
    let mut i: usize = 0;
    while i < n
        invariant
            i <= n == s@.len(),
            forall|j: int| 0 <= j < i ==> s@[j] != '+' && s@[j] != '-',
        decreases n - i,
    {
        let c = s.get_char(i);
        if c == '+' || c == '-' {
            return true;
        }
        i = i + 1;
    }
    false
}

/// Appends the text of one part: the first one, or a later one.
fn push_term(out: &mut String, part: &EquationPart, first: bool)
    ensures
        final(out)@ == old(out)@ + if first {
            first_term(part@)
        } else {
            next_term(part@)
        },
{
    proof {
        reveal_strlit("-");
        reveal_strlit(" - ");
        reveal_strlit(" + ");
        reveal_strlit(" * ");
        reveal_strlit("*");
        reveal_strlit("(");
        reveal_strlit(")");
    }
    let ghost before = out@;
    if first {
        if part.negative {
            out.append("-");
        }
    } else if part.negative {
        out.append(" - ");
    } else {
        out.append(" + ");
    }
    let ghost signed = out@;
    let unit = part.stoichiometry.is_unit();
    if !unit {
        out.append(part.stoichiometry.magnitude_str());
        if first {
            out.append(" * ");
        } else {
            out.append("*");
        }
    }
    let ghost scaled = out@;
    let law = part.equation.as_str();
    if has_sign_char(law) {
        out.append("(");
        out.append(law);
        out.append(")");
    } else {
        out.append(law);
    }
    proof {
        let sign = if first {
            if part.negative {
                seq!['-']
            } else {
                Seq::<char>::empty()
            }
        } else if part.negative {
            seq![' ', '-', ' ']
        } else {
            seq![' ', '+', ' ']
        };
        assert(signed =~= before + sign);
        assert(unit == is_unit_text(part@.coefficient));
        if unit {
            assert(scaled == signed);
        } else if first {
            assert(scaled =~= signed + part@.coefficient + seq![' ', '*', ' ']);
        } else {
            assert(scaled =~= signed + part@.coefficient + seq!['*']);
        }
        assert(out@ =~= scaled + law_term(part@.law));
        if first {
            assert(out@ =~= before + first_term(part@));
        } else {
            assert(out@ =~= before + next_term(part@));
        }
    }
}

/// The text of the sum of the parts, in order (see `assemble`).
pub fn assemble_equation(parts: &Vec<EquationPart>) -> (r: String)
    ensures
        r@ == assemble(parts_view(parts@)),
{
    let mut out = String::new();
    let mut i: usize = 0;
    while i < parts.len()
        invariant
            i <= parts@.len(),
            out@ == assemble(parts_view(parts@).take(i as int)),
        decreases parts@.len() - i,
    {
        let ghost before = out@;
        push_term(&mut out, &parts[i], i == 0);
        proof {
            let t = parts_view(parts@).take(i + 1);
            assert(t.drop_last() =~= parts_view(parts@).take(i as int));
            assert(t.last() == parts@[i as int]@);
            if i == 0 {
                assert(t[0] == parts@[0]@);
                assert(before =~= Seq::<char>::empty());
            }
        }
        i = i + 1;
    }
    assert(parts_view(parts@).take(i as int) =~= parts_view(parts@));
    out
}

/// The derived right-hand side for the equation's species.
pub fn derive_rhs(equation: &Equation, reactions: &Vec<Reaction>) -> (r: String)
    ensures
        r@ == derived_rhs(equation.species_id@, reactions@),
{
    let mut parts: Vec<EquationPart> = Vec::new();
    let mut k: usize = 0;
    while k < reactions.len()
        invariant
            k <= reactions@.len(),
            parts_view(parts@) == parts_for(equation.species_id@, reactions@.take(k as int)),
        decreases reactions@.len() - k,
    {
        assert(reactions@.take(k + 1).drop_last() =~= reactions@.take(k as int));
        assert(reactions@.take(k + 1).last() == reactions@[k as int]);
        if has_species_id(equation, &reactions[k]) {
            derive_part_from_reac(equation, &mut parts, &reactions[k]);
        }
        k = k + 1;
    }
    assert(reactions@.take(k as int) =~= reactions@);
    let ordered = sort_parts(parts);
    assemble_equation(&ordered)
}

/// Rewrites every ODE equation's text from the reactions (see
/// `derived_rhs`), then reconciles the parameters with the ODE equations
/// and retires those no equation uses.
///
/// Without reactions, or where a reaction has no rate expression, nothing
/// changes. Where an ODE equation's new text does not parse, its symbols
/// stay unreconciled, the others are processed all the same, and the result
/// is `InvalidExpression`.
pub fn derive_from_reactions(doc: &mut Document, param_buffer: &mut ParameterBuffer) -> (r: Result<
    (),
    ModelError,
>)
    requires
        old(param_buffer).wf(),
    ensures
        final(param_buffer).wf(),
        old(doc).reactions@.len() == 0 ==> r == Err::<(), ModelError>(ModelError::NoReactions)
            && *final(doc) == *old(doc) && final(param_buffer)@ == old(param_buffer)@,
        old(doc).reactions@.len() > 0 && !all_have_laws(old(doc).reactions@) ==> r == Err::<
            (),
            ModelError,
        >(ModelError::MissingKineticLaw) && *final(doc) == *old(doc) && final(param_buffer)@
            == old(param_buffer)@,
        old(doc).reactions@.len() > 0 && all_have_laws(old(doc).reactions@) ==> {
            &&& final(doc).small_molecules == old(doc).small_molecules
            &&& final(doc).proteins == old(doc).proteins
            &&& final(doc).complexes == old(doc).complexes
            &&& final(doc).reactions == old(doc).reactions
            &&& equations_view(final(doc).equations@) == equations_view(
                old(doc).equations@,
            ).map_values(|e: EquationView| derive_equation(e, old(doc).reactions@))
            &&& r == if odes_parse(equations_view(final(doc).equations@)) {
                Ok::<(), ModelError>(())
            } else {
                Err(ModelError::InvalidExpression)
            }
            &&& ({
                let (p, b) = process_all(
                    params_view(old(doc).parameters@),
                    old(param_buffer)@,
                    bound_vars(*final(doc)),
                    equations_view(final(doc).equations@),
                );
                &&& params_view(final(doc).parameters@) == kept(p, final(doc).equations@)
                &&& final(param_buffer)@ == retire_all(b, unused(p, final(doc).equations@))
            })
        },
{
    if doc.reactions.len() == 0 {
        return Err(ModelError::NoReactions);
    }
    let mut k: usize = 0;
    while k < doc.reactions.len()
        invariant
            k <= doc.reactions@.len(),
            *doc == *old(doc),
            *param_buffer == *old(param_buffer),
            param_buffer.wf(),
            forall|j: int| 0 <= j < k ==> (#[trigger] doc.reactions@[j]).kinetic_law.is_some(),
        decreases doc.reactions@.len() - k,
    {
        if doc.reactions[k].kinetic_law.is_none() {
            return Err(ModelError::MissingKineticLaw);
        }
        k = k + 1;
    }
    let ghost rs = doc.reactions@;
    let ghost eqs0 = doc.equations@;
    let n = doc.equations.len();
    let mut i: usize = 0;
    while i < n
        invariant
            i <= n == eqs0.len(),
            doc.reactions@ == rs,
            doc.small_molecules == old(doc).small_molecules,
            doc.proteins == old(doc).proteins,
            doc.complexes == old(doc).complexes,
            doc.reactions == old(doc).reactions,
            doc.parameters == old(doc).parameters,
            *param_buffer == *old(param_buffer),
            doc.equations@.len() == n,
            forall|j: int| 0 <= j < i ==> (#[trigger] doc.equations@[j])@ == derive_equation(eqs0[j]@, rs),
            forall|j: int| i <= j < n ==> #[trigger] doc.equations@[j] == eqs0[j],
        decreases n - i,
    {
        if doc.equations[i].equation_type == EquationType::Ode {
            let text = derive_rhs(&doc.equations[i], &doc.reactions);
            doc.equations[i].equation = text;
        }
        i = i + 1;
    }
    assert(equations_view(doc.equations@) =~= equations_view(eqs0).map_values(
        |e: EquationView| derive_equation(e, rs),
    ));
    let ghost derived = *doc;
    let ghost eqv = equations_view(doc.equations@);
    let mut failed = false;
    i = 0;
    while i < n
        invariant
            i <= n == eqv.len(),
            same_but_parameters(*doc, derived),
            eqv == equations_view(doc.equations@),
            param_buffer.wf(),
            (params_view(doc.parameters@), param_buffer@) == process_all(
                params_view(old(doc).parameters@),
                old(param_buffer)@,
                bound_vars(derived),
                eqv.take(i as int),
            ),
            failed == !odes_parse(eqv.take(i as int)),
        decreases n - i,
    {
        assert(eqv.take(i + 1).drop_last() =~= eqv.take(i as int));
        assert(eqv.take(i + 1).last() == doc.equations@[i as int]@);
        if doc.equations[i].equation_type == EquationType::Ode {
            let eq = Equation {
                species_id: doc.equations[i].species_id.clone(),
                equation: doc.equations[i].equation.clone(),
                equation_type: doc.equations[i].equation_type,
            };
            let ghost before = *doc;
            assert(bound_vars(before) == bound_vars(derived));
            if process_equation(doc, param_buffer, &eq).is_err() {
                failed = true;
            }
        }
        i = i + 1;
    }
    assert(eqv.take(n as int) =~= eqv);
    cleanup_parameters(doc, param_buffer);
    if failed {
        Err(ModelError::InvalidExpression)
    } else {
        Ok(())
    }
}

/// Whether `k` is the index of the first equation of `eqs` for species `s`.
pub open spec fn is_first_equation(eqs: Seq<Equation>, s: Seq<char>, k: int) -> bool {
    &&& 0 <= k < eqs.len()
    &&& eqs[k].species_id@ == s
    &&& forall|j: int| 0 <= j < k ==> (#[trigger] eqs[j]).species_id@ != s
}

/// The index of the first equation of `eqs` for species `s`, if any.
pub open spec fn find_equation_spec(eqs: Seq<Equation>, s: Seq<char>) -> Option<int> {
    if exists|k: int| is_first_equation(eqs, s, k) {
        Some(choose|k: int| is_first_equation(eqs, s, k))
    } else {
        None
    }
}

/// The index of the first equation for species `id`.
pub fn find_equation(eqs: &Vec<Equation>, id: &str) -> (r: Option<usize>)
    ensures
        match r {
            Some(k) => find_equation_spec(eqs@, id@) == Some(k as int),
            None => find_equation_spec(eqs@, id@).is_none(),
        },
        match r {
            Some(k) => k < eqs@.len() && eqs@[k as int].species_id@ == id@ && forall|j: int|
                0 <= j < k ==> (#[trigger] eqs@[j]).species_id@ != id@,
            None => forall|j: int| 0 <= j < eqs@.len() ==> (#[trigger] eqs@[j]).species_id@ != id@,
        },
{
    let mut i: usize = 0;
    while i < eqs.len()
        invariant
            i <= eqs@.len(),
            forall|j: int| 0 <= j < i ==> (#[trigger] eqs@[j]).species_id@ != id@,
        decreases eqs@.len() - i,
    {
        if same_text(eqs[i].species_id.as_str(), id) {
            proof {
                assert(is_first_equation(eqs@, id@, i as int));
                let c = choose|k: int| is_first_equation(eqs@, id@, k);
                if c < i {
                    assert(eqs@[c].species_id@ != id@);
                } else if c > i {
                    assert(eqs@[i as int].species_id@ != id@);
                }
            }
            return Some(i);
        }
        i = i + 1;
    }
    proof {
        if exists|k: int| is_first_equation(eqs@, id@, k) {
            let c = choose|k: int| is_first_equation(eqs@, id@, k);
            assert(eqs@[c].species_id@ != id@);
        }
    }
    None
}

/// The species and kind of every equation, in order.
pub fn list_equations(doc: &Document) -> (r: Vec<(String, EquationType)>)
    ensures
        r@.len() == doc.equations@.len(),
        forall|j: int|
            0 <= j < r@.len() ==> (#[trigger] r@[j]).0@ == doc.equations@[j].species_id@ && r@[j].1
                == doc.equations@[j].equation_type,
{
    let mut r: Vec<(String, EquationType)> = Vec::new();
    let mut i: usize = 0;
    while i < doc.equations.len()
        invariant
            i <= doc.equations@.len(),
            r@.len() == i,
            forall|j: int|
                0 <= j < i ==> (#[trigger] r@[j]).0@ == doc.equations@[j].species_id@ && r@[j].1
                    == doc.equations@[j].equation_type,
        decreases doc.equations@.len() - i,
    {
        let e = &doc.equations[i];
        r.push((e.species_id.clone(), e.equation_type));
        i = i + 1;
    }
    r
}

/// The first equation for species `id`.
pub fn get_equation<'a>(doc: &'a Document, id: &str) -> (r: Result<&'a Equation, ModelError>)
    ensures
        match r {
            Ok(e) => exists|k: int|
                0 <= k < doc.equations@.len() && doc.equations@[k] == *e && e.species_id@ == id@
                    && forall|j: int| 0 <= j < k ==> (#[trigger] doc.equations@[j]).species_id@ != id@,
            Err(err) => err == ModelError::NotFound && forall|j: int|
                0 <= j < doc.equations@.len() ==> (#[trigger] doc.equations@[j]).species_id@ != id@,
        },
{
    match find_equation(&doc.equations, id) {
        Some(k) => Ok(&doc.equations[k]),
        None => Err(ModelError::NotFound),
    }
}

/// Adds an empty assignment equation with no species yet.
pub fn create_equation(doc: &mut Document)
    ensures
        same_but_equations(*final(doc), *old(doc)),
        equations_view(final(doc).equations@) == equations_view(old(doc).equations@).push(
            EquationView {
                species_id: Seq::empty(),
                equation: Seq::empty(),
                equation_type: EquationType::Assignment,
            },
        ),
{
    let ghost before = doc.equations@;
    doc.equations.push(
        Equation {
            species_id: String::new(),
            equation: String::new(),
            equation_type: EquationType::Assignment,
        },
    );
    assert(equations_view(doc.equations@) =~= equations_view(before).push(doc.equations@.last()@));
}

/// Parameters and buffer after an edit of the equations to `eqs`: the
/// reconciled parameters, with those that no equation uses retired.
pub open spec fn after_cleanup(
    params: Seq<ParameterView>,
    buf: Seq<ParameterView>,
    eqs: Seq<Equation>,
) -> (Seq<ParameterView>, Seq<ParameterView>) {
    (kept(params, eqs), retire_all(buf, unused(params, eqs)))
}

/// Replaces the first equation for `data`'s species by `data`, gives its
/// symbols parameters and retires the parameters no equation uses. Where no
/// equation has that species nothing changes and the result is `NotFound`;
/// where the new text does not parse, the equation is replaced all the same,
/// only the retiring is done, and the result is `InvalidExpression`.
pub fn update_equation(
    doc: &mut Document,
    param_buffer: &mut ParameterBuffer,
    data: Equation,
) -> (r: Result<String, ModelError>)
    requires
        old(param_buffer).wf(),
    ensures
        final(param_buffer).wf(),
        match find_equation_spec(old(doc).equations@, data.species_id@) {
            None => r == Err::<String, ModelError>(ModelError::NotFound) && *final(doc) == *old(
                doc,
            ) && final(param_buffer)@ == old(param_buffer)@,
            Some(k) => {
                &&& final(doc).small_molecules == old(doc).small_molecules
                &&& final(doc).proteins == old(doc).proteins
                &&& final(doc).complexes == old(doc).complexes
                &&& final(doc).reactions == old(doc).reactions
                &&& final(doc).equations@ == old(doc).equations@.update(k, data)
                &&& match symbols_of(data.equation@) {
                    Some(syms) => {
                        let (p, b) = reconcile(
                            params_view(old(doc).parameters@),
                            old(param_buffer)@,
                            bound_vars(*final(doc)),
                            syms,
                        );
                        &&& r matches Ok(id) && id@ == data.species_id@
                        &&& (params_view(final(doc).parameters@), final(param_buffer)@) == after_cleanup(p, b, final(doc).equations@)
                    },
                    None => {
                        &&& r == Err::<String, ModelError>(ModelError::InvalidExpression)
                        &&& (params_view(final(doc).parameters@), final(param_buffer)@) == after_cleanup(
                            params_view(old(doc).parameters@),
                            old(param_buffer)@,
                            final(doc).equations@,
                        )
                    },
                }
            },
        },
{
    let k = match find_equation(&doc.equations, data.species_id.as_str()) {
        Some(k) => k,
        None => return Err(ModelError::NotFound),
    };
    let id = data.species_id.clone();
    let copy = Equation {
        species_id: data.species_id.clone(),
        equation: data.equation.clone(),
        equation_type: data.equation_type,
    };
    doc.equations.set(k, data);
    let outcome = process_equation(doc, param_buffer, &copy);
    cleanup_parameters(doc, param_buffer);
    match outcome {
        Ok(()) => Ok(id),
        Err(e) => Err(e),
    }
}

/// Removes the first equation for species `id`, if there is one, and retires
/// the parameters that no equation uses any more.
pub fn delete_equation(doc: &mut Document, param_buffer: &mut ParameterBuffer, id: &str)
    requires
        old(param_buffer).wf(),
    ensures
        final(param_buffer).wf(),
        final(doc).small_molecules == old(doc).small_molecules,
        final(doc).proteins == old(doc).proteins,
        final(doc).complexes == old(doc).complexes,
        final(doc).reactions == old(doc).reactions,
        final(doc).equations@ == match find_equation_spec(old(doc).equations@, id@) {
            Some(k) => old(doc).equations@.remove(k),
            None => old(doc).equations@,
        },
        (params_view(final(doc).parameters@), final(param_buffer)@) == after_cleanup(
            params_view(old(doc).parameters@),
            old(param_buffer)@,
            final(doc).equations@,
        ),
{
    match find_equation(&doc.equations, id) {
        Some(k) => {
            doc.equations.remove(k);
        },
        None => {},
    }
    cleanup_parameters(doc, param_buffer);
}

} // verus!
