//! Keeping the document's parameters in step with the symbols that its
//! equations use, and recalling retired parameters from a bounded buffer.

use vstd::prelude::*;
use crate::ids::{generate_id, is_first_free, PARAMETER_PREFIX};
use crate::numeral::Numeral;
use crate::text::same_text;
use crate::expression::{contains_string, free_symbols, strings_view, symbols_of};
use crate::model::{
    ModelError,
    same_but_parameters,
    extract_species_ids,
    fresh_parameter,
    params_view,
    species_ids,
    Document,
    Equation,
    EquationType,
    Parameter,
    ParameterView,
};

verus! {

/// How many retired parameters the buffer keeps.
pub const BUFFER_CAPACITY: usize = 10;

/// The buffer after `p` is retired into it: appended, and the oldest entry
/// dropped when more than the capacity are held.
pub open spec fn retire(buf: Seq<ParameterView>, p: ParameterView) -> Seq<ParameterView> {
    let b = buf.push(p);
    if b.len() > BUFFER_CAPACITY {
        b.drop_first()
    } else {
        b
    }
}

/// The buffer after each of `ps` is retired into it, in order.
pub open spec fn retire_all(buf: Seq<ParameterView>, ps: Seq<ParameterView>) -> Seq<
    ParameterView,
>
    decreases ps.len(),
{
    if ps.len() == 0 {
        buf
    } else {
        retire(retire_all(buf, ps.drop_last()), ps.last())
    }
}

/// The first parameter of `ps` with identifier `s`.
pub open spec fn find_id(ps: Seq<ParameterView>, s: Seq<char>) -> Option<ParameterView>
    decreases ps.len(),
{
    if ps.len() == 0 {
        None
    } else {
        match find_id(ps.drop_last(), s) {
            Some(p) => Some(p),
            None => if ps.last().id == s {
                Some(ps.last())
            } else {
                None
            },
        }
    }
}

/// `ps` without the parameters whose identifier is `s`.
pub open spec fn forget(ps: Seq<ParameterView>, s: Seq<char>) -> Seq<ParameterView>
    decreases ps.len(),
{
    if ps.len() == 0 {
        ps
    } else if ps.last().id == s {
        forget(ps.drop_last(), s)
    } else {
        forget(ps.drop_last(), s).push(ps.last())
    }
}

/// The parameter that symbol `s` gets: the buffer's first one with that
/// identifier, else a fresh one.
pub open spec fn recall(buf: Seq<ParameterView>, s: Seq<char>) -> ParameterView {
    match find_id(buf, s) {
        Some(p) => p,
        None => fresh_parameter(s),
    }
}

pub open spec fn has_id(ps: Seq<ParameterView>, s: Seq<char>) -> bool {
    exists|i: int| 0 <= i < ps.len() && (#[trigger] ps[i]).id == s
}

/// Live parameters and buffer after each of `syms` has been given a
/// parameter, unless it is bound or already has one.
pub open spec fn reconcile(
    params: Seq<ParameterView>,
    buf: Seq<ParameterView>,
    bound: Seq<Seq<char>>,
    syms: Seq<Seq<char>>,
) -> (Seq<ParameterView>, Seq<ParameterView>)
    decreases syms.len(),
{
    if syms.len() == 0 {
        (params, buf)
    } else {
        let (p, b) = reconcile(params, buf, bound, syms.drop_last());
        let s = syms.last();
        if bound.contains(s) || has_id(p, s) {
            (p, b)
        } else {
            (p.push(recall(b, s)), forget(b, s))
        }
    }
}

/// The species of the assignment and initial assignment equations of
/// `eqs`, in order.
pub open spec fn assigned_ids(eqs: Seq<Equation>) -> Seq<Seq<char>>
    decreases eqs.len(),
{
    if eqs.len() == 0 {
        Seq::empty()
    } else {
        let prev = assigned_ids(eqs.drop_last());
        let e = eqs.last();
        if e.equation_type == EquationType::Assignment || e.equation_type
            == EquationType::InitialAssignment {
            prev.push(e.species_id@)
        } else {
            prev
        }
    }
}

/// Symbols that never become parameters: species identifiers and the
/// species of assignment equations.
pub open spec fn bound_vars(doc: Document) -> Seq<Seq<char>> {
    species_ids(doc) + assigned_ids(doc.equations@)
}

/// The symbols of the equations of `eqs`, equation by equation; one whose
/// text does not parse contributes none.
pub open spec fn used_symbols(eqs: Seq<Equation>) -> Seq<Seq<char>>
    decreases eqs.len(),
{
    if eqs.len() == 0 {
        Seq::empty()
    } else {
        match symbols_of(eqs.last().equation@) {
            Some(syms) => used_symbols(eqs.drop_last()) + syms,
            None => used_symbols(eqs.drop_last()),
        }
    }
}

/// The parameters of `ps` whose identifier is used, in order.
pub open spec fn kept(ps: Seq<ParameterView>, eqs: Seq<Equation>) -> Seq<ParameterView>
    decreases ps.len(),
{
    if ps.len() == 0 {
        ps
    } else if used_symbols(eqs).contains(ps.last().id) {
        kept(ps.drop_last(), eqs).push(ps.last())
    } else {
        kept(ps.drop_last(), eqs)
    }
}

/// The parameters of `ps` whose identifier is not used, in order.
pub open spec fn unused(ps: Seq<ParameterView>, eqs: Seq<Equation>) -> Seq<ParameterView>
    decreases ps.len(),
{
    if ps.len() == 0 {
        ps
    } else if used_symbols(eqs).contains(ps.last().id) {
        unused(ps.drop_last(), eqs)
    } else {
        unused(ps.drop_last(), eqs).push(ps.last())
    }
}

/// Retired parameters, oldest first, at most `BUFFER_CAPACITY` of them.
#[derive(Debug)]
pub struct ParameterBuffer {
    pub(crate) items: Vec<Parameter>,
}

impl View for ParameterBuffer {
    type V = Seq<ParameterView>;

    open(crate) spec fn view(&self) -> Seq<ParameterView> {
        params_view(self.items@)
    }
}

impl ParameterBuffer {
    pub open(crate) spec fn wf(&self) -> bool {
        self.items@.len() <= BUFFER_CAPACITY
    }

    /// An empty buffer.
    pub fn new() -> (r: ParameterBuffer)
        ensures
            r.wf(),
            r@.len() == 0,
    {
        ParameterBuffer { items: Vec::new() }
    }

    pub fn len(&self) -> (r: usize)
        ensures
            r == self@.len(),
    {
        self.items.len()
    }

    /// The identifiers held, oldest first.
    pub fn ids(&self) -> (r: Vec<String>)
        ensures
            strings_view(r@) == self@.map_values(|p: ParameterView| p.id),
    {
        let mut r: Vec<String> = Vec::new();
        let mut i: usize = 0;
        while i < self.items.len()
            invariant
                i <= self.items@.len(),
                strings_view(r@) =~= self@.take(i as int).map_values(|p: ParameterView| p.id),
            decreases self.items@.len() - i,
        {
            let ghost before = r@;
            r.push(self.items[i].id.clone());
            assert(strings_view(r@) =~= strings_view(before).push(self@[i as int].id));
            assert(self@.take(i + 1) =~= self@.take(i as int).push(self@[i as int]));
            i = i + 1;
        }
        r
    }

    /// The held parameter with identifier `id`, if any (the oldest one).
    pub fn get(&self, id: &String) -> (r: Option<&Parameter>)
        ensures
            match r {
                Some(p) => find_id(self@, id@) == Some(p@),
                None => find_id(self@, id@).is_none(),
            },
    {
        let mut i: usize = 0;
        while i < self.items.len()
            invariant
                i <= self.items@.len(),
                find_id(self@.take(i as int), id@).is_none(),
            decreases self.items@.len() - i,
        {
            assert(self@.take(i + 1).drop_last() =~= self@.take(i as int));
            if self.items[i].id == *id {
                proof {
                    lemma_find_id_extends(self@, id@, i + 1);
                }
                return Some(&self.items[i]);
            }
            i = i + 1;
        }
        assert(self@.take(i as int) =~= self@);
        None
    }

    /// Drops every parameter with identifier `s`.
    pub fn forget_id(&mut self, s: &String)
        requires
            old(self).wf(),
        ensures
            final(self).wf(),
            final(self)@ == forget(old(self)@, s@),
    {
        let ghost orig = self@;
        let mut rest: Vec<Parameter> = Vec::new();
        let mut i: usize = 0;
        let n = self.items.len();
        while i < n
            invariant
                i <= n == orig.len(),
                n <= BUFFER_CAPACITY,
                self.items@.len() == n - i,
                self@ == orig.skip(i as int),
                params_view(rest@) == forget(orig.take(i as int), s@),
            decreases n - i,
        {
            let ghost items_before = self.items@;
            let p = self.items.remove(0);
            proof {
                assert(p@ == params_view(items_before)[0]);
                assert(orig.take(i + 1).drop_last() =~= orig.take(i as int));
                assert(orig.skip(i as int)[0] == orig[i as int]);
                assert forall|j: int| 0 <= j < self.items@.len() implies self@[j] == orig.skip(
                    i + 1,
                )[j] by {
                    assert(self.items@[j] == items_before[j + 1]);
                    assert(params_view(items_before)[j + 1] == orig.skip(i as int)[j + 1]);
                }
                assert(self@ =~= orig.skip(i + 1));
            }
            if p.id != *s {
                let ghost before = rest@;
                rest.push(p);
                assert(params_view(rest@) =~= params_view(before).push(p@));
            }
            i = i + 1;
        }
        assert(orig.take(n as int) =~= orig);
        proof {
            lemma_forget_len(orig, s@);
        }
        self.items = rest;
    }
}

/// Retires `param` into the buffer, dropping the oldest entry when the
/// buffer would exceed its capacity.
pub fn move_to_param_buffer(param_buffer: &mut ParameterBuffer, param: Parameter)
    requires
        old(param_buffer).wf(),
    ensures
        final(param_buffer).wf(),
        final(param_buffer)@ == retire(old(param_buffer)@, param@),
{
    let ghost p = param@;
    param_buffer.items.push(param);
    if param_buffer.items.len() > BUFFER_CAPACITY {
        param_buffer.items.remove(0);
    }
    assert(param_buffer@ =~= retire(old(param_buffer)@, p));
}

/// The parameter for `symbol`: a copy of the buffer's first one with that
/// identifier, with all its values, else a fresh one. The buffer is left as
/// it is.
pub fn create_or_from_buffer(param_buffer: &ParameterBuffer, symbol: &String) -> (r: Parameter)
    ensures
        r@ == recall(param_buffer@, symbol@),
{
    match param_buffer.get(symbol) {
        Some(p) => p.duplicate(),
        None => Parameter::new(symbol),
    }
}

/// Whether a parameter of `params` has identifier `s`.
pub fn has_parameter(params: &Vec<Parameter>, s: &String) -> (r: bool)
    ensures
        r == has_id(params_view(params@), s@),
{
    let mut i: usize = 0;
    while i < params.len()
        invariant
            i <= params@.len(),
            forall|j: int| 0 <= j < i ==> params@[j].id@ != s@,
        decreases params@.len() - i,
    {
        if params[i].id == *s {
            assert(params_view(params@)[i as int].id == s@);
            return true;
        }
        i = i + 1;
    }
    proof {
        if has_id(params_view(params@), s@) {
            let k = choose|k: int|
                0 <= k < params_view(params@).len() && (#[trigger] params_view(params@)[k]).id
                    == s@;
            assert(params@[k].id@ == s@);
        }
    }
    false
}

/// The symbols that never become parameters: species identifiers and the
/// species of assignment and initial assignment equations.
pub fn extract_variables(doc: &Document) -> (r: Vec<String>)
    ensures
        strings_view(r@) == bound_vars(*doc),
{
    let mut vars = extract_species_ids(doc);
    let mut i: usize = 0;
    while i < doc.equations.len()
        invariant
            i <= doc.equations@.len(),
            strings_view(vars@) == species_ids(*doc) + assigned_ids(doc.equations@.take(i as int)),
        decreases doc.equations@.len() - i,
    {
        let e = &doc.equations[i];
        let ghost before = vars@;
        assert(doc.equations@.take(i + 1).drop_last() =~= doc.equations@.take(i as int));
        if e.equation_type == EquationType::Assignment || e.equation_type
            == EquationType::InitialAssignment {
            vars.push(e.species_id.clone());
            assert(strings_view(vars@) =~= strings_view(before).push(e.species_id@));
        }
        i = i + 1;
    }
    assert(doc.equations@.take(i as int) =~= doc.equations@);
    vars
}

/// Gives each free symbol of `text` a parameter, unless it is bound or
/// already has one.
pub(crate) fn reconcile_text(doc: &mut Document, param_buffer: &mut ParameterBuffer, text: &String) -> (r:
    Result<(), ModelError>)
    requires
        old(param_buffer).wf(),
    ensures
        final(param_buffer).wf(),
        same_but_parameters(*final(doc), *old(doc)),
        match symbols_of(text@) {
            Some(syms) => r is Ok && (params_view(final(doc).parameters@), final(param_buffer)@)
                == reconcile(
                params_view(old(doc).parameters@),
                old(param_buffer)@,
                bound_vars(*old(doc)),
                syms,
            ),
            None => r == Err::<(), ModelError>(ModelError::InvalidExpression)
                && final(doc).parameters == old(doc).parameters && final(param_buffer)@ == old(
                param_buffer,
            )@,
        },
{
    let syms = match free_symbols(text.as_str()) {
        Some(v) => v,
        None => return Err(ModelError::InvalidExpression),
    };
    let vars = extract_variables(doc);
    let ghost bound = bound_vars(*doc);
    let ghost start = params_view(doc.parameters@);
    let ghost buf0 = param_buffer@;
    let mut i: usize = 0;
    while i < syms.len()
        invariant
            i <= syms@.len(),
            strings_view(vars@) == bound,
            param_buffer.wf(),
            same_but_parameters(*doc, *old(doc)),
            (params_view(doc.parameters@), param_buffer@) == reconcile(
                start,
                buf0,
                bound,
                strings_view(syms@).take(i as int),
            ),
        decreases syms@.len() - i,
    {
        let s = &syms[i];
        assert(strings_view(syms@).take(i + 1).drop_last() =~= strings_view(syms@).take(i as int));
        assert(strings_view(syms@).take(i + 1).last() == s@);
        if !contains_string(&vars, s) && !has_parameter(&doc.parameters, s) {
            let p = create_or_from_buffer(param_buffer, s);
            let ghost before = doc.parameters@;
            doc.parameters.push(p);
            assert(params_view(doc.parameters@) =~= params_view(before).push(p@));
            param_buffer.forget_id(s);
        }
        i = i + 1;
    }
    assert(strings_view(syms@).take(i as int) =~= strings_view(syms@));
    Ok(())
}

/// Gives each free symbol of the equation a parameter, unless it is a
/// species, the species of an assignment equation, or already a parameter.
/// The parameter comes from the buffer where it holds one with that
/// identifier, and is fresh otherwise.
pub fn process_equation(
    doc: &mut Document,
    param_buffer: &mut ParameterBuffer,
    equation: &Equation,
) -> (r: Result<(), ModelError>)
    requires
        old(param_buffer).wf(),
    ensures
        final(param_buffer).wf(),
        same_but_parameters(*final(doc), *old(doc)),
        match symbols_of(equation.equation@) {
            Some(syms) => r is Ok && (params_view(final(doc).parameters@), final(param_buffer)@)
                == reconcile(
                params_view(old(doc).parameters@),
                old(param_buffer)@,
                bound_vars(*old(doc)),
                syms,
            ),
            None => r == Err::<(), ModelError>(ModelError::InvalidExpression)
                && final(doc).parameters == old(doc).parameters && final(param_buffer)@ == old(
                param_buffer,
            )@,
        },
{
    reconcile_text(doc, param_buffer, &equation.equation)
}

/// The symbols of all equations, equation by equation; an equation whose
/// text does not parse contributes none.
pub fn extract_all_symbols(doc: &Document) -> (r: Vec<String>)
    ensures
        strings_view(r@) == used_symbols(doc.equations@),
{
    let mut symbols: Vec<String> = Vec::new();
    let mut i: usize = 0;
    while i < doc.equations.len()
        invariant
            i <= doc.equations@.len(),
            strings_view(symbols@) == used_symbols(doc.equations@.take(i as int)),
        decreases doc.equations@.len() - i,
    {
        assert(doc.equations@.take(i + 1).drop_last() =~= doc.equations@.take(i as int));
        assert(doc.equations@.take(i + 1).last() == doc.equations@[i as int]);
        match free_symbols(doc.equations[i].equation.as_str()) {
            Some(v) => {
                let ghost before = symbols@;
                let mut v = v;
                let ghost vs = v@;
                symbols.append(&mut v);
                assert(strings_view(symbols@) =~= strings_view(before) + strings_view(vs));
            },
            None => {},
        }
        i = i + 1;
    }
    assert(doc.equations@.take(i as int) =~= doc.equations@);
    symbols
}

/// Retires every live parameter that no equation uses: it leaves the
/// document and enters the buffer, in order.
pub fn cleanup_parameters(doc: &mut Document, param_buffer: &mut ParameterBuffer)
    requires
        old(param_buffer).wf(),
    ensures
        final(param_buffer).wf(),
        same_but_parameters(*final(doc), *old(doc)),
        params_view(final(doc).parameters@) == kept(
            params_view(old(doc).parameters@),
            old(doc).equations@,
        ),
        final(param_buffer)@ == retire_all(
            old(param_buffer)@,
            unused(params_view(old(doc).parameters@), old(doc).equations@),
        ),
{
    let symbols = extract_all_symbols(doc);
    let ghost orig = params_view(doc.parameters@);
    let ghost eqs = doc.equations@;
    let ghost buf0 = param_buffer@;
    let n = doc.parameters.len();
    let mut keep: Vec<Parameter> = Vec::new();
    let mut i: usize = 0;
    while i < n
        invariant
            i <= n == orig.len(),
            eqs == doc.equations@,
            strings_view(symbols@) == used_symbols(eqs),
            same_but_parameters(*doc, *old(doc)),
            param_buffer.wf(),
            doc.parameters@.len() == n - i,
            params_view(doc.parameters@) == orig.skip(i as int),
            params_view(keep@) == kept(orig.take(i as int), eqs),
            param_buffer@ == retire_all(buf0, unused(orig.take(i as int), eqs)),
        decreases n - i,
    {
        let ghost items_before = doc.parameters@;
        let p = doc.parameters.remove(0);
        proof {
            assert(p@ == params_view(items_before)[0]);
            assert(orig.take(i + 1).drop_last() =~= orig.take(i as int));
            assert(orig.skip(i as int)[0] == orig[i as int]);
            assert forall|j: int| 0 <= j < doc.parameters@.len() implies params_view(
                doc.parameters@,
            )[j] == orig.skip(i + 1)[j] by {
                assert(doc.parameters@[j] == items_before[j + 1]);
                assert(params_view(items_before)[j + 1] == orig.skip(i as int)[j + 1]);
            }
            assert(params_view(doc.parameters@) =~= orig.skip(i + 1));
        }
        if contains_string(&symbols, &p.id) {
            let ghost before = keep@;
            keep.push(p);
            assert(params_view(keep@) =~= params_view(before).push(p@));
        } else {
            let ghost u = unused(orig.take(i as int), eqs);
            assert(unused(orig.take(i + 1), eqs) == u.push(p@));
            assert(unused(orig.take(i + 1), eqs).drop_last() =~= u);
            move_to_param_buffer(param_buffer, p);
        }
        i = i + 1;
    }
    assert(orig.take(n as int) =~= orig);
    doc.parameters = keep;
}

/// Whether `k` is the index of the first parameter of `ps` with identifier `s`.
pub open spec fn is_first_parameter(ps: Seq<Parameter>, s: Seq<char>, k: int) -> bool {
    &&& 0 <= k < ps.len()
    &&& ps[k].id@ == s
    &&& forall|j: int| 0 <= j < k ==> (#[trigger] ps[j]).id@ != s
}

/// The index of the first parameter of `ps` with identifier `s`, if any.
pub open spec fn find_parameter_spec(ps: Seq<Parameter>, s: Seq<char>) -> Option<int> {
    if exists|k: int| is_first_parameter(ps, s, k) {
        Some(choose|k: int| is_first_parameter(ps, s, k))
    } else {
        None
    }
}

/// The index of the first parameter with identifier `id`.
pub fn find_parameter(ps: &Vec<Parameter>, id: &str) -> (r: Option<usize>)
    ensures
        match r {
            Some(k) => find_parameter_spec(ps@, id@) == Some(k as int),
            None => find_parameter_spec(ps@, id@).is_none(),
        },
{
    let mut i: usize = 0;
    while i < ps.len()
        invariant
            i <= ps@.len(),
            forall|j: int| 0 <= j < i ==> (#[trigger] ps@[j]).id@ != id@,
        decreases ps@.len() - i,
    {
        if same_text(ps[i].id.as_str(), id) {
            proof {
                assert(is_first_parameter(ps@, id@, i as int));
                let c = choose|k: int| is_first_parameter(ps@, id@, k);
                if c < i {
                    assert(ps@[c].id@ != id@);
                } else if c > i {
                    assert(ps@[i as int].id@ != id@);
                }
            }
            return Some(i);
        }
        i = i + 1;
    }
    proof {
        if exists|k: int| is_first_parameter(ps@, id@, k) {
            let c = choose|k: int| is_first_parameter(ps@, id@, k);
            assert(ps@[c].id@ != id@);
        }
    }
    None
}

/// The identifier and name of every parameter, in order.
pub fn list_parameters(doc: &Document) -> (r: Vec<(String, String)>)
    ensures
        r@.len() == doc.parameters@.len(),
        forall|j: int|
            0 <= j < r@.len() ==> (#[trigger] r@[j]).0@ == doc.parameters@[j].id@ && r@[j].1@
                == doc.parameters@[j].name@,
{
    let mut r: Vec<(String, String)> = Vec::new();
    let mut i: usize = 0;
    while i < doc.parameters.len()
        invariant
            i <= doc.parameters@.len(),
            r@.len() == i,
            forall|j: int|
                0 <= j < i ==> (#[trigger] r@[j]).0@ == doc.parameters@[j].id@ && r@[j].1@
                    == doc.parameters@[j].name@,
        decreases doc.parameters@.len() - i,
    {
        let x = &doc.parameters[i];
        r.push((x.id.clone(), x.name.clone()));
        i = i + 1;
    }
    r
}

/// Adds a parameter named `New Parameter`, with an empty symbol and no
/// number set, under a fresh identifier (`q` and the first free number),
/// which it returns.
pub fn create_parameter(doc: &mut Document) -> (r: String)
    requires
        old(doc).parameters@.len() < usize::MAX,
    ensures
        is_first_free(
            params_view(old(doc).parameters@).map_values(|p: ParameterView| p.id),
            PARAMETER_PREFIX@,
            r@,
        ),
        params_view(final(doc).parameters@) == params_view(old(doc).parameters@).push(
            ParameterView {
                id: r@,
                name: "New Parameter"@,
                symbol: Seq::empty(),
                value: None,
                initial_value: None,
                lower_bound: None,
                upper_bound: None,
            },
        ),
        same_but_parameters(*final(doc), *old(doc)),
{
    let ids = parameter_ids(&doc.parameters);
    let id = generate_id(&ids, PARAMETER_PREFIX);
    let ghost before = doc.parameters@;
    doc.parameters.push(
        Parameter {
            id: id.clone(),
            name: "New Parameter".to_string(),
            symbol: String::new(),
            value: None,
            initial_value: None,
            lower_bound: None,
            upper_bound: None,
        },
    );
    assert(params_view(doc.parameters@) =~= params_view(before).push(doc.parameters@.last()@));
    id
}

/// The identifiers of the parameters, in order.
pub fn parameter_ids(ps: &Vec<Parameter>) -> (r: Vec<String>)
    ensures
        r@.len() == ps@.len(),
        strings_view(r@) == params_view(ps@).map_values(|p: ParameterView| p.id),
{
    let mut r: Vec<String> = Vec::new();
    let mut i: usize = 0;
    while i < ps.len()
        invariant
            i <= ps@.len(),
            r@.len() == i,
            strings_view(r@) =~= params_view(ps@.take(i as int)).map_values(|p: ParameterView| p.id),
        decreases ps@.len() - i,
    {
        let ghost before = r@;
        r.push(ps[i].id.clone());
        assert(strings_view(r@) =~= strings_view(before).push(ps@[i as int].id@));
        assert(ps@.take(i + 1) =~= ps@.take(i as int).push(ps@[i as int]));
        i = i + 1;
    }
    assert(ps@.take(i as int) =~= ps@);
    r
}

/// The first parameter with identifier `id`.
pub fn get_parameter<'a>(doc: &'a Document, id: &str) -> (r: Result<&'a Parameter, ModelError>)
    ensures
        match find_parameter_spec(doc.parameters@, id@) {
            Some(k) => r == Ok::<&Parameter, ModelError>(&doc.parameters@[k]),
            None => r == Err::<&Parameter, ModelError>(ModelError::NotFound),
        },
{
    match find_parameter(&doc.parameters, id) {
        Some(k) => Ok(&doc.parameters[k]),
        None => Err(ModelError::NotFound),
    }
}

/// Replaces the first parameter with `data`'s identifier by `data`, and
/// returns that identifier; `NotFound`, with nothing changed, where there is
/// none.
pub fn update_parameter(doc: &mut Document, data: Parameter) -> (r: Result<String, ModelError>)
    ensures
        match find_parameter_spec(old(doc).parameters@, data.id@) {
            Some(k) => r matches Ok(id) && id@ == data.id@ && final(doc).parameters@ == old(
                doc,
            ).parameters@.update(k, data) && same_but_parameters(*final(doc), *old(doc)),
            None => r == Err::<String, ModelError>(ModelError::NotFound) && *final(doc) == *old(doc),
        },
{
    match find_parameter(&doc.parameters, data.id.as_str()) {
        Some(k) => {
            let id = data.id.clone();
            doc.parameters.set(k, data);
            Ok(id)
        },
        None => Err(ModelError::NotFound),
    }
}

/// A numeric field of a parameter.
#[derive(PartialEq, Eq, Structural, Clone, Copy, Debug)]
pub enum ParameterField {
    Value,
    InitialValue,
    UpperBound,
    LowerBound,
}

/// The field that a key names: `value`, `initial_value`, `upper_bound` or
/// `lower_bound`.
pub open spec fn field_named(key: Seq<char>) -> Option<ParameterField> {
    if key == "value"@ {
        Some(ParameterField::Value)
    } else if key == "initial_value"@ {
        Some(ParameterField::InitialValue)
    } else if key == "upper_bound"@ {
        Some(ParameterField::UpperBound)
    } else if key == "lower_bound"@ {
        Some(ParameterField::LowerBound)
    } else {
        None
    }
}

/// `p` with field `f` set to `v`.
pub open spec fn with_field(p: ParameterView, f: ParameterField, v: Seq<char>) -> ParameterView {
    match f {
        ParameterField::Value => ParameterView { value: Some(v), ..p },
        ParameterField::InitialValue => ParameterView { initial_value: Some(v), ..p },
        ParameterField::UpperBound => ParameterView { upper_bound: Some(v), ..p },
        ParameterField::LowerBound => ParameterView { lower_bound: Some(v), ..p },
    }
}

/// Sets the field named `key` of the first parameter with identifier `pid`
/// to `value`. `NotFound` where no parameter has that identifier,
/// `InvalidKey` where the key names no field; nothing changes then.
pub fn partial_update_parameter(doc: &mut Document, pid: &str, key: &str, value: Numeral) -> (r:
    Result<(), ModelError>)
    ensures
        match find_parameter_spec(old(doc).parameters@, pid@) {
            None => r == Err::<(), ModelError>(ModelError::NotFound) && *final(doc) == *old(doc),
            Some(k) => match field_named(key@) {
                None => r == Err::<(), ModelError>(ModelError::InvalidKey) && *final(doc) == *old(
                    doc,
                ),
                Some(f) => r is Ok && params_view(final(doc).parameters@) == params_view(
                    old(doc).parameters@,
                ).update(k, with_field(old(doc).parameters@[k]@, f, value@)) && same_but_parameters(
                    *final(doc),
                    *old(doc),
                ),
            },
        },
{
    let k = match find_parameter(&doc.parameters, pid) {
        Some(k) => k,
        None => return Err(ModelError::NotFound),
    };
    let ghost before = doc.parameters@;
    if same_text(key, "value") {
        doc.parameters[k].value = Some(value);
    } else if same_text(key, "initial_value") {
        doc.parameters[k].initial_value = Some(value);
    } else if same_text(key, "upper_bound") {
        doc.parameters[k].upper_bound = Some(value);
    } else if same_text(key, "lower_bound") {
        doc.parameters[k].lower_bound = Some(value);
    } else {
        return Err(ModelError::InvalidKey);
    }
    assert(params_view(doc.parameters@) =~= params_view(before).update(
        k as int,
        with_field(before[k as int]@, field_named(key@).unwrap(), value@),
    ));
    Ok(())
}

/// Removes the first parameter with identifier `id`, if there is one.
pub fn delete_parameter(doc: &mut Document, id: &str)
    ensures
        final(doc).parameters@ == match find_parameter_spec(old(doc).parameters@, id@) {
            Some(k) => old(doc).parameters@.remove(k),
            None => old(doc).parameters@,
        },
        same_but_parameters(*final(doc), *old(doc)),
{
    match find_parameter(&doc.parameters, id) {
        Some(k) => {
            doc.parameters.remove(k);
        },
        None => {},
    }
}

/// Retiring parameters one after another into a buffer of at most
/// `BUFFER_CAPACITY` entries leaves the most recent `BUFFER_CAPACITY` of
/// the old entries followed by the retired ones; the oldest are evicted.
pub proof fn lemma_retire_keeps_most_recent(buf: Seq<ParameterView>, ps: Seq<ParameterView>)
    requires
        buf.len() <= BUFFER_CAPACITY,
    ensures
        retire_all(buf, ps) == (buf + ps).skip(
            if buf.len() + ps.len() > BUFFER_CAPACITY {
                buf.len() + ps.len() - BUFFER_CAPACITY
            } else {
                0
            },
        ),
        retire_all(buf, ps).len() <= BUFFER_CAPACITY,
    decreases ps.len(),
{
    let cap = BUFFER_CAPACITY as int;
    let all = buf + ps;
    let l = buf.len() + ps.len();
    if ps.len() == 0 {
        assert(all =~= buf);
        assert(all.skip(0) =~= all);
    } else {
        lemma_retire_keeps_most_recent(buf, ps.drop_last());
        let prev_all = buf + ps.drop_last();
        let m = if l - 1 > cap {
            l - 1 - cap
        } else {
            0
        };
        let r = prev_all.skip(m);
        assert(all =~= prev_all.push(ps.last()));
        let pushed = r.push(ps.last());
        if pushed.len() > cap {
            assert(pushed.drop_first() =~= all.skip(l - cap));
        } else {
            assert(pushed =~= all.skip(0));
        }
    }
}

/// Whether each symbol of `syms` is bound or has a parameter in `params`.
pub open spec fn covered(params: Seq<ParameterView>, bound: Seq<Seq<char>>, syms: Seq<Seq<char>>) -> bool {
    forall|k: int| 0 <= k < syms.len() ==> bound.contains(#[trigger] syms[k]) || has_id(params, syms[k])
}

proof fn lemma_find_id_has_id(ps: Seq<ParameterView>, s: Seq<char>)
    ensures
        find_id(ps, s) matches Some(p) ==> p.id == s,
    decreases ps.len(),
{
    if ps.len() > 0 {
        lemma_find_id_has_id(ps.drop_last(), s);
    }
}

/// After reconciling, every symbol is bound or has a live parameter, and no
/// parameter that was live before is lost.
pub proof fn lemma_reconcile_covers(
    params: Seq<ParameterView>,
    buf: Seq<ParameterView>,
    bound: Seq<Seq<char>>,
    syms: Seq<Seq<char>>,
)
    ensures
        covered(reconcile(params, buf, bound, syms).0, bound, syms),
        forall|s: Seq<char>| has_id(params, s) ==> has_id(reconcile(params, buf, bound, syms).0, s),
    decreases syms.len(),
{
    if syms.len() > 0 {
        let prev = syms.drop_last();
        lemma_reconcile_covers(params, buf, bound, prev);
        let (p, b) = reconcile(params, buf, bound, prev);
        let s = syms.last();
        let p_next = reconcile(params, buf, bound, syms).0;
        if !(bound.contains(s) || has_id(p, s)) {
            lemma_find_id_has_id(b, s);
            assert(p_next == p.push(recall(b, s)));
            assert(p_next[p.len() as int].id == s);
            assert forall|t: Seq<char>| has_id(p, t) implies has_id(p_next, t) by {
                let i = choose|i: int| 0 <= i < p.len() && (#[trigger] p[i]).id == t;
                assert(p_next[i] == p[i]);
            }
        }
        assert forall|k: int| 0 <= k < syms.len() implies bound.contains(#[trigger] syms[k])
            || has_id(p_next, syms[k]) by {
            if k < prev.len() {
                assert(prev[k] == syms[k]);
            }
        }
    }
}

proof fn lemma_reconcile_stable(
    params: Seq<ParameterView>,
    buf: Seq<ParameterView>,
    bound: Seq<Seq<char>>,
    syms: Seq<Seq<char>>,
)
    requires
        covered(params, bound, syms),
    ensures
        reconcile(params, buf, bound, syms) == (params, buf),
    decreases syms.len(),
{
    if syms.len() > 0 {
        let prev = syms.drop_last();
        assert forall|k: int| 0 <= k < prev.len() implies bound.contains(#[trigger] prev[k])
            || has_id(params, prev[k]) by {
            assert(prev[k] == syms[k]);
        }
        lemma_reconcile_stable(params, buf, bound, prev);
        assert(syms[syms.len() - 1] == syms.last());
    }
}

/// Reconciling the same symbols a second time, with nothing changed in
/// between, leaves parameters and buffer as the first time left them: once
/// reconciled, every symbol is bound or has a parameter.
pub proof fn lemma_reconcile_idempotent(
    params: Seq<ParameterView>,
    buf: Seq<ParameterView>,
    bound: Seq<Seq<char>>,
    syms: Seq<Seq<char>>,
)
    ensures
        ({
            let (p, b) = reconcile(params, buf, bound, syms);
            reconcile(p, b, bound, syms) == (p, b)
        }),
{
    lemma_reconcile_covers(params, buf, bound, syms);
    let (p, b) = reconcile(params, buf, bound, syms);
    lemma_reconcile_stable(p, b, bound, syms);
}

proof fn lemma_find_id_none(ps: Seq<ParameterView>, s: Seq<char>)
    ensures
        find_id(ps, s).is_none() <==> forall|i: int| 0 <= i < ps.len() ==> (#[trigger] ps[i]).id != s,
    decreases ps.len(),
{
    if ps.len() > 0 {
        lemma_find_id_none(ps.drop_last(), s);
        if find_id(ps, s).is_none() {
            assert forall|i: int| 0 <= i < ps.len() implies (#[trigger] ps[i]).id != s by {
                if i < ps.len() - 1 {
                    assert(ps.drop_last()[i] == ps[i]);
                }
            }
        }
        if forall|i: int| 0 <= i < ps.len() ==> (#[trigger] ps[i]).id != s {
            assert forall|i: int| 0 <= i < ps.drop_last().len() implies (
            #[trigger] ps.drop_last()[i]).id != s by {
                assert(ps.drop_last()[i] == ps[i]);
            }
            assert(ps[ps.len() - 1].id != s);
        }
    }
}

proof fn lemma_forget_keeps_others(ps: Seq<ParameterView>, s: Seq<char>, t: Seq<char>)
    requires
        s != t,
    ensures
        find_id(forget(ps, s), t) == find_id(ps, t),
    decreases ps.len(),
{
    if ps.len() > 0 {
        lemma_forget_keeps_others(ps.drop_last(), s, t);
        if ps.last().id != s {
            assert(forget(ps, s).drop_last() =~= forget(ps.drop_last(), s));
        }
    }
}

/// After cleanup every live parameter is used by some equation.
pub proof fn lemma_kept_used(ps: Seq<ParameterView>, eqs: Seq<Equation>)
    ensures
        forall|i: int|
            0 <= i < kept(ps, eqs).len() ==> used_symbols(eqs).contains(
                (#[trigger] kept(ps, eqs)[i]).id,
            ),
    decreases ps.len(),
{
    if ps.len() > 0 {
        lemma_kept_used(ps.drop_last(), eqs);
        let prev = kept(ps.drop_last(), eqs);
        if used_symbols(eqs).contains(ps.last().id) {
            assert forall|i: int| 0 <= i < prev.len() + 1 implies used_symbols(eqs).contains(
                (#[trigger] prev.push(ps.last())[i]).id,
            ) by {
                if i < prev.len() {
                    assert(prev.push(ps.last())[i] == prev[i]);
                }
            }
        }
    }
}

proof fn lemma_single_unused(ps: Seq<ParameterView>, eqs: Seq<Equation>, k: int)
    requires
        0 <= k < ps.len(),
        !used_symbols(eqs).contains(ps[k].id),
        forall|j: int| 0 <= j < ps.len() && j != k ==> used_symbols(eqs).contains((#[trigger] ps[j]).id),
    ensures
        unused(ps, eqs) == seq![ps[k]],
    decreases ps.len(),
{
    let prev = ps.drop_last();
    if k == ps.len() - 1 {
        lemma_all_used(prev, eqs);
        assert(seq![ps[k]] =~= Seq::<ParameterView>::empty().push(ps[k]));
    } else {
        assert forall|j: int| 0 <= j < prev.len() && j != k implies used_symbols(eqs).contains(
            (#[trigger] prev[j]).id,
        ) by {
            assert(prev[j] == ps[j]);
        }
        assert(prev[k] == ps[k]);
        lemma_single_unused(prev, eqs, k);
        assert(used_symbols(eqs).contains(ps[ps.len() - 1].id));
    }
}

proof fn lemma_all_used(ps: Seq<ParameterView>, eqs: Seq<Equation>)
    requires
        forall|j: int| 0 <= j < ps.len() ==> used_symbols(eqs).contains((#[trigger] ps[j]).id),
    ensures
        unused(ps, eqs) == Seq::<ParameterView>::empty(),
    decreases ps.len(),
{
    if ps.len() > 0 {
        let prev = ps.drop_last();
        assert forall|j: int| 0 <= j < prev.len() implies used_symbols(eqs).contains(
            (#[trigger] prev[j]).id,
        ) by {
            assert(prev[j] == ps[j]);
        }
        lemma_all_used(prev, eqs);
        assert(used_symbols(eqs).contains(ps[ps.len() - 1].id));
    }
}

proof fn lemma_reconcile_restores(
    params: Seq<ParameterView>,
    buf: Seq<ParameterView>,
    bound: Seq<Seq<char>>,
    syms: Seq<Seq<char>>,
    x: ParameterView,
)
    requires
        !bound.contains(x.id),
        params.contains(x) || (find_id(buf, x.id) == Some(x) && !has_id(params, x.id)),
    ensures
        ({
            let (p, b) = reconcile(params, buf, bound, syms);
            p.contains(x) || (find_id(b, x.id) == Some(x) && !has_id(p, x.id))
        }),
        syms.contains(x.id) ==> reconcile(params, buf, bound, syms).0.contains(x),
    decreases syms.len(),
{
    if syms.len() > 0 {
        let prev = syms.drop_last();
        lemma_reconcile_restores(params, buf, bound, prev, x);
        let (p, b) = reconcile(params, buf, bound, prev);
        let s = syms.last();
        let p_next = reconcile(params, buf, bound, syms).0;
        if !(bound.contains(s) || has_id(p, s)) {
            assert(p_next == p.push(recall(b, s)));
            if p.contains(x) {
                let i = choose|i: int| 0 <= i < p.len() && p[i] == x;
                assert(p_next[i] == x);
            } else if s == x.id {
                assert(p_next[p.len() as int] == x);
            } else {
                lemma_forget_keeps_others(b, s, x.id);
                lemma_find_id_has_id(b, s);
                assert(!has_id(p_next, x.id)) by {
                    if has_id(p_next, x.id) {
                        let i = choose|i: int| 0 <= i < p_next.len() && (#[trigger] p_next[i]).id == x.id;
                        if i < p.len() {
                            assert(p_next[i] == p[i]);
                        }
                    }
                }
            }
        } else if s == x.id {
            assert(p.contains(x));
        }
        if syms.contains(x.id) && !prev.contains(x.id) {
            let k = choose|k: int| 0 <= k < syms.len() && syms[k] == x.id;
            if k < prev.len() {
                assert(prev[k] == syms[k]);
            }
            assert(s == x.id);
        }
    }
}

/// A parameter that cleanup retires because no equation uses it any more
/// comes back, with all its values, when an equation that uses its symbol
/// is reconciled afterwards. This holds where it is the only parameter
/// retired and the buffer held no other parameter with its identifier.
pub proof fn lemma_retired_parameter_restored(
    params: Seq<ParameterView>,
    buf: Seq<ParameterView>,
    eqs: Seq<Equation>,
    k: int,
    bound: Seq<Seq<char>>,
    syms: Seq<Seq<char>>,
)
    requires
        0 <= k < params.len(),
        buf.len() <= BUFFER_CAPACITY,
        !used_symbols(eqs).contains(params[k].id),
        forall|j: int|
            0 <= j < params.len() && j != k ==> used_symbols(eqs).contains((#[trigger] params[j]).id),
        find_id(buf, params[k].id).is_none(),
        !bound.contains(params[k].id),
        syms.contains(params[k].id),
    ensures
        ({
            let p = kept(params, eqs);
            let b = retire_all(buf, unused(params, eqs));
            reconcile(p, b, bound, syms).0.contains(params[k])
        }),
{
    let x = params[k];
    lemma_single_unused(params, eqs, k);
    lemma_kept_used(params, eqs);
    let p = kept(params, eqs);
    let b = retire_all(buf, seq![x]);
    assert(seq![x].drop_last() =~= Seq::<ParameterView>::empty());
    assert(seq![x].last() == x);
    assert(retire_all(buf, Seq::<ParameterView>::empty()) == buf);
    assert(b == retire(buf, x));
    lemma_find_id_none(buf, x.id);
    let pushed = buf.push(x);
    assert(pushed.drop_last() =~= buf);
    if pushed.len() > BUFFER_CAPACITY {
        let d = buf.drop_first();
        assert(pushed.drop_first() =~= d.push(x));
        assert(d.push(x).drop_last() =~= d);
        assert forall|i: int| 0 <= i < d.len() implies (#[trigger] d[i]).id != x.id by {
            assert(d[i] == buf[i + 1]);
        }
        lemma_find_id_none(d, x.id);
    }
    assert(find_id(b, x.id) == Some(x));
    assert(!has_id(p, x.id)) by {
        if has_id(p, x.id) {
            let i = choose|i: int| 0 <= i < p.len() && (#[trigger] p[i]).id == x.id;
            assert(used_symbols(eqs).contains(p[i].id));
        }
    }
    lemma_reconcile_restores(p, b, bound, syms, x);
}

/// No live parameter shares its identifier with a retired one.
pub open spec fn ids_disjoint(live: Seq<ParameterView>, retired: Seq<ParameterView>) -> bool {
    forall|i: int, j: int|
        0 <= i < live.len() && 0 <= j < retired.len() ==> (#[trigger] live[i]).id != (
        #[trigger] retired[j]).id
}

proof fn lemma_forget_from(ps: Seq<ParameterView>, s: Seq<char>)
    ensures
        forall|j: int|
            0 <= j < forget(ps, s).len() ==> ps.contains(#[trigger] forget(ps, s)[j]) && forget(
                ps,
                s,
            )[j].id != s,
    decreases ps.len(),
{
    if ps.len() > 0 {
        let prev = ps.drop_last();
        lemma_forget_from(prev, s);
        let f = forget(prev, s);
        assert forall|j: int| 0 <= j < f.len() implies ps.contains(#[trigger] f[j]) by {
            let k = choose|k: int| 0 <= k < prev.len() && prev[k] == f[j];
            assert(ps[k] == prev[k]);
        }
        if ps.last().id != s {
            assert forall|j: int| 0 <= j < f.len() + 1 implies ps.contains(
                #[trigger] f.push(ps.last())[j],
            ) && f.push(ps.last())[j].id != s by {
                if j < f.len() {
                    assert(f.push(ps.last())[j] == f[j]);
                } else {
                    assert(ps[ps.len() - 1] == ps.last());
                }
            }
        }
    }
}

proof fn lemma_kept_from(ps: Seq<ParameterView>, eqs: Seq<Equation>)
    ensures
        forall|j: int| 0 <= j < kept(ps, eqs).len() ==> ps.contains(#[trigger] kept(ps, eqs)[j]),
        forall|j: int|
            0 <= j < unused(ps, eqs).len() ==> !used_symbols(eqs).contains(
                (#[trigger] unused(ps, eqs)[j]).id,
            ),
    decreases ps.len(),
{
    if ps.len() > 0 {
        let prev = ps.drop_last();
        lemma_kept_from(prev, eqs);
        let k = kept(prev, eqs);
        let u = unused(prev, eqs);
        assert forall|j: int| 0 <= j < k.len() implies ps.contains(#[trigger] k[j]) by {
            let m = choose|m: int| 0 <= m < prev.len() && prev[m] == k[j];
            assert(ps[m] == prev[m]);
        }
        assert(ps[ps.len() - 1] == ps.last());
        assert forall|j: int| 0 <= j < k.len() + 1 implies ps.contains(#[trigger] k.push(ps.last())[j]) by {
            if j < k.len() {
                assert(k.push(ps.last())[j] == k[j]);
            }
        }
        assert forall|j: int| 0 <= j < u.len() + 1 && (j < u.len() || !used_symbols(eqs).contains(
            ps.last().id,
        )) implies !used_symbols(eqs).contains((#[trigger] u.push(ps.last())[j]).id) by {
            if j < u.len() {
                assert(u.push(ps.last())[j] == u[j]);
            }
        }
    }
}

proof fn lemma_retire_all_from(buf: Seq<ParameterView>, ps: Seq<ParameterView>)
    ensures
        forall|j: int|
            0 <= j < retire_all(buf, ps).len() ==> buf.contains(#[trigger] retire_all(buf, ps)[j])
                || ps.contains(retire_all(buf, ps)[j]),
    decreases ps.len(),
{
    if ps.len() > 0 {
        let prev = ps.drop_last();
        lemma_retire_all_from(buf, prev);
        let r = retire_all(buf, prev);
        let pushed = r.push(ps.last());
        assert(ps[ps.len() - 1] == ps.last());
        assert forall|j: int| 0 <= j < pushed.len() implies buf.contains(#[trigger] pushed[j])
            || ps.contains(pushed[j]) by {
            if j < r.len() {
                assert(pushed[j] == r[j]);
                if ps.drop_last().contains(r[j]) {
                    let m = choose|m: int| 0 <= m < prev.len() && prev[m] == r[j];
                    assert(ps[m] == prev[m]);
                }
            }
        }
        if pushed.len() > BUFFER_CAPACITY {
            assert forall|j: int| 0 <= j < pushed.drop_first().len() implies buf.contains(
                #[trigger] pushed.drop_first()[j],
            ) || ps.contains(pushed.drop_first()[j]) by {
                assert(pushed.drop_first()[j] == pushed[j + 1]);
            }
        }
    }
}

/// Reconciling keeps live and retired parameters apart: a parameter that
/// comes back from the buffer leaves it with every entry of its identifier.
pub proof fn lemma_reconcile_keeps_apart(
    params: Seq<ParameterView>,
    buf: Seq<ParameterView>,
    bound: Seq<Seq<char>>,
    syms: Seq<Seq<char>>,
)
    requires
        ids_disjoint(params, buf),
    ensures
        ids_disjoint(reconcile(params, buf, bound, syms).0, reconcile(params, buf, bound, syms).1),
    decreases syms.len(),
{
    if syms.len() > 0 {
        let prev = syms.drop_last();
        lemma_reconcile_keeps_apart(params, buf, bound, prev);
        let (p, b) = reconcile(params, buf, bound, prev);
        let s = syms.last();
        if !(bound.contains(s) || has_id(p, s)) {
            let np = p.push(recall(b, s));
            let nb = forget(b, s);
            lemma_forget_from(b, s);
            lemma_find_id_has_id(b, s);
            assert forall|i: int, j: int|
                0 <= i < np.len() && 0 <= j < nb.len() implies (#[trigger] np[i]).id != (
                #[trigger] nb[j]).id by {
                let k = choose|k: int| 0 <= k < b.len() && b[k] == nb[j];
                if i < p.len() {
                    assert(np[i] == p[i]);
                    assert(p[i].id != b[k].id);
                }
            }
        }
    }
}

/// Cleanup keeps live and retired parameters apart: what it keeps is used,
/// what it retires is not.
pub proof fn lemma_cleanup_keeps_apart(
    params: Seq<ParameterView>,
    buf: Seq<ParameterView>,
    eqs: Seq<Equation>,
)
    requires
        ids_disjoint(params, buf),
    ensures
        ids_disjoint(kept(params, eqs), retire_all(buf, unused(params, eqs))),
{
    let k = kept(params, eqs);
    let u = unused(params, eqs);
    let r = retire_all(buf, u);
    lemma_kept_from(params, eqs);
    lemma_kept_used(params, eqs);
    lemma_retire_all_from(buf, u);
    assert forall|i: int, j: int| 0 <= i < k.len() && 0 <= j < r.len() implies (#[trigger] k[i]).id
        != (#[trigger] r[j]).id by {
        let m = choose|m: int| 0 <= m < params.len() && params[m] == k[i];
        if buf.contains(r[j]) {
            let n = choose|n: int| 0 <= n < buf.len() && buf[n] == r[j];
            assert(params[m].id != buf[n].id);
        } else {
            let n = choose|n: int| 0 <= n < u.len() && u[n] == r[j];
            assert(!used_symbols(eqs).contains(u[n].id));
        }
    }
}

proof fn lemma_find_id_extends(ps: Seq<ParameterView>, s: Seq<char>, k: int)
    requires
        0 <= k <= ps.len(),
        find_id(ps.take(k), s).is_some(),
    ensures
        find_id(ps, s) == find_id(ps.take(k), s),
    decreases ps.len() - k,
{
    if k < ps.len() {
        assert(ps.take(k + 1).drop_last() =~= ps.take(k));
        lemma_find_id_extends(ps, s, k + 1);
    } else {
        assert(ps.take(k) =~= ps);
    }
}

proof fn lemma_forget_len(ps: Seq<ParameterView>, s: Seq<char>)
    ensures
        forget(ps, s).len() <= ps.len(),
    decreases ps.len(),
{
    if ps.len() > 0 {
        lemma_forget_len(ps.drop_last(), s);
    }
}

} // verus!
