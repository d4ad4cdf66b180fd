//! Adding, changing and removing reactions; a reaction's rate expression
//! gets its parameters as soon as it enters the document.

use vstd::prelude::*;
use crate::expression::{strings_view, symbols_of};
use crate::ids::{generate_id, is_first_free, REACTION_PREFIX};
use crate::model::{params_view, same_but_parameters, Document, ModelError, ParameterView, Reaction};
use crate::parameters::{bound_vars, reconcile, reconcile_text, ParameterBuffer};
use crate::text::same_text;

verus! {

/// Parameters and buffer once a rate expression is reconciled: unchanged
/// without one, `None` where it does not parse.
pub open spec fn law_outcome(
    doc: Document,
    buf: Seq<ParameterView>,
    law: Option<String>,
) -> Option<(Seq<ParameterView>, Seq<ParameterView>)> {
    match law {
        None => Some((params_view(doc.parameters@), buf)),
        Some(l) => match symbols_of(l@) {
            Some(syms) => Some(reconcile(params_view(doc.parameters@), buf, bound_vars(doc), syms)),
            None => None,
        },
    }
}

/// Parameters and buffer after the rate expressions of `rs` are reconciled
/// in order, and whether all of them parsed; the first that does not stops
/// the run.
pub open spec fn laws_fold(
    params: Seq<ParameterView>,
    buf: Seq<ParameterView>,
    bound: Seq<Seq<char>>,
    rs: Seq<Reaction>,
) -> (bool, Seq<ParameterView>, Seq<ParameterView>)
    decreases rs.len(),
{
    if rs.len() == 0 {
        (true, params, buf)
    } else {
        let (ok, p, b) = laws_fold(params, buf, bound, rs.drop_last());
        if !ok {
            (false, p, b)
        } else {
            match rs.last().kinetic_law {
                None => (true, p, b),
                Some(l) => match symbols_of(l@) {
                    Some(syms) => {
                        let (p_next, b_next) = reconcile(p, b, bound, syms);
                        (true, p_next, b_next)
                    },
                    None => (false, p, b),
                },
            }
        }
    }
}

/// Whether each of `ids` is the first free one once those before it are
/// taken as well.
pub open spec fn successive_ids(existing: Seq<Seq<char>>, prefix: Seq<char>, ids: Seq<Seq<char>>) -> bool {
    forall|i: int|
        0 <= i < ids.len() ==> is_first_free(existing + ids.take(i), prefix, #[trigger] ids[i])
}

pub open spec fn reaction_ids_view(rs: Seq<Reaction>) -> Seq<Seq<char>> {
    rs.map_values(|r: Reaction| r.id@)
}

/// Whether `k` is the index of the first reaction of `rs` with identifier `s`.
pub open spec fn is_first_reaction(rs: Seq<Reaction>, s: Seq<char>, k: int) -> bool {
    &&& 0 <= k < rs.len()
    &&& rs[k].id@ == s
    &&& forall|j: int| 0 <= j < k ==> (#[trigger] rs[j]).id@ != s
}

/// The index of the first reaction of `rs` with identifier `s`, if any.
pub open spec fn find_reaction_spec(rs: Seq<Reaction>, s: Seq<char>) -> Option<int> {
    if exists|k: int| is_first_reaction(rs, s, k) {
        Some(choose|k: int| is_first_reaction(rs, s, k))
    } else {
        None
    }
}

/// The index of the first reaction with identifier `id`.
pub fn find_reaction(rs: &Vec<Reaction>, id: &str) -> (r: Option<usize>)
    ensures
        match r {
            Some(k) => find_reaction_spec(rs@, id@) == Some(k as int),
            None => find_reaction_spec(rs@, id@).is_none(),
        },
{
    let mut i: usize = 0;
    while i < rs.len()
        invariant
            i <= rs@.len(),
            forall|j: int| 0 <= j < i ==> (#[trigger] rs@[j]).id@ != id@,
        decreases rs@.len() - i,
    {
        if same_text(rs[i].id.as_str(), id) {
            proof {
                assert(is_first_reaction(rs@, id@, i as int));
                let c = choose|k: int| is_first_reaction(rs@, id@, k);
                if c < i {
                    assert(rs@[c].id@ != id@);
                } else if c > i {
                    assert(rs@[i as int].id@ != id@);
                }
            }
            return Some(i);
        }
        i = i + 1;
    }
    proof {
        if exists|k: int| is_first_reaction(rs@, id@, k) {
            let c = choose|k: int| is_first_reaction(rs@, id@, k);
            assert(rs@[c].id@ != id@);
        }
    }
    None
}

/// The identifiers of the reactions, in order.
pub fn reaction_ids(rs: &Vec<Reaction>) -> (r: Vec<String>)
    ensures
        r@.len() == rs@.len(),
        strings_view(r@) == reaction_ids_view(rs@),
{
    let mut r: Vec<String> = Vec::new();
    let mut i: usize = 0;
    while i < rs.len()
        invariant
            i <= rs@.len(),
            r@.len() == i,
            strings_view(r@) =~= reaction_ids_view(rs@.take(i as int)),
        decreases rs@.len() - i,
    {
        let ghost before = r@;
        r.push(rs[i].id.clone());
        assert(strings_view(r@) =~= strings_view(before).push(rs@[i as int].id@));
        assert(rs@.take(i + 1) =~= rs@.take(i as int).push(rs@[i as int]));
        i = i + 1;
    }
    assert(rs@.take(i as int) =~= rs@);
    r
}

proof fn lemma_laws_fold_stops(
    params: Seq<ParameterView>,
    buf: Seq<ParameterView>,
    bound: Seq<Seq<char>>,
    rs: Seq<Reaction>,
    k: int,
)
    requires
        0 < k <= rs.len(),
        !laws_fold(params, buf, bound, rs.take(k)).0,
    ensures
        laws_fold(params, buf, bound, rs) == laws_fold(params, buf, bound, rs.take(k)),
    decreases rs.len() - k,
{
    if k < rs.len() {
        assert(rs.take(k + 1).drop_last() =~= rs.take(k));
        lemma_laws_fold_stops(params, buf, bound, rs, k + 1);
    } else {
        assert(rs.take(k) =~= rs);
    }
}

/// Gives the symbols of a rate expression parameters (see `process_equation`);
/// nothing to do without one.
pub fn process_kinetic_law(
    doc: &mut Document,
    param_buffer: &mut ParameterBuffer,
    kinetic_law: &Option<String>,
) -> (r: Result<(), ModelError>)
    requires
        old(param_buffer).wf(),
    ensures
        final(param_buffer).wf(),
        same_but_parameters(*final(doc), *old(doc)),
        match law_outcome(*old(doc), old(param_buffer)@, *kinetic_law) {
            Some((p, b)) => r is Ok && params_view(final(doc).parameters@) == p
                && final(param_buffer)@ == b,
            None => r == Err::<(), ModelError>(ModelError::InvalidExpression)
                && final(doc).parameters == old(doc).parameters && final(param_buffer)@ == old(
                param_buffer,
            )@,
        },
{
    match kinetic_law {
        Some(law) => reconcile_text(doc, param_buffer, law),
        None => Ok(()),
    }
}

/// Adds `object` under a fresh identifier (`r` and the first free number),
/// once the symbols of its rate expression have parameters. Where that
/// expression does not parse, nothing changes.
pub fn add_reaction(doc: &mut Document, param_buffer: &mut ParameterBuffer, object: Reaction) -> (r:
    Result<String, ModelError>)
    requires
        old(param_buffer).wf(),
        old(doc).reactions@.len() < usize::MAX,
    ensures
        final(param_buffer).wf(),
        match law_outcome(*old(doc), old(param_buffer)@, object.kinetic_law) {
            Some((p, b)) => r matches Ok(id) && {
                let added = final(doc).reactions@.last();
                &&& is_first_free(reaction_ids_view(old(doc).reactions@), REACTION_PREFIX@, id@)
                &&& final(doc).reactions@.drop_last() == old(doc).reactions@
                &&& final(doc).reactions@.len() == old(doc).reactions@.len() + 1
                &&& added.id@ == id@
                &&& added.name == object.name
                &&& added.reversible == object.reversible
                &&& added.reactants == object.reactants
                &&& added.products == object.products
                &&& added.kinetic_law == object.kinetic_law
                &&& params_view(final(doc).parameters@) == p
                &&& final(param_buffer)@ == b
                &&& final(doc).small_molecules == old(doc).small_molecules
                &&& final(doc).proteins == old(doc).proteins
                &&& final(doc).complexes == old(doc).complexes
                &&& final(doc).equations == old(doc).equations
            },
            None => r == Err::<String, ModelError>(ModelError::InvalidExpression) && *final(doc)
                == *old(doc) && final(param_buffer)@ == old(param_buffer)@,
        },
{
    let ids = reaction_ids(&doc.reactions);
    let id = generate_id(&ids, REACTION_PREFIX);
    match process_kinetic_law(doc, param_buffer, &object.kinetic_law) {
        Ok(()) => {},
        Err(e) => {
            assert(*doc == *old(doc));
            return Err(e);
        },
    }
    let mut object = object;
    object.id = id.clone();
    doc.reactions.push(object);
    Ok(id)
}

/// Adds the reactions of `data`, each under a fresh identifier, once the
/// symbols of all their rate expressions have parameters; returns the
/// identifiers. Where an expression does not parse, no reaction is added;
/// the parameters of the expressions before it stay.
pub fn add_reactions(
    doc: &mut Document,
    param_buffer: &mut ParameterBuffer,
    data: Vec<Reaction>,
) -> (r: Result<Vec<String>, ModelError>)
    requires
        old(param_buffer).wf(),
        old(doc).reactions@.len() + data@.len() < usize::MAX,
    ensures
        final(param_buffer).wf(),
        final(doc).small_molecules == old(doc).small_molecules,
        final(doc).proteins == old(doc).proteins,
        final(doc).complexes == old(doc).complexes,
        final(doc).equations == old(doc).equations,
        ({
            let (ok, p, b) = laws_fold(
                params_view(old(doc).parameters@),
                old(param_buffer)@,
                bound_vars(*old(doc)),
                data@,
            );
            &&& params_view(final(doc).parameters@) == p
            &&& final(param_buffer)@ == b
            &&& if ok {
                r matches Ok(ids) && {
                    let n = old(doc).reactions@.len();
                    &&& ids@.len() == data@.len()
                    &&& successive_ids(reaction_ids_view(old(doc).reactions@), REACTION_PREFIX@, strings_view(ids@))
                    &&& final(doc).reactions@.len() == n + data@.len()
                    &&& final(doc).reactions@.take(n as int) == old(doc).reactions@
                    &&& forall|i: int|
                        0 <= i < data@.len() ==> {
                            let x = #[trigger] final(doc).reactions@[n + i];
                            &&& x.id@ == ids@[i]@
                            &&& x.name == data@[i].name
                            &&& x.reversible == data@[i].reversible
                            &&& x.reactants == data@[i].reactants
                            &&& x.products == data@[i].products
                            &&& x.kinetic_law == data@[i].kinetic_law
                        }
                }
            } else {
                r == Err::<Vec<String>, ModelError>(ModelError::InvalidExpression)
                    && final(doc).reactions == old(doc).reactions
            }
        }),
{
    let ghost bound = bound_vars(*doc);
    let ghost p_start = params_view(doc.parameters@);
    let ghost b_start = param_buffer@;
    let mut i: usize = 0;
    while i < data.len()
        invariant
            i <= data@.len(),
            p_start == params_view(old(doc).parameters@),
            b_start == old(param_buffer)@,
            param_buffer.wf(),
            same_but_parameters(*doc, *old(doc)),
            bound == bound_vars(*old(doc)),
            laws_fold(p_start, b_start, bound, data@.take(i as int)) == (
                true,
                params_view(doc.parameters@),
                param_buffer@,
            ),
        decreases data@.len() - i,
    {
        assert(data@.take(i + 1).drop_last() =~= data@.take(i as int));
        assert(data@.take(i + 1).last() == data@[i as int]);
        let ghost doc_before = *doc;
        assert(bound_vars(doc_before) == bound);
        match process_kinetic_law(doc, param_buffer, &data[i].kinetic_law) {
            Ok(()) => {},
            Err(e) => {
                proof {
                    assert(laws_fold(p_start, b_start, bound, data@.take(i + 1)) == (
                        false,
                        params_view(doc.parameters@),
                        param_buffer@,
                    ));
                    lemma_laws_fold_stops(p_start, b_start, bound, data@, i as int + 1);
                }
                return Err(e);
            },
        }
        i = i + 1;
    }
    assert(data@.take(i as int) =~= data@);
    let n = doc.reactions.len();
    let mut existing = reaction_ids(&doc.reactions);
    let ghost start = strings_view(existing@);
    let mut ids: Vec<String> = Vec::new();
    let mut rest = data;
    let ghost all = rest@;
    let total = rest.len();
    let mut k: usize = 0;
    while k < total
        invariant
            total == all.len(),
            k <= all.len(),
            n == old(doc).reactions@.len(),
            n + all.len() < usize::MAX,
            rest@ == all.skip(k as int),
            ids@.len() == k,
            existing@.len() == n + k,
            strings_view(existing@) == start + strings_view(ids@),
            start == reaction_ids_view(old(doc).reactions@),
            successive_ids(start, REACTION_PREFIX@, strings_view(ids@)),
            doc.reactions@.len() == n + k,
            doc.reactions@.take(n as int) == old(doc).reactions@,
            doc.small_molecules == old(doc).small_molecules,
            doc.proteins == old(doc).proteins,
            doc.complexes == old(doc).complexes,
            doc.equations == old(doc).equations,
            params_view(doc.parameters@) == laws_fold(
                params_view(old(doc).parameters@),
                old(param_buffer)@,
                bound_vars(*old(doc)),
                all,
            ).1,
            param_buffer@ == laws_fold(
                params_view(old(doc).parameters@),
                old(param_buffer)@,
                bound_vars(*old(doc)),
                all,
            ).2,
            param_buffer.wf(),
            laws_fold(
                params_view(old(doc).parameters@),
                old(param_buffer)@,
                bound_vars(*old(doc)),
                all,
            ).0,
            forall|j: int|
                0 <= j < k ==> {
                    let x = #[trigger] doc.reactions@[n + j];
                    &&& x.id@ == ids@[j]@
                    &&& x.name == all[j].name
                    &&& x.reversible == all[j].reversible
                    &&& x.reactants == all[j].reactants
                    &&& x.products == all[j].products
                    &&& x.kinetic_law == all[j].kinetic_law
                },
        decreases all.len() - k,
    {
        let id = generate_id(&existing, REACTION_PREFIX);
        let mut object = rest.remove(0);
        assert(object == all[k as int]);
        assert(rest@ =~= all.skip(k + 1));
        object.id = id.clone();
        let ghost before_ids = strings_view(ids@);
        let ghost before_existing = existing@;
        let ghost before_reactions = doc.reactions@;
        doc.reactions.push(object);
        existing.push(id.clone());
        ids.push(id);
        proof {
            assert(strings_view(ids@) =~= before_ids.push(ids@[k as int]@));
            assert(strings_view(existing@) =~= strings_view(before_existing).push(id@));
            assert(strings_view(existing@) =~= start + strings_view(ids@));
            assert(strings_view(ids@).take(k as int) =~= before_ids);
            assert forall|j: int| 0 <= j < k + 1 implies is_first_free(
                start + strings_view(ids@).take(j),
                REACTION_PREFIX@,
                #[trigger] strings_view(ids@)[j],
            ) by {
                if j < k {
                    assert(strings_view(ids@).take(j) =~= before_ids.take(j));
                    assert(strings_view(ids@)[j] == before_ids[j]);
                }
            }
            assert(doc.reactions@.take(n as int) =~= before_reactions.take(n as int));
            assert forall|j: int| 0 <= j < k + 1 implies {
                let x = #[trigger] doc.reactions@[n + j];
                &&& x.id@ == ids@[j]@
                &&& x.name == all[j].name
                &&& x.reversible == all[j].reversible
                &&& x.reactants == all[j].reactants
                &&& x.products == all[j].products
                &&& x.kinetic_law == all[j].kinetic_law
            } by {
                if j < k {
                    assert(doc.reactions@[n + j] == before_reactions[n + j]);
                }
            }
        }
        k = k + 1;
    }
    Ok(ids)
}

/// Adds an empty, irreversible reaction named `New Reaction` under a fresh
/// identifier, which it returns.
pub fn create_reaction(doc: &mut Document) -> (r: String)
    requires
        old(doc).reactions@.len() < usize::MAX,
    ensures
        is_first_free(reaction_ids_view(old(doc).reactions@), REACTION_PREFIX@, r@),
        final(doc).reactions@.drop_last() == old(doc).reactions@,
        final(doc).reactions@.len() == old(doc).reactions@.len() + 1,
        final(doc).reactions@.last().id@ == r@,
        final(doc).reactions@.last().name@ == "New Reaction"@,
        !final(doc).reactions@.last().reversible,
        final(doc).reactions@.last().reactants@.len() == 0,
        final(doc).reactions@.last().products@.len() == 0,
        final(doc).reactions@.last().kinetic_law.is_none(),
        final(doc).small_molecules == old(doc).small_molecules,
        final(doc).proteins == old(doc).proteins,
        final(doc).complexes == old(doc).complexes,
        final(doc).equations == old(doc).equations,
        final(doc).parameters == old(doc).parameters,
{
    let ids = reaction_ids(&doc.reactions);
    let id = generate_id(&ids, REACTION_PREFIX);
    doc.reactions.push(
        Reaction {
            id: id.clone(),
            name: "New Reaction".to_string(),
            reversible: false,
            reactants: Vec::new(),
            products: Vec::new(),
            kinetic_law: None,
        },
    );
    id
}

/// Replaces the first reaction with `data`'s identifier by `data`, once the
/// symbols of its rate expression have parameters. Where no reaction has
/// that identifier, or the expression does not parse, nothing changes.
pub fn update_reaction(doc: &mut Document, param_buffer: &mut ParameterBuffer, data: Reaction) -> (r:
    Result<(), ModelError>)
    requires
        old(param_buffer).wf(),
    ensures
        final(param_buffer).wf(),
        match find_reaction_spec(old(doc).reactions@, data.id@) {
            None => r == Err::<(), ModelError>(ModelError::NotFound) && *final(doc) == *old(doc)
                && final(param_buffer)@ == old(param_buffer)@,
            Some(k) => match law_outcome(*old(doc), old(param_buffer)@, data.kinetic_law) {
                Some((p, b)) => r is Ok && final(doc).reactions@ == old(doc).reactions@.update(
                    k,
                    data,
                ) && params_view(final(doc).parameters@) == p && final(param_buffer)@ == b
                    && final(doc).equations == old(doc).equations && final(doc).small_molecules
                    == old(doc).small_molecules && final(doc).proteins == old(doc).proteins
                    && final(doc).complexes == old(doc).complexes,
                None => r == Err::<(), ModelError>(ModelError::InvalidExpression) && *final(doc)
                    == *old(doc) && final(param_buffer)@ == old(param_buffer)@,
            },
        },
{
    let k = match find_reaction(&doc.reactions, data.id.as_str()) {
        Some(k) => k,
        None => return Err(ModelError::NotFound),
    };
    match process_kinetic_law(doc, param_buffer, &data.kinetic_law) {
        Ok(()) => {},
        Err(e) => {
            assert(*doc == *old(doc));
            return Err(e);
        },
    }
    doc.reactions.set(k, data);
    Ok(())
}

/// The identifier and name of every reaction, in order.
pub fn list_reactions(doc: &Document) -> (r: Vec<(String, String)>)
    ensures
        r@.len() == doc.reactions@.len(),
        forall|j: int|
            0 <= j < r@.len() ==> (#[trigger] r@[j]).0@ == doc.reactions@[j].id@ && r@[j].1@
                == doc.reactions@[j].name@,
{
    let mut r: Vec<(String, String)> = Vec::new();
    let mut i: usize = 0;
    while i < doc.reactions.len()
        invariant
            i <= doc.reactions@.len(),
            r@.len() == i,
            forall|j: int|
                0 <= j < i ==> (#[trigger] r@[j]).0@ == doc.reactions@[j].id@ && r@[j].1@
                    == doc.reactions@[j].name@,
        decreases doc.reactions@.len() - i,
    {
        let x = &doc.reactions[i];
        r.push((x.id.clone(), x.name.clone()));
        i = i + 1;
    }
    r
}

/// The first reaction with identifier `id`.
pub fn get_reaction<'a>(doc: &'a Document, id: &str) -> (r: Result<&'a Reaction, ModelError>)
    ensures
        match find_reaction_spec(doc.reactions@, id@) {
            Some(k) => r == Ok::<&Reaction, ModelError>(&doc.reactions@[k]),
            None => r == Err::<&Reaction, ModelError>(ModelError::NotFound),
        },
{
    match find_reaction(&doc.reactions, id) {
        Some(k) => Ok(&doc.reactions[k]),
        None => Err(ModelError::NotFound),
    }
}

/// Removes the first reaction with identifier `id`, if there is one.
pub fn delete_reaction(doc: &mut Document, id: &str)
    ensures
        final(doc).reactions@ == match find_reaction_spec(old(doc).reactions@, id@) {
            Some(k) => old(doc).reactions@.remove(k),
            None => old(doc).reactions@,
        },
        final(doc).small_molecules == old(doc).small_molecules,
        final(doc).proteins == old(doc).proteins,
        final(doc).complexes == old(doc).complexes,
        final(doc).equations == old(doc).equations,
        final(doc).parameters == old(doc).parameters,
{
    match find_reaction(&doc.reactions, id) {
        Some(k) => {
            doc.reactions.remove(k);
        },
        None => {},
    }
}

} // verus!
