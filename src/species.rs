//! Adding, changing and removing small molecules and proteins.

use vstd::prelude::*;
use crate::equations::{find_equation, find_equation_spec};
use crate::expression::strings_view;
use crate::ids::{generate_id, is_first_free, PROTEIN_PREFIX, SMALL_MOLECULE_PREFIX};
use crate::model::{same_but_equations, Document, ModelError, Species};
use crate::reactions::successive_ids;
use crate::text::same_text;

verus! {

pub open spec fn species_ids_view(v: Seq<Species>) -> Seq<Seq<char>> {
    v.map_values(|s: Species| s.id@)
}

/// Whether `after` is `before` with `object` appended under identifier `id`.
pub open spec fn appended(before: Seq<Species>, after: Seq<Species>, object: Species, id: Seq<char>) -> bool {
    &&& after.len() == before.len() + 1
    &&& after.drop_last() == before
    &&& after.last().id@ == id
    &&& after.last().name == object.name
    &&& after.last().constant == object.constant
}

/// Whether `k` is the index of the first species of `v` with identifier `s`.
pub open spec fn is_first_species(v: Seq<Species>, s: Seq<char>, k: int) -> bool {
    &&& 0 <= k < v.len()
    &&& v[k].id@ == s
    &&& forall|j: int| 0 <= j < k ==> (#[trigger] v[j]).id@ != s
}

/// The index of the first species of `v` with identifier `s`, if any.
pub open spec fn find_species_spec(v: Seq<Species>, s: Seq<char>) -> Option<int> {
    if exists|k: int| is_first_species(v, s, k) {
        Some(choose|k: int| is_first_species(v, s, k))
    } else {
        None
    }
}

/// The index of the first species with identifier `id`.
pub fn find_species(v: &Vec<Species>, id: &str) -> (r: Option<usize>)
    ensures
        match r {
            Some(k) => find_species_spec(v@, id@) == Some(k as int),
            None => find_species_spec(v@, id@).is_none(),
        },
{
    let mut i: usize = 0;
    while i < v.len()
        invariant
            i <= v@.len(),
            forall|j: int| 0 <= j < i ==> (#[trigger] v@[j]).id@ != id@,
        decreases v@.len() - i,
    {
        if same_text(v[i].id.as_str(), id) {
            proof {
                assert(is_first_species(v@, id@, i as int));
                let c = choose|k: int| is_first_species(v@, id@, k);
                if c < i {
                    assert(v@[c].id@ != id@);
                } else if c > i {
                    assert(v@[i as int].id@ != id@);
                }
            }
            return Some(i);
        }
        i = i + 1;
    }
    proof {
        if exists|k: int| is_first_species(v@, id@, k) {
            let c = choose|k: int| is_first_species(v@, id@, k);
            assert(v@[c].id@ != id@);
        }
    }
    None
}

/// The identifiers of the species, in order.
pub fn species_ids_of(v: &Vec<Species>) -> (r: Vec<String>)
    ensures
        r@.len() == v@.len(),
        strings_view(r@) == species_ids_view(v@),
{
    let mut r: Vec<String> = Vec::new();
    let mut i: usize = 0;
    while i < v.len()
        invariant
            i <= v@.len(),
            r@.len() == i,
            strings_view(r@) =~= species_ids_view(v@.take(i as int)),
        decreases v@.len() - i,
    {
        let ghost before = r@;
        r.push(v[i].id.clone());
        assert(strings_view(r@) =~= strings_view(before).push(v@[i as int].id@));
        assert(v@.take(i + 1) =~= v@.take(i as int).push(v@[i as int]));
        i = i + 1;
    }
    assert(v@.take(i as int) =~= v@);
    r
}

/// Appends `object` under a fresh identifier: `prefix` and the first free number.
fn add_species(v: &mut Vec<Species>, object: Species, prefix: &str) -> (r: String)
    requires
        old(v)@.len() < usize::MAX,
    ensures
        is_first_free(species_ids_view(old(v)@), prefix@, r@),
        appended(old(v)@, final(v)@, object, r@),
{
    let ids = species_ids_of(v);
    let id = generate_id(&ids, prefix);
    let ghost before = v@;
    let mut object = object;
    object.id = id.clone();
    v.push(object);
    assert(v@.drop_last() =~= before);
    id
}

/// Appends each of `data` under a fresh identifier, in order.
fn add_all_species(v: &mut Vec<Species>, data: Vec<Species>, prefix: &str) -> (r: Vec<String>)
    requires
        old(v)@.len() + data@.len() < usize::MAX,
    ensures
        r@.len() == data@.len(),
        successive_ids(species_ids_view(old(v)@), prefix@, strings_view(r@)),
        final(v)@.len() == old(v)@.len() + data@.len(),
        final(v)@.take(old(v)@.len() as int) == old(v)@,
        forall|i: int|
            0 <= i < data@.len() ==> {
                let x = #[trigger] final(v)@[old(v)@.len() + i];
                &&& x.id@ == r@[i]@
                &&& x.name == data@[i].name
                &&& x.constant == data@[i].constant
            },
{
    let n = v.len();
    let mut existing = species_ids_of(v);
    let ghost start = strings_view(existing@);
    let mut ids: Vec<String> = Vec::new();
    let mut rest = data;
    let ghost all = rest@;
    let total = rest.len();
    let mut k: usize = 0;
    while k < total
        invariant
            total == all.len(),
            k <= all.len(),
            n == old(v)@.len(),
            n + all.len() < usize::MAX,
            rest@ == all.skip(k as int),
            ids@.len() == k,
            existing@.len() == n + k,
            strings_view(existing@) == start + strings_view(ids@),
            start == species_ids_view(old(v)@),
            successive_ids(start, prefix@, strings_view(ids@)),
            v@.len() == n + k,
            v@.take(n as int) == old(v)@,
            forall|j: int|
                0 <= j < k ==> {
                    let x = #[trigger] v@[n + j];
                    &&& x.id@ == ids@[j]@
                    &&& x.name == all[j].name
                    &&& x.constant == all[j].constant
                },
        decreases all.len() - k,
    {
        let id = generate_id(&existing, prefix);
        let mut object = rest.remove(0);
        assert(object == all[k as int]);
        assert(rest@ =~= all.skip(k + 1));
        object.id = id.clone();
        let ghost before_ids = strings_view(ids@);
        let ghost before_existing = existing@;
        let ghost before_v = v@;
        v.push(object);
        existing.push(id.clone());
        ids.push(id);
        proof {
            assert(strings_view(ids@) =~= before_ids.push(ids@[k as int]@));
            assert(strings_view(existing@) =~= strings_view(before_existing).push(id@));
            assert(strings_view(existing@) =~= start + strings_view(ids@));
            assert(strings_view(ids@).take(k as int) =~= before_ids);
            assert forall|j: int| 0 <= j < k + 1 implies is_first_free(
                start + strings_view(ids@).take(j),
                prefix@,
                #[trigger] strings_view(ids@)[j],
            ) by {
                if j < k {
                    assert(strings_view(ids@).take(j) =~= before_ids.take(j));
                    assert(strings_view(ids@)[j] == before_ids[j]);
                }
            }
            assert(v@.take(n as int) =~= before_v.take(n as int));
            assert forall|j: int| 0 <= j < k + 1 implies {
                let x = #[trigger] v@[n + j];
                &&& x.id@ == ids@[j]@
                &&& x.name == all[j].name
                &&& x.constant == all[j].constant
            } by {
                if j < k {
                    assert(v@[n + j] == before_v[n + j]);
                }
            }
        }
        k = k + 1;
    }
    ids
}

/// Replaces the first species with `data`'s identifier by `data`.
fn update_species(v: &mut Vec<Species>, data: Species) -> (r: Result<String, ModelError>)
    ensures
        match find_species_spec(old(v)@, data.id@) {
            Some(k) => r matches Ok(id) && id@ == data.id@ && final(v)@ == old(v)@.update(k, data),
            None => r == Err::<String, ModelError>(ModelError::NotFound) && final(v)@ == old(v)@,
        },
{
    match find_species(v, data.id.as_str()) {
        Some(k) => {
            let id = data.id.clone();
            v.set(k, data);
            Ok(id)
        },
        None => Err(ModelError::NotFound),
    }
}

/// The identifier and name of each species, in order.
fn list_species(v: &Vec<Species>) -> (r: Vec<(String, String)>)
    ensures
        r@.len() == v@.len(),
        forall|j: int|
            0 <= j < r@.len() ==> (#[trigger] r@[j]).0@ == v@[j].id@ && r@[j].1@ == v@[j].name@,
{
    let mut r: Vec<(String, String)> = Vec::new();
    let mut i: usize = 0;
    while i < v.len()
        invariant
            i <= v@.len(),
            r@.len() == i,
            forall|j: int|
                0 <= j < i ==> (#[trigger] r@[j]).0@ == v@[j].id@ && r@[j].1@ == v@[j].name@,
        decreases v@.len() - i,
    {
        r.push((v[i].id.clone(), v[i].name.clone()));
        i = i + 1;
    }
    r
}

/// Removes the first species with identifier `id`, if any.
fn delete_species(v: &mut Vec<Species>, id: &str)
    ensures
        final(v)@ == match find_species_spec(old(v)@, id@) {
            Some(k) => old(v)@.remove(k),
            None => old(v)@,
        },
{
    match find_species(v, id) {
        Some(k) => {
            v.remove(k);
        },
        None => {},
    }
}

/// Adds a small molecule named `New Small Molecule`, not constant, under a
/// fresh identifier (`s` and the first free number), which it returns.
pub fn create_small_mol(doc: &mut Document) -> (r: String)
    requires
        old(doc).small_molecules@.len() < usize::MAX,
    ensures
        is_first_free(species_ids_view(old(doc).small_molecules@), SMALL_MOLECULE_PREFIX@, r@),
        final(doc).small_molecules@.drop_last() == old(doc).small_molecules@,
        final(doc).small_molecules@.len() == old(doc).small_molecules@.len() + 1,
        final(doc).small_molecules@.last().id@ == r@,
        final(doc).small_molecules@.last().name@ == "New Small Molecule"@,
        !final(doc).small_molecules@.last().constant,
        final(doc).proteins == old(doc).proteins,
        final(doc).complexes == old(doc).complexes,
        final(doc).reactions == old(doc).reactions,
        final(doc).equations == old(doc).equations,
        final(doc).parameters == old(doc).parameters,
{
    let object = Species::new("", "New Small Molecule");
    add_species(&mut doc.small_molecules, object, SMALL_MOLECULE_PREFIX)
}

/// Adds `object` as a small molecule under a fresh identifier (`s` and the
/// first free number), which it returns.
pub fn add_small_mol(doc: &mut Document, object: Species) -> (r: String)
    requires
        old(doc).small_molecules@.len() < usize::MAX,
    ensures
        is_first_free(species_ids_view(old(doc).small_molecules@), SMALL_MOLECULE_PREFIX@, r@),
        appended(old(doc).small_molecules@, final(doc).small_molecules@, object, r@),
        final(doc).proteins == old(doc).proteins,
        final(doc).complexes == old(doc).complexes,
        final(doc).reactions == old(doc).reactions,
        final(doc).equations == old(doc).equations,
        final(doc).parameters == old(doc).parameters,
{
    add_species(&mut doc.small_molecules, object, SMALL_MOLECULE_PREFIX)
}

/// Adds each of `data` as a small molecule under a fresh identifier, in
/// order, and returns the identifiers.
pub fn add_small_mols(doc: &mut Document, data: Vec<Species>) -> (r: Vec<String>)
    requires
        old(doc).small_molecules@.len() + data@.len() < usize::MAX,
    ensures
        r@.len() == data@.len(),
        successive_ids(species_ids_view(old(doc).small_molecules@), SMALL_MOLECULE_PREFIX@, strings_view(r@)),
        final(doc).small_molecules@.len() == old(doc).small_molecules@.len() + data@.len(),
        final(doc).small_molecules@.take(old(doc).small_molecules@.len() as int) == old(doc).small_molecules@,
        forall|i: int|
            0 <= i < data@.len() ==> {
                let x = #[trigger] final(doc).small_molecules@[old(doc).small_molecules@.len() + i];
                &&& x.id@ == r@[i]@
                &&& x.name == data@[i].name
                &&& x.constant == data@[i].constant
            },
        final(doc).proteins == old(doc).proteins,
        final(doc).complexes == old(doc).complexes,
        final(doc).reactions == old(doc).reactions,
        final(doc).equations == old(doc).equations,
        final(doc).parameters == old(doc).parameters,
{
    add_all_species(&mut doc.small_molecules, data, SMALL_MOLECULE_PREFIX)
}

/// Replaces the first small molecule with `data`'s identifier by `data`,
/// and returns that identifier; `NotFound`, with nothing changed, where
/// there is none.
pub fn update_small_mol(doc: &mut Document, data: Species) -> (r: Result<String, ModelError>)
    ensures
        match find_species_spec(old(doc).small_molecules@, data.id@) {
            Some(k) => r matches Ok(id) && id@ == data.id@ && final(doc).small_molecules@ == old(
                doc,
            ).small_molecules@.update(k, data),
            None => r == Err::<String, ModelError>(ModelError::NotFound) && final(doc).small_molecules@
                == old(doc).small_molecules@,
        },
        final(doc).proteins == old(doc).proteins,
        final(doc).complexes == old(doc).complexes,
        final(doc).reactions == old(doc).reactions,
        final(doc).equations == old(doc).equations,
        final(doc).parameters == old(doc).parameters,
{
    update_species(&mut doc.small_molecules, data)
}

/// The identifier and name of every small molecule, in order.
pub fn list_small_mols(doc: &Document) -> (r: Vec<(String, String)>)
    ensures
        r@.len() == doc.small_molecules@.len(),
        forall|j: int|
            0 <= j < r@.len() ==> (#[trigger] r@[j]).0@ == doc.small_molecules@[j].id@ && r@[j].1@
                == doc.small_molecules@[j].name@,
{
    list_species(&doc.small_molecules)
}

/// The first small molecule with identifier `id`.
pub fn get_small_mol<'a>(doc: &'a Document, id: &str) -> (r: Result<&'a Species, ModelError>)
    ensures
        match find_species_spec(doc.small_molecules@, id@) {
            Some(k) => r == Ok::<&Species, ModelError>(&doc.small_molecules@[k]),
            None => r == Err::<&Species, ModelError>(ModelError::NotFound),
        },
{
    match find_species(&doc.small_molecules, id) {
        Some(k) => Ok(&doc.small_molecules[k]),
        None => Err(ModelError::NotFound),
    }
}

/// Removes the first small molecule with identifier `id`, if any, and the
/// first equation for that species, if any.
pub fn delete_small_mol(doc: &mut Document, id: &str)
    ensures
        final(doc).small_molecules@ == match find_species_spec(old(doc).small_molecules@, id@) {
            Some(k) => old(doc).small_molecules@.remove(k),
            None => old(doc).small_molecules@,
        },
        final(doc).equations@ == match find_equation_spec(old(doc).equations@, id@) {
            Some(k) => old(doc).equations@.remove(k),
            None => old(doc).equations@,
        },
        final(doc).proteins == old(doc).proteins,
        final(doc).complexes == old(doc).complexes,
        final(doc).reactions == old(doc).reactions,
        final(doc).parameters == old(doc).parameters,
{
    delete_species(&mut doc.small_molecules, id);
    match find_equation(&doc.equations, id) {
        Some(k) => {
            doc.equations.remove(k);
        },
        None => {},
    }
}

/// Adds a protein named `New Protein`, constant, under a fresh identifier
/// (`p` and the first free number), which it returns.
pub fn create_protein(doc: &mut Document) -> (r: String)
    requires
        old(doc).proteins@.len() < usize::MAX,
    ensures
        is_first_free(species_ids_view(old(doc).proteins@), PROTEIN_PREFIX@, r@),
        final(doc).proteins@.drop_last() == old(doc).proteins@,
        final(doc).proteins@.len() == old(doc).proteins@.len() + 1,
        final(doc).proteins@.last().id@ == r@,
        final(doc).proteins@.last().name@ == "New Protein"@,
        final(doc).proteins@.last().constant,
        final(doc).small_molecules == old(doc).small_molecules,
        final(doc).complexes == old(doc).complexes,
        final(doc).reactions == old(doc).reactions,
        final(doc).equations == old(doc).equations,
        final(doc).parameters == old(doc).parameters,
{
    let mut object = Species::new("", "New Protein");
    object.constant = true;
    add_species(&mut doc.proteins, object, PROTEIN_PREFIX)
}

/// Adds `object` as a protein under a fresh identifier (`p` and the first
/// free number), which it returns.
pub fn add_protein(doc: &mut Document, object: Species) -> (r: String)
    requires
        old(doc).proteins@.len() < usize::MAX,
    ensures
        is_first_free(species_ids_view(old(doc).proteins@), PROTEIN_PREFIX@, r@),
        appended(old(doc).proteins@, final(doc).proteins@, object, r@),
        final(doc).small_molecules == old(doc).small_molecules,
        final(doc).complexes == old(doc).complexes,
        final(doc).reactions == old(doc).reactions,
        final(doc).equations == old(doc).equations,
        final(doc).parameters == old(doc).parameters,
{
    add_species(&mut doc.proteins, object, PROTEIN_PREFIX)
}

/// Adds each of `data` as a protein under a fresh identifier, in order, and
/// returns the identifiers.
pub fn add_proteins(doc: &mut Document, data: Vec<Species>) -> (r: Vec<String>)
    requires
        old(doc).proteins@.len() + data@.len() < usize::MAX,
    ensures
        r@.len() == data@.len(),
        successive_ids(species_ids_view(old(doc).proteins@), PROTEIN_PREFIX@, strings_view(r@)),
        final(doc).proteins@.len() == old(doc).proteins@.len() + data@.len(),
        final(doc).proteins@.take(old(doc).proteins@.len() as int) == old(doc).proteins@,
        forall|i: int|
            0 <= i < data@.len() ==> {
                let x = #[trigger] final(doc).proteins@[old(doc).proteins@.len() + i];
                &&& x.id@ == r@[i]@
                &&& x.name == data@[i].name
                &&& x.constant == data@[i].constant
            },
        final(doc).small_molecules == old(doc).small_molecules,
        final(doc).complexes == old(doc).complexes,
        final(doc).reactions == old(doc).reactions,
        final(doc).equations == old(doc).equations,
        final(doc).parameters == old(doc).parameters,
{
    add_all_species(&mut doc.proteins, data, PROTEIN_PREFIX)
}

/// Replaces the first protein with `data`'s identifier by `data`, and
/// returns that identifier; `NotFound`, with nothing changed, where there is
/// none.
pub fn update_protein(doc: &mut Document, data: Species) -> (r: Result<String, ModelError>)
    ensures
        match find_species_spec(old(doc).proteins@, data.id@) {
            Some(k) => r matches Ok(id) && id@ == data.id@ && final(doc).proteins@ == old(
                doc,
            ).proteins@.update(k, data),
            None => r == Err::<String, ModelError>(ModelError::NotFound) && final(doc).proteins@
                == old(doc).proteins@,
        },
        final(doc).small_molecules == old(doc).small_molecules,
        final(doc).complexes == old(doc).complexes,
        final(doc).reactions == old(doc).reactions,
        final(doc).equations == old(doc).equations,
        final(doc).parameters == old(doc).parameters,
{
    update_species(&mut doc.proteins, data)
}

/// The identifier and name of every protein, in order.
pub fn list_proteins(doc: &Document) -> (r: Vec<(String, String)>)
    ensures
        r@.len() == doc.proteins@.len(),
        forall|j: int|
            0 <= j < r@.len() ==> (#[trigger] r@[j]).0@ == doc.proteins@[j].id@ && r@[j].1@
                == doc.proteins@[j].name@,
{
    list_species(&doc.proteins)
}

/// The first protein with identifier `id`.
pub fn get_protein<'a>(doc: &'a Document, id: &str) -> (r: Result<&'a Species, ModelError>)
    ensures
        match find_species_spec(doc.proteins@, id@) {
            Some(k) => r == Ok::<&Species, ModelError>(&doc.proteins@[k]),
            None => r == Err::<&Species, ModelError>(ModelError::NotFound),
        },
{
    match find_species(&doc.proteins, id) {
        Some(k) => Ok(&doc.proteins[k]),
        None => Err(ModelError::NotFound),
    }
}

/// Removes the first protein with identifier `id`, if any.
pub fn delete_protein(doc: &mut Document, id: &str)
    ensures
        final(doc).proteins@ == match find_species_spec(old(doc).proteins@, id@) {
            Some(k) => old(doc).proteins@.remove(k),
            None => old(doc).proteins@,
        },
        final(doc).small_molecules == old(doc).small_molecules,
        final(doc).complexes == old(doc).complexes,
        final(doc).reactions == old(doc).reactions,
        final(doc).equations == old(doc).equations,
        final(doc).parameters == old(doc).parameters,
{
    delete_species(&mut doc.proteins, id);
}

} // verus!
