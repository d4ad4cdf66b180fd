//! The parts of a model document that equation synchronisation reads and
//! writes: species identifiers, reactions, equations and parameters.

use vstd::prelude::*;
use crate::expression::strings_view;
use crate::text::same_text;
use crate::numeral::Numeral;

verus! {

/// How an equation defines its species.
#[derive(PartialEq, Eq, Structural, Clone, Copy, Debug)]
pub enum EquationType {
    /// A rate of change, derived from the reactions.
    Ode,
    /// A value given by the expression at every time.
    Assignment,
    /// A value given by the expression at the start.
    InitialAssignment,
}

/// Why an operation on the document failed.
#[derive(PartialEq, Eq, Structural, Clone, Copy, Debug)]
pub enum ModelError {
    /// Derivation was asked for without any reaction.
    NoReactions,
    /// Some reaction has no rate expression.
    MissingKineticLaw,
    /// An equation's text is not a well-formed expression.
    InvalidExpression,
    /// No entity has the given identifier.
    NotFound,
    /// A parameter has no field of the given name.
    InvalidKey,
}

/// An equation for one species.
#[derive(Debug)]
pub struct Equation {
    pub species_id: String,
    pub equation: String,
    pub equation_type: EquationType,
}

/// An equation with its texts as character sequences.
pub struct EquationView {
    pub species_id: Seq<char>,
    pub equation: Seq<char>,
    pub equation_type: EquationType,
}

impl View for Equation {
    type V = EquationView;

    open spec fn view(&self) -> EquationView {
        EquationView {
            species_id: self.species_id@,
            equation: self.equation@,
            equation_type: self.equation_type,
        }
    }
}

pub open spec fn equations_view(v: Seq<Equation>) -> Seq<EquationView> {
    v.map_values(|e: Equation| e@)
}

/// A species taking part in a reaction, with its stoichiometric coefficient.
#[derive(Debug)]
pub struct ReactionElement {
    pub species_id: String,
    pub stoichiometry: Numeral,
}

/// A reaction: reactants, products and an optional rate expression.
#[derive(Debug)]
pub struct Reaction {
    pub id: String,
    pub name: String,
    pub reversible: bool,
    pub reactants: Vec<ReactionElement>,
    pub products: Vec<ReactionElement>,
    pub kinetic_law: Option<String>,
}

/// A named quantity of the model.
#[derive(Debug)]
pub struct Parameter {
    pub id: String,
    pub name: String,
    pub symbol: String,
    pub value: Option<Numeral>,
    pub initial_value: Option<Numeral>,
    pub lower_bound: Option<Numeral>,
    pub upper_bound: Option<Numeral>,
}

/// A parameter with its texts as character sequences.
pub struct ParameterView {
    pub id: Seq<char>,
    pub name: Seq<char>,
    pub symbol: Seq<char>,
    pub value: Option<Seq<char>>,
    pub initial_value: Option<Seq<char>>,
    pub lower_bound: Option<Seq<char>>,
    pub upper_bound: Option<Seq<char>>,
}

pub open spec fn numeral_view(n: Option<Numeral>) -> Option<Seq<char>> {
    match n {
        Some(x) => Some(x@),
        None => None,
    }
}

impl View for Parameter {
    type V = ParameterView;

    open spec fn view(&self) -> ParameterView {
        ParameterView {
            id: self.id@,
            name: self.name@,
            symbol: self.symbol@,
            value: numeral_view(self.value),
            initial_value: numeral_view(self.initial_value),
            lower_bound: numeral_view(self.lower_bound),
            upper_bound: numeral_view(self.upper_bound),
        }
    }
}

pub open spec fn params_view(v: Seq<Parameter>) -> Seq<ParameterView> {
    v.map_values(|p: Parameter| p@)
}

/// A parameter made for a symbol: identifier, name and symbol are the
/// symbol's text, no number is set.
pub open spec fn fresh_parameter(s: Seq<char>) -> ParameterView {
    ParameterView {
        id: s,
        name: s,
        symbol: s,
        value: None,
        initial_value: None,
        lower_bound: None,
        upper_bound: None,
    }
}

/// A copy of an optional number.
pub fn copy_numeral(n: &Option<Numeral>) -> (r: Option<Numeral>)
    ensures
        numeral_view(r) == numeral_view(*n),
{
    match n {
        Some(x) => Some(x.copy()),
        None => None,
    }
}

impl Parameter {
    /// A copy of the parameter, with all its values.
    pub fn duplicate(&self) -> (r: Parameter)
        ensures
            r@ == self@,
    {
        Parameter {
            id: self.id.clone(),
            name: self.name.clone(),
            symbol: self.symbol.clone(),
            value: copy_numeral(&self.value),
            initial_value: copy_numeral(&self.initial_value),
            lower_bound: copy_numeral(&self.lower_bound),
            upper_bound: copy_numeral(&self.upper_bound),
        }
    }

    /// A parameter for `symbol` with no number set.
    pub fn new(symbol: &String) -> (r: Parameter)
        ensures
            r@ == fresh_parameter(symbol@),
    {
        Parameter {
            id: symbol.clone(),
            name: symbol.clone(),
            symbol: symbol.clone(),
            value: None,
            initial_value: None,
            lower_bound: None,
            upper_bound: None,
        }
    }
}

/// A species: a small molecule, a protein or a complex.
#[derive(Debug)]
pub struct Species {
    pub id: String,
    pub name: String,
    /// Whether its amount stays fixed.
    pub constant: bool,
}

impl Species {
    /// A species that is not constant.
    pub fn new(id: &str, name: &str) -> (r: Species)
        ensures
            r.id@ == id@,
            r.name@ == name@,
            !r.constant,
    {
        Species { id: id.to_string(), name: name.to_string(), constant: false }
    }
}

/// The document: species of three kinds, reactions, equations, parameters.
#[derive(Debug)]
pub struct Document {
    pub small_molecules: Vec<Species>,
    pub proteins: Vec<Species>,
    pub complexes: Vec<Species>,
    pub reactions: Vec<Reaction>,
    pub equations: Vec<Equation>,
    pub parameters: Vec<Parameter>,
}

impl Document {
    /// An empty document.
    pub fn new() -> (r: Document)
        ensures
            r.small_molecules@.len() == 0,
            r.proteins@.len() == 0,
            r.complexes@.len() == 0,
            r.reactions@.len() == 0,
            r.equations@.len() == 0,
            r.parameters@.len() == 0,
    {
        Document {
            small_molecules: Vec::new(),
            proteins: Vec::new(),
            complexes: Vec::new(),
            reactions: Vec::new(),
            equations: Vec::new(),
            parameters: Vec::new(),
        }
    }
}

/// All species: small molecules, then proteins, then complexes.
pub open spec fn all_species(doc: Document) -> Seq<Species> {
    doc.small_molecules@ + doc.proteins@ + doc.complexes@
}

/// The identifiers of all species: small molecules, then proteins, then
/// complexes.
pub open spec fn species_ids(doc: Document) -> Seq<Seq<char>> {
    all_species(doc).map_values(|s: Species| s.id@)
}

/// `a` and `b` agree on everything but their parameters.
pub open spec fn same_but_parameters(a: Document, b: Document) -> bool {
    &&& a.small_molecules == b.small_molecules
    &&& a.proteins == b.proteins
    &&& a.complexes == b.complexes
    &&& a.reactions == b.reactions
    &&& a.equations == b.equations
}

/// `a` and `b` agree on everything but their equations.
pub open spec fn same_but_equations(a: Document, b: Document) -> bool {
    &&& a.small_molecules == b.small_molecules
    &&& a.proteins == b.proteins
    &&& a.complexes == b.complexes
    &&& a.reactions == b.reactions
    &&& a.parameters == b.parameters
}

/// Counts of the document's entities.
#[derive(Clone, Copy, Debug)]
pub struct Stats {
    pub small_molecules: usize,
    pub proteins: usize,
    pub reactions: usize,
    pub vessels: usize,
    pub measurements: usize,
}

/// The identifiers of all species of the document: small molecules, then
/// proteins, then complexes.
pub fn extract_species_ids(doc: &Document) -> (r: Vec<String>)
    ensures
        strings_view(r@) == species_ids(*doc),
{
    let mut r: Vec<String> = Vec::new();
    push_ids(&mut r, &doc.small_molecules);
    push_ids(&mut r, &doc.proteins);
    push_ids(&mut r, &doc.complexes);
    assert(strings_view(r@) =~= species_ids(*doc));
    r
}

/// Appends the identifiers of `part` to `r`.
fn push_ids(r: &mut Vec<String>, part: &Vec<Species>)
    ensures
        strings_view(final(r)@) == strings_view(old(r)@) + part@.map_values(|s: Species| s.id@),
{
    let ghost before = strings_view(r@);
    let mut i: usize = 0;
    while i < part.len()
        invariant
            i <= part@.len(),
            strings_view(r@) == before + part@.take(i as int).map_values(|s: Species| s.id@),
        decreases part@.len() - i,
    {
        let ghost prev = r@;
        r.push(part[i].id.clone());
        assert(strings_view(r@) =~= strings_view(prev).push(part@[i as int].id@));
        assert(part@.take(i + 1).map_values(|s: Species| s.id@) =~= part@.take(i as int).map_values(
            |s: Species| s.id@,
        ).push(part@[i as int].id@));
        i = i + 1;
    }
    assert(part@.take(i as int) =~= part@);
}

/// The identifier and name of every species: small molecules, then
/// proteins, then complexes.
pub fn get_all_species_ids_and_names(doc: &Document) -> (r: Vec<(String, String)>)
    ensures
        r@.len() == all_species(*doc).len(),
        forall|j: int|
            0 <= j < r@.len() ==> (#[trigger] r@[j]).0@ == all_species(*doc)[j].id@ && r@[j].1@
                == all_species(*doc)[j].name@,
{
    let mut r: Vec<(String, String)> = Vec::new();
    push_ids_and_names(&mut r, &doc.small_molecules);
    let ghost r1 = r@;
    push_ids_and_names(&mut r, &doc.proteins);
    let ghost r2 = r@;
    push_ids_and_names(&mut r, &doc.complexes);
    proof {
        let all = all_species(*doc);
        let a = doc.small_molecules@.len();
        let b = doc.proteins@.len();
        assert forall|j: int| 0 <= j < r@.len() implies (#[trigger] r@[j]).0@ == all[j].id@
            && r@[j].1@ == all[j].name@ by {
            if j < a {
                assert(all[j] == doc.small_molecules@[j]);
                assert(r@[j] == r2[j]);
                assert(r2[j] == r1[j]);
                assert(r1[0 + j] == r1[j]);
            } else if j < a + b {
                assert(all[j] == doc.proteins@[j - a]);
                assert(r@[j] == r2[j]);
                assert(r2[a + (j - a)] == r2[j]);
            } else {
                assert(r@[(a + b) + (j - a - b)] == r@[j]);
                assert(all[j] == doc.complexes@[j - a - b]);
            }
        }
    }
    r
}

fn push_ids_and_names(r: &mut Vec<(String, String)>, part: &Vec<Species>)
    ensures
        final(r)@.len() == old(r)@.len() + part@.len(),
        forall|j: int| 0 <= j < old(r)@.len() ==> #[trigger] final(r)@[j] == old(r)@[j],
        forall|j: int|
            0 <= j < part@.len() ==> (#[trigger] final(r)@[old(r)@.len() + j]).0@ == part@[j].id@
                && final(r)@[old(r)@.len() + j].1@ == part@[j].name@,
{
    let ghost start = r@;
    let mut i: usize = 0;
    while i < part.len()
        invariant
            i <= part@.len(),
            r@.len() == start.len() + i,
            forall|j: int| 0 <= j < start.len() ==> #[trigger] r@[j] == start[j],
            forall|j: int|
                0 <= j < i ==> (#[trigger] r@[start.len() + j]).0@ == part@[j].id@ && r@[start.len()
                    + j].1@ == part@[j].name@,
        decreases part@.len() - i,
    {
        r.push((part[i].id.clone(), part[i].name.clone()));
        i = i + 1;
    }
}

/// The name of the first species with identifier `species_id`.
pub fn get_species_name(doc: &Document, species_id: &str) -> (r: Result<String, ModelError>)
    ensures
        match r {
            Ok(name) => exists|k: int|
                0 <= k < all_species(*doc).len() && all_species(*doc)[k].id@ == species_id@
                    && name@ == all_species(*doc)[k].name@ && forall|j: int|
                    0 <= j < k ==> (#[trigger] all_species(*doc)[j]).id@ != species_id@,
            Err(e) => e == ModelError::NotFound && forall|j: int|
                0 <= j < all_species(*doc).len() ==> (#[trigger] all_species(*doc)[j]).id@
                    != species_id@,
        },
{
    let all = get_all_species_ids_and_names(doc);
    let mut i: usize = 0;
    while i < all.len()
        invariant
            i <= all@.len() == all_species(*doc).len(),
            forall|j: int|
                0 <= j < all@.len() ==> (#[trigger] all@[j]).0@ == all_species(*doc)[j].id@
                    && all@[j].1@ == all_species(*doc)[j].name@,
            forall|j: int| 0 <= j < i ==> (#[trigger] all_species(*doc)[j]).id@ != species_id@,
        decreases all@.len() - i,
    {
        if same_text(all[i].0.as_str(), species_id) {
            return Ok(all[i].1.clone());
        }
        assert(all@[i as int].0@ == all_species(*doc)[i as int].id@);
        i = i + 1;
    }
    Err(ModelError::NotFound)
}

/// The identifiers of the small molecules and proteins that are not
/// constant, in that order.
pub fn get_all_non_constant_species_ids(doc: &Document) -> (r: Vec<String>)
    ensures
        strings_view(r@) == (doc.small_molecules@ + doc.proteins@).filter(|s: Species| !s.constant).map_values(
            |s: Species| s.id@,
        ),
{
    let ghost both = doc.small_molecules@ + doc.proteins@;
    let mut r: Vec<String> = Vec::new();
    let mut k: usize = 0;
    let mut i: usize = 0;
    while k < 2
        invariant
            k <= 2,
            both == doc.small_molecules@ + doc.proteins@,
            k == 0 ==> r@.len() == 0,
            k == 1 ==> strings_view(r@) == doc.small_molecules@.filter(|s: Species| !s.constant).map_values(
                |s: Species| s.id@,
            ),
            k == 2 ==> strings_view(r@) == both.filter(|s: Species| !s.constant).map_values(
                |s: Species| s.id@,
            ),
        decreases 2 - k,
    {
        let part = if k == 0 {
            &doc.small_molecules
        } else {
            &doc.proteins
        };
        let ghost base = if k == 0 {
            Seq::<Species>::empty()
        } else {
            doc.small_molecules@
        };
        assert(base.filter(|s: Species| !s.constant).map_values(|s: Species| s.id@) == strings_view(r@)) by {
            reveal(Seq::filter);
            if k == 0 {
                assert(base.filter(|s: Species| !s.constant) =~= Seq::<Species>::empty());
            }
        }
        i = 0;
        while i < part.len()
            invariant
                i <= part@.len(),
                strings_view(r@) == (base + part@.take(i as int)).filter(|s: Species| !s.constant).map_values(
                    |s: Species| s.id@,
                ),
            decreases part@.len() - i,
        {
            proof {
                reveal(Seq::filter);
                assert((base + part@.take(i + 1)).drop_last() =~= base + part@.take(i as int));
                assert((base + part@.take(i + 1)).last() == part@[i as int]);
            }
            if !part[i].constant {
                let ghost prev = r@;
                r.push(part[i].id.clone());
                assert(strings_view(r@) =~= strings_view(prev).push(part@[i as int].id@));
            }
            i = i + 1;
        }
        assert(base + part@.take(i as int) =~= base + part@);
        proof {
            if k == 0 {
                assert(base + part@ =~= doc.small_molecules@);
            }
        }
        k = k + 1;
    }
    r
}

} // verus!
