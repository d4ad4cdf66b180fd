use enzymeml_suite::equations::{
    assemble_equation, derive_from_reactions, derive_part_from_reac, has_species_id, sort_parts,
    EquationPart,
};
use enzymeml_suite::model::{Species, Document, Equation, ModelError, EquationType, Reaction, ReactionElement};
use enzymeml_suite::numeral::Numeral;
use enzymeml_suite::parameters::ParameterBuffer;

fn num(t: &str) -> Numeral {
    Numeral::parse(t).unwrap()
}

fn element(id: &str, c: &str) -> ReactionElement {
    ReactionElement { species_id: id.to_string(), stoichiometry: num(c) }
}

fn reaction(id: &str, reactants: Vec<ReactionElement>, products: Vec<ReactionElement>, law: Option<&str>) -> Reaction {
    Reaction {
        id: id.to_string(),
        name: id.to_string(),
        reversible: false,
        reactants,
        products,
        kinetic_law: law.map(|l| l.to_string()),
    }
}

fn equation(species: &str, text: &str, kind: EquationType) -> Equation {
    Equation { species_id: species.to_string(), equation: text.to_string(), equation_type: kind }
}

fn network() -> Document {
    let mut doc = Document::new();
    doc.small_molecules.push(Species::new("S", "S"));
    doc.small_molecules.push(Species::new("P", "P"));
    doc.proteins.push(Species::new("E", "E"));
    doc.reactions.push(reaction("r1", vec![element("S", "2")], vec![element("P", "1")], Some("k1*S")));
    doc.reactions.push(reaction("r2", vec![element("E", "1")], vec![element("S", "1")], Some("k2*E")));
    doc.equations.push(equation("S", "", EquationType::Ode));
    doc
}

fn part(negative: bool, c: &str, law: &str) -> EquationPart {
    EquationPart { negative, stoichiometry: num(c), equation: law.to_string() }
}

#[test]
fn derived_rhs_puts_added_parts_first() {
    let mut doc = network();
    let mut buffer = ParameterBuffer::new();
    assert_eq!(derive_from_reactions(&mut doc, &mut buffer), Ok(()));
    assert_eq!(doc.equations[0].equation, "k2*E - 2*k1*S");
    let ids: Vec<String> = doc.parameters.iter().map(|p| p.id.clone()).collect();
    assert_eq!(ids, vec!["k2".to_string(), "k1".to_string()]);
}

#[test]
fn derivation_without_reactions_fails() {
    let mut doc = Document::new();
    doc.equations.push(equation("S", "x", EquationType::Ode));
    let mut buffer = ParameterBuffer::new();
    assert_eq!(derive_from_reactions(&mut doc, &mut buffer), Err(ModelError::NoReactions));
    assert_eq!(doc.equations[0].equation, "x");
}

#[test]
fn derivation_with_a_missing_rate_law_changes_nothing() {
    let mut doc = network();
    doc.reactions.push(reaction("r3", vec![element("P", "1")], vec![], None));
    doc.equations[0].equation = "old".to_string();
    doc.equations.push(equation("P", "keep", EquationType::Ode));
    let mut buffer = ParameterBuffer::new();
    assert_eq!(derive_from_reactions(&mut doc, &mut buffer), Err(ModelError::MissingKineticLaw));
    assert_eq!(doc.equations[0].equation, "old");
    assert_eq!(doc.equations[1].equation, "keep");
    assert!(doc.parameters.is_empty());
    assert_eq!(buffer.len(), 0);
}

#[test]
fn derivation_leaves_assignments_alone() {
    let mut doc = network();
    doc.equations.push(equation("P", "S*2", EquationType::Assignment));
    let mut buffer = ParameterBuffer::new();
    assert_eq!(derive_from_reactions(&mut doc, &mut buffer), Ok(()));
    assert_eq!(doc.equations[1].equation, "S*2");
}

#[test]
fn first_subtracted_part_carries_its_sign() {
    let parts = vec![part(true, "2", "k1*S"), part(false, "1", "k2*E")];
    assert_eq!(assemble_equation(&parts), "-2 * k1*S + k2*E");
}

#[test]
fn unit_coefficient_is_left_out() {
    let parts = vec![part(true, "1", "k1*S"), part(true, "1", "k3")];
    assert_eq!(assemble_equation(&parts), "-k1*S - k3");
}

#[test]
fn compound_laws_are_parenthesised() {
    let parts = vec![part(false, "0.5", "k1*S - k2*P"), part(false, "3", "a+b")];
    assert_eq!(assemble_equation(&parts), "0.5 * (k1*S - k2*P) + 3*(a+b)");
}

#[test]
fn empty_parts_give_empty_text() {
    assert_eq!(assemble_equation(&vec![]), "");
}

#[test]
fn sorting_keeps_order_within_a_sign() {
    let parts = vec![part(true, "1", "a"), part(false, "1", "b"), part(true, "1", "c"), part(false, "1", "d")];
    let sorted = sort_parts(parts);
    let laws: Vec<&str> = sorted.iter().map(|p| p.equation.as_str()).collect();
    assert_eq!(laws, vec!["b", "d", "a", "c"]);
}

#[test]
fn reactant_counts_negatively_product_positively() {
    let doc = network();
    let s = equation("S", "", EquationType::Ode);
    let mut parts = vec![];
    derive_part_from_reac(&s, &mut parts, &doc.reactions[0]);
    derive_part_from_reac(&s, &mut parts, &doc.reactions[1]);
    assert_eq!(parts.len(), 2);
    assert!(parts[0].negative);
    assert_eq!(parts[0].stoichiometry.to_text(), "2");
    assert!(!parts[1].negative);
    assert_eq!(parts[1].equation, "k2*E");
}

#[test]
fn absent_species_contributes_nothing() {
    let doc = network();
    let x = equation("X", "", EquationType::Ode);
    let mut parts = vec![];
    assert!(!has_species_id(&x, &doc.reactions[0]));
    derive_part_from_reac(&x, &mut parts, &doc.reactions[0]);
    assert!(parts.is_empty());
    assert!(has_species_id(&equation("P", "", EquationType::Ode), &doc.reactions[0]));
}

#[test]
fn negative_product_coefficient_is_subtracted() {
    let r = reaction("r", vec![], vec![element("S", "-1.5")], Some("k"));
    let mut parts = vec![];
    derive_part_from_reac(&equation("S", "", EquationType::Ode), &mut parts, &r);
    assert!(parts[0].negative);
    assert_eq!(assemble_equation(&parts), "-1.5 * k");
}
