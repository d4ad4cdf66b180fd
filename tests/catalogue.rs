use enzymeml_suite::species::{
    add_protein, add_proteins, add_small_mol, add_small_mols, create_protein, create_small_mol,
    delete_protein, delete_small_mol, get_protein, get_small_mol, list_proteins, list_small_mols,
    update_protein, update_small_mol,
};
use enzymeml_suite::model::{
    Equation, EquationType, get_all_non_constant_species_ids, get_all_species_ids_and_names, get_species_name, Document, ModelError,
    Parameter, Reaction, ReactionElement, Species,
};
use enzymeml_suite::numeral::Numeral;
use enzymeml_suite::parameters::{
    create_parameter, delete_parameter, get_parameter, list_parameters, partial_update_parameter,
    update_parameter, ParameterBuffer,
};
use enzymeml_suite::reactions::{
    add_reaction, add_reactions, create_reaction, delete_reaction, get_reaction, list_reactions, update_reaction,
};

fn species_doc() -> Document {
    let mut doc = Document::new();
    doc.small_molecules.push(Species::new("s1", "Glucose"));
    let mut atp = Species::new("s2", "ATP");
    atp.constant = true;
    doc.small_molecules.push(atp);
    doc.proteins.push(Species::new("p1", "Hexokinase"));
    doc.complexes.push(Species::new("c1", "Complex"));
    doc
}

fn reaction_with_law(law: Option<&str>) -> Reaction {
    Reaction {
        id: String::new(),
        name: "Phosphorylation".to_string(),
        reversible: true,
        reactants: vec![ReactionElement { species_id: "s1".to_string(), stoichiometry: Numeral::parse("1").unwrap() }],
        products: vec![],
        kinetic_law: law.map(|l| l.to_string()),
    }
}

#[test]
fn species_listing_and_names() {
    let doc = species_doc();
    let all = get_all_species_ids_and_names(&doc);
    assert_eq!(all.len(), 4);
    assert_eq!(all[2], ("p1".to_string(), "Hexokinase".to_string()));
    assert_eq!(all[3].0, "c1");
    assert_eq!(get_species_name(&doc, "s2"), Ok("ATP".to_string()));
    assert_eq!(get_species_name(&doc, "zz"), Err(ModelError::NotFound));
    assert_eq!(get_all_non_constant_species_ids(&doc), vec!["s1".to_string(), "p1".to_string()]);
}

#[test]
fn reactions_get_fresh_ids_and_their_laws_parameters() {
    let mut doc = species_doc();
    let mut buffer = ParameterBuffer::new();
    let id = add_reaction(&mut doc, &mut buffer, reaction_with_law(Some("kcat*p1*s1"))).unwrap();
    assert_eq!(id, "r1");
    assert_eq!(doc.parameters.len(), 1);
    assert_eq!(doc.parameters[0].id, "kcat");
    assert_eq!(create_reaction(&mut doc), "r2");
    assert_eq!(list_reactions(&doc)[1], ("r2".to_string(), "New Reaction".to_string()));
    assert_eq!(
        add_reaction(&mut doc, &mut buffer, reaction_with_law(Some("k*("))),
        Err(ModelError::InvalidExpression)
    );
    assert_eq!(doc.reactions.len(), 2);
    let mut changed = reaction_with_law(Some("v*s1"));
    changed.id = "r2".to_string();
    assert_eq!(update_reaction(&mut doc, &mut buffer, changed), Ok(()));
    assert_eq!(get_reaction(&doc, "r2").unwrap().kinetic_law, Some("v*s1".to_string()));
    assert_eq!(doc.parameters.len(), 2);
    let mut missing = reaction_with_law(None);
    missing.id = "r9".to_string();
    assert_eq!(update_reaction(&mut doc, &mut buffer, missing), Err(ModelError::NotFound));
    delete_reaction(&mut doc, "r1");
    assert_eq!(doc.reactions.len(), 1);
    assert!(get_reaction(&doc, "r1").is_err());
    assert_eq!(create_reaction(&mut doc), "r1");
}

#[test]
fn parameters_crud() {
    let mut doc = Document::new();
    assert_eq!(create_parameter(&mut doc), "q1");
    assert_eq!(create_parameter(&mut doc), "q2");
    assert_eq!(list_parameters(&doc)[0], ("q1".to_string(), "New Parameter".to_string()));
    let v = Numeral::parse("0.25").unwrap();
    assert_eq!(partial_update_parameter(&mut doc, "q2", "lower_bound", v), Ok(()));
    assert_eq!(get_parameter(&doc, "q2").unwrap().lower_bound.as_ref().unwrap().to_text(), "0.25");
    let w = Numeral::parse("1").unwrap();
    assert_eq!(partial_update_parameter(&mut doc, "q2", "colour", w), Err(ModelError::InvalidKey));
    let w = Numeral::parse("1").unwrap();
    assert_eq!(partial_update_parameter(&mut doc, "q7", "value", w), Err(ModelError::NotFound));
    let mut p = Parameter::new(&"q1".to_string());
    p.name = "Rate".to_string();
    assert_eq!(update_parameter(&mut doc, p), Ok("q1".to_string()));
    assert_eq!(get_parameter(&doc, "q1").unwrap().name, "Rate");
    assert_eq!(update_parameter(&mut doc, Parameter::new(&"x".to_string())), Err(ModelError::NotFound));
    delete_parameter(&mut doc, "q1");
    assert_eq!(list_parameters(&doc).len(), 1);
    assert!(get_parameter(&doc, "q1").is_err());
}

#[test]
fn several_reactions_added_together() {
    let mut doc = species_doc();
    let mut buffer = ParameterBuffer::new();
    create_reaction(&mut doc);
    let ids = add_reactions(
        &mut doc,
        &mut buffer,
        vec![reaction_with_law(Some("ka*s1")), reaction_with_law(None), reaction_with_law(Some("kb"))],
    )
    .unwrap();
    assert_eq!(ids, vec!["r2".to_string(), "r3".to_string(), "r4".to_string()]);
    assert_eq!(doc.reactions.len(), 4);
    assert_eq!(doc.reactions[3].id, "r4");
    assert_eq!(doc.parameters.len(), 2);
    let r = add_reactions(
        &mut doc,
        &mut buffer,
        vec![reaction_with_law(Some("kc")), reaction_with_law(Some("+)"))],
    );
    assert_eq!(r, Err(ModelError::InvalidExpression));
    assert_eq!(doc.reactions.len(), 4);
    assert_eq!(doc.parameters.len(), 3);
}

#[test]
fn small_molecules_and_proteins_crud() {
    let mut doc = species_doc();
    assert_eq!(create_small_mol(&mut doc), "s3");
    assert_eq!(list_small_mols(&doc)[2], ("s3".to_string(), "New Small Molecule".to_string()));
    assert!(!doc.small_molecules[2].constant);
    assert_eq!(add_small_mol(&mut doc, Species::new("ignored", "Pyruvate")), "s4");
    let ids = add_small_mols(&mut doc, vec![Species::new("", "A"), Species::new("", "B")]);
    assert_eq!(ids, vec!["s5".to_string(), "s6".to_string()]);
    assert_eq!(get_small_mol(&doc, "s6").unwrap().name, "B");
    let mut changed = Species::new("s1", "D-Glucose");
    changed.constant = true;
    assert_eq!(update_small_mol(&mut doc, changed), Ok("s1".to_string()));
    assert!(get_small_mol(&doc, "s1").unwrap().constant);
    assert_eq!(update_small_mol(&mut doc, Species::new("s99", "x")), Err(ModelError::NotFound));
    doc.equations.push(Equation {
        species_id: "s1".to_string(),
        equation: "k*s1".to_string(),
        equation_type: EquationType::Ode,
    });
    delete_small_mol(&mut doc, "s1");
    assert!(get_small_mol(&doc, "s1").is_err());
    assert!(doc.equations.is_empty());

    assert_eq!(create_protein(&mut doc), "p2");
    assert!(get_protein(&doc, "p2").unwrap().constant);
    assert_eq!(list_proteins(&doc)[1].1, "New Protein");
    assert_eq!(add_protein(&mut doc, Species::new("", "Kinase")), "p3");
    assert_eq!(add_proteins(&mut doc, vec![Species::new("", "Y")]), vec!["p4".to_string()]);
    assert_eq!(update_protein(&mut doc, Species::new("p4", "Z")), Ok("p4".to_string()));
    delete_protein(&mut doc, "p1");
    assert_eq!(list_proteins(&doc).len(), 3);
    assert!(matches!(get_protein(&doc, "p1"), Err(ModelError::NotFound)));
}
