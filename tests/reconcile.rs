use enzymeml_suite::equations::{create_equation, delete_equation, get_equation, list_equations, update_equation};
use enzymeml_suite::model::{Species, Document, Equation, ModelError, EquationType, Parameter};
use enzymeml_suite::numeral::Numeral;
use enzymeml_suite::parameters::{
    cleanup_parameters, create_or_from_buffer, extract_all_symbols, extract_variables,
    move_to_param_buffer, process_equation, ParameterBuffer,
};

fn equation(species: &str, text: &str, kind: EquationType) -> Equation {
    Equation { species_id: species.to_string(), equation: text.to_string(), equation_type: kind }
}

fn ids(doc: &Document) -> Vec<String> {
    doc.parameters.iter().map(|p| p.id.clone()).collect()
}

fn doc_with_species() -> Document {
    let mut doc = Document::new();
    doc.small_molecules.push(Species::new("S", "S"));
    doc.proteins.push(Species::new("E", "E"));
    doc
}

#[test]
fn unbound_symbols_become_parameters() {
    let mut doc = doc_with_species();
    let eq = equation("P", "Vmax*S/(Km+S)", EquationType::Ode);
    doc.equations.push(equation("P", "Vmax*S/(Km+S)", EquationType::Ode));
    let mut buffer = ParameterBuffer::new();
    assert_eq!(process_equation(&mut doc, &mut buffer, &eq), Ok(()));
    assert_eq!(ids(&doc), vec!["Vmax".to_string(), "Km".to_string()]);
    assert_eq!(doc.parameters[1].name, "Km");
    assert_eq!(doc.parameters[1].symbol, "Km");
    assert!(doc.parameters[1].value.is_none());
}

#[test]
fn processing_twice_changes_nothing_more() {
    let mut doc = doc_with_species();
    let eq = equation("P", "Vmax*S/(Km+S) + Vmax", EquationType::Ode);
    let mut buffer = ParameterBuffer::new();
    process_equation(&mut doc, &mut buffer, &eq).unwrap();
    let once = ids(&doc);
    process_equation(&mut doc, &mut buffer, &eq).unwrap();
    assert_eq!(ids(&doc), once);
    assert_eq!(once.len(), 2);
}

#[test]
fn assignment_targets_are_bound() {
    let mut doc = doc_with_species();
    doc.equations.push(equation("T", "2*S", EquationType::Assignment));
    doc.equations.push(equation("U", "3", EquationType::InitialAssignment));
    let eq = equation("P", "T*U*k", EquationType::Ode);
    let mut buffer = ParameterBuffer::new();
    process_equation(&mut doc, &mut buffer, &eq).unwrap();
    assert_eq!(ids(&doc), vec!["k".to_string()]);
    let vars = extract_variables(&doc);
    assert_eq!(vars, vec!["S".to_string(), "E".to_string(), "T".to_string(), "U".to_string()]);
}

#[test]
fn blank_equation_is_rejected_and_skipped() {
    let mut doc = doc_with_species();
    let mut buffer = ParameterBuffer::new();
    doc.parameters.push(Parameter::new(&"k".to_string()));
    doc.equations.push(equation("P", "k*S", EquationType::Ode));
    let r = update_equation(&mut doc, &mut buffer, equation("P", " \t\n", EquationType::Ode));
    assert_eq!(r, Err(ModelError::InvalidExpression));
    assert!(doc.parameters.is_empty());
    assert_eq!(buffer.ids(), vec!["k".to_string()]);
    assert_eq!(extract_all_symbols(&doc), Vec::<String>::new());
}

#[test]
fn unparsable_equation_is_rejected() {
    let mut doc = doc_with_species();
    let eq = equation("P", "k1*(S", EquationType::Ode);
    let mut buffer = ParameterBuffer::new();
    assert_eq!(process_equation(&mut doc, &mut buffer, &eq), Err(ModelError::InvalidExpression));
    assert!(doc.parameters.is_empty());
}

#[test]
fn retired_parameter_returns_with_its_value() {
    let mut doc = doc_with_species();
    let mut buffer = ParameterBuffer::new();
    let mut k1 = Parameter::new(&"k1".to_string());
    k1.value = Some(Numeral::parse("5").unwrap());
    doc.parameters.push(k1);
    cleanup_parameters(&mut doc, &mut buffer);
    assert!(doc.parameters.is_empty());
    assert_eq!(buffer.ids(), vec!["k1".to_string()]);
    let eq = equation("P", "k1*S", EquationType::Ode);
    doc.equations.push(equation("P", "k1*S", EquationType::Ode));
    process_equation(&mut doc, &mut buffer, &eq).unwrap();
    assert_eq!(ids(&doc), vec!["k1".to_string()]);
    assert_eq!(doc.parameters[0].value.as_ref().unwrap().to_text(), "5");
    assert_eq!(buffer.len(), 0);
}

#[test]
fn buffer_keeps_ten_most_recent() {
    let mut buffer = ParameterBuffer::new();
    for i in 0..11 {
        move_to_param_buffer(&mut buffer, Parameter::new(&format!("p{}", i)));
    }
    assert_eq!(buffer.len(), 10);
    let held = buffer.ids();
    assert_eq!(held[0], "p1");
    assert_eq!(held[9], "p10");
    assert!(buffer.get(&"p0".to_string()).is_none());
}

#[test]
fn cleanup_retires_unused_in_order() {
    let mut doc = doc_with_species();
    doc.equations.push(equation("P", "b*S", EquationType::Ode));
    doc.equations.push(equation("Q", "((", EquationType::Ode));
    for id in ["a", "b", "c"] {
        doc.parameters.push(Parameter::new(&id.to_string()));
    }
    let mut buffer = ParameterBuffer::new();
    cleanup_parameters(&mut doc, &mut buffer);
    assert_eq!(ids(&doc), vec!["b".to_string()]);
    assert_eq!(buffer.ids(), vec!["a".to_string(), "c".to_string()]);
    assert_eq!(extract_all_symbols(&doc), vec!["b".to_string(), "S".to_string()]);
}

#[test]
fn buffer_entry_is_copied_for_reuse() {
    let mut buffer = ParameterBuffer::new();
    let mut old = Parameter::new(&"k".to_string());
    old.upper_bound = Some(Numeral::parse("10").unwrap());
    move_to_param_buffer(&mut buffer, old);
    move_to_param_buffer(&mut buffer, Parameter::new(&"m".to_string()));
    let p = create_or_from_buffer(&buffer, &"k".to_string());
    assert_eq!(p.upper_bound.unwrap().to_text(), "10");
    assert_eq!(buffer.ids(), vec!["k".to_string(), "m".to_string()]);
    let fresh = create_or_from_buffer(&buffer, &"z".to_string());
    assert_eq!(fresh.id, "z");
    assert!(fresh.upper_bound.is_none());
}

#[test]
fn equation_crud() {
    let mut doc = doc_with_species();
    let mut buffer = ParameterBuffer::new();
    create_equation(&mut doc);
    assert_eq!(list_equations(&doc), vec![(String::new(), EquationType::Assignment)]);
    doc.equations.push(equation("P", "k*S", EquationType::Ode));
    let r = update_equation(&mut doc, &mut buffer, equation("P", "v*S", EquationType::Ode));
    assert_eq!(r, Ok("P".to_string()));
    assert_eq!(ids(&doc), vec!["v".to_string()]);
    assert_eq!(get_equation(&doc, "P").unwrap().equation, "v*S");
    assert_eq!(
        update_equation(&mut doc, &mut buffer, equation("Z", "x", EquationType::Ode)),
        Err(ModelError::NotFound)
    );
    assert!(get_equation(&doc, "Z").is_err());
    delete_equation(&mut doc, &mut buffer, "P");
    assert!(doc.parameters.is_empty());
    assert_eq!(buffer.ids(), vec!["v".to_string()]);
    assert_eq!(doc.equations.len(), 1);
}
