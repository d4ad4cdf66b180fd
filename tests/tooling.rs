use enzymeml_suite::expression::free_symbols;
use enzymeml_suite::ids::{generate_id, to_decimal};
use enzymeml_suite::jupyter::{get_url_from_stdout, determine_python_source, get_next_available_port, push_if_exists, python_source};
use enzymeml_suite::mcp::{bytes_differ, compute_file_hash, install_needed, resource_mcp_name, TargetArch, TargetOs};
use enzymeml_suite::numeral::Numeral;
use enzymeml_suite::text::{contains_text, same_text};
use enzymeml_suite::units::UnitType;

#[test]
fn symbols_in_order_of_first_use() {
    assert_eq!(
        free_symbols("Vmax*S/(Km+S)"),
        Some(vec!["Vmax".to_string(), "S".to_string(), "Km".to_string()])
    );
    assert_eq!(free_symbols("sin(x) + 2.5"), Some(vec!["x".to_string()]));
    assert_eq!(free_symbols("a + * b"), None);
    assert_eq!(free_symbols(" "), None);
    assert_eq!(free_symbols("\t\r\n "), None);
    assert_eq!(free_symbols(" k "), Some(vec!["k".to_string()]));
}

#[test]
fn numerals_in_canonical_form() {
    assert_eq!(Numeral::parse("2").unwrap().to_text(), "2");
    assert_eq!(Numeral::parse("-13.25").unwrap().to_text(), "-13.25");
    assert!(Numeral::parse("1").unwrap().is_unit());
    assert!(Numeral::parse("-1").unwrap().is_unit());
    assert!(Numeral::parse("-0").unwrap().is_zero());
    assert!(!Numeral::parse("-0").unwrap().is_negative());
    assert!(Numeral::parse("0.5").unwrap().is_positive());
    for bad in ["", "-", "01", "1.", ".5", "2.50", "1e3", "NaN", "inf", "1.2.3"] {
        assert!(Numeral::parse(bad).is_none(), "{}", bad);
    }
}

#[test]
fn ids_take_the_first_free_number() {
    assert_eq!(generate_id(&vec![], "s"), "s1");
    let ids = vec!["s1".to_string(), "s2".to_string(), "s4".to_string()];
    assert_eq!(generate_id(&ids, "s"), "s3");
    assert_eq!(to_decimal(1203), "1203");
}

#[test]
fn python_sources_ranked() {
    assert_eq!(determine_python_source("/Users/a/Anaconda3/bin/python"), ("anaconda".to_string(), 1));
    assert_eq!(determine_python_source("/opt/Homebrew/bin/python3"), ("homebrew".to_string(), 2));
    assert_eq!(
        determine_python_source("/Library/Frameworks/Python.framework/Versions/3.11/bin/python3"),
        ("python.org".to_string(), 3)
    );
    assert_eq!(determine_python_source("/usr/bin/python3"), ("system".to_string(), 4));
    assert_eq!(determine_python_source("D:\\tools\\py.exe"), ("other".to_string(), 5));
    assert_eq!(python_source("/Users/a/CONDA"), ("other".to_string(), 5));
}

#[test]
fn first_free_port_is_chosen() {
    let busy = [8888u16, 8889];
    assert_eq!(get_next_available_port(|p| busy.contains(&p)), Some(8890));
    assert_eq!(get_next_available_port(|_| false), Some(8888));
    assert_eq!(get_next_available_port(|_| true), None);
}

#[test]
fn existing_paths_are_collected() {
    let mut list = vec![];
    push_if_exists(&mut list, "/bin".to_string(), true);
    push_if_exists(&mut list, "/nowhere".to_string(), false);
    assert_eq!(list, vec!["/bin".to_string()]);
}

#[test]
fn server_binaries_per_platform() {
    assert_eq!(
        resource_mcp_name(TargetOs::Linux, TargetArch::X86_64),
        "enzymeml-mcp-x86_64-unknown-linux-gnu/enzymeml-mcp"
    );
    assert_eq!(
        resource_mcp_name(TargetOs::Windows, TargetArch::Aarch64),
        "enzymeml-mcp-x86_64-pc-windows-msvc/enzymeml-mcp.exe"
    );
}

#[test]
fn unit_types_by_name() {
    assert_eq!(UnitType::from_name("mass_concentration"), Some(UnitType::MassConcentration));
    assert_eq!(UnitType::from_name("volume"), Some(UnitType::Volume));
    assert_eq!(UnitType::from_name("Volume"), None);
}

#[test]
fn text_search() {
    assert!(contains_text("abcabd", "abd"));
    assert!(!contains_text("abcab", "abd"));
    assert!(contains_text("abc", ""));
    assert!(same_text("ab", "ab"));
    assert!(!same_text("ab", "abc"));
}

#[test]
fn server_address_found_in_output() {
    let out = "[I 10:00] Serving at\n    http://localhost:8890/lab?token=0fa3b9 \nmore";
    assert_eq!(get_url_from_stdout(out), Some("http://localhost:8890/lab?token=0fa3b9".to_string()));
    assert_eq!(get_url_from_stdout("http://localhost:8890/tree"), None);
}

#[test]
fn binary_copied_only_when_digest_differs() {
    let digest = compute_file_hash(b"abc");
    assert_eq!(digest.len(), 32);
    assert_eq!(&digest[..4], &[0xba, 0x78, 0x16, 0xbf]);
    assert!(install_needed(None, b"abc"));
    assert!(!install_needed(Some(b"abc"), b"abc"));
    assert!(install_needed(Some(b"abd"), b"abc"));
    assert!(bytes_differ(b"ab", b"abc"));
}
