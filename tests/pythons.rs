use enzymeml_suite::jupyter::{
    default_selection, installation_from_output, is_detected, merge_custom_envs, project_folder_name,
    python_version, rank_installations, PythonInstallation,
};

fn inst(path: &str, priority: u8, custom: bool) -> PythonInstallation {
    PythonInstallation {
        path: path.to_string(),
        version: "3.11.5".to_string(),
        source: "x".to_string(),
        priority,
        is_custom: custom,
    }
}

fn paths(v: &[PythonInstallation]) -> Vec<&str> {
    v.iter().map(|p| p.path.as_str()).collect()
}

#[test]
fn version_read_from_output() {
    assert_eq!(python_version("Python 3.11.5\n"), Some("3.11.5".to_string()));
    assert_eq!(python_version("Python 3.13.0.rc1"), Some("3.13.0.rc1".to_string()));
    assert_eq!(python_version("python 3"), None);
}

#[test]
fn installation_built_from_output() {
    let i = installation_from_output("/usr/bin/python3", "Python 3.10.12", true).unwrap();
    assert_eq!(i.version, "3.10.12");
    assert_eq!(i.source, "system");
    assert_eq!(i.priority, 4);
    assert!(i.is_custom);
    assert!(installation_from_output("/usr/bin/python3", "not python", false).is_none());
}

#[test]
fn custom_envs_merged_without_duplicates() {
    let mut found = vec![inst("/a", 1, false)];
    merge_custom_envs(&mut found, vec![inst("/a", 5, true), inst("/b", 5, true), inst("/b", 2, true)]);
    assert_eq!(paths(&found), vec!["/a", "/b"]);
    assert!(!found[0].is_custom);
    assert_eq!(found[1].priority, 5);
    assert!(is_detected(&found, "/b"));
    assert!(!is_detected(&found, "/c"));
}

#[test]
fn installations_ranked_stably() {
    let v = vec![inst("/s", 4, false), inst("/c1", 1, false), inst("/o", 5, false), inst("/c2", 1, false), inst("/h", 2, false)];
    let r = rank_installations(v);
    assert_eq!(paths(&r), vec!["/c1", "/c2", "/h", "/s", "/o"]);
    assert_eq!(default_selection(None, &r), Some("/c1".to_string()));
    assert_eq!(default_selection(Some("/o".to_string()), &r), Some("/o".to_string()));
    assert_eq!(default_selection(None, &vec![]), None);
}

#[test]
fn project_folder_named_after_title() {
    assert_eq!(project_folder_name("My Kinetics Model", Some(12)), "my_kinetics_model-12");
    assert_eq!(project_folder_name("Draft", None), "draft");
    assert_eq!(project_folder_name("A B", Some(-3)), "a_b--3");
}
