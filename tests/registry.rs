use monorepo_agent::config::{get_config_path, join, AppConfig, SubmoduleConfig};
use monorepo_agent::registry::{parse_names, register_names, register_submodules, RegistrationError};

fn names_of(c: &AppConfig) -> Vec<String> {
    c.submodules.iter().map(|s| s.name.clone()).collect()
}

fn same_entry(a: &SubmoduleConfig, b: &SubmoduleConfig) -> bool {
    a.name == b.name && a.path == b.path && a.include_rules == b.include_rules
        && a.exclude_rules == b.exclude_rules
}

#[test]
fn init_two_submodules_on_empty_registry() {
    let mut c = AppConfig::new();
    let r = register_names(&mut c, "api,web");
    assert_eq!(r, Ok(vec![true, true]));
    assert_eq!(names_of(&c), vec!["api".to_string(), "web".to_string()]);
    for e in &c.submodules {
        assert_eq!(e.path, e.name);
        assert_eq!(e.include_rules, vec!["lib/***", "pubspec.yaml", "test/***"]);
        assert_eq!(e.exclude_rules, vec!["*"]);
    }
}

#[test]
fn registering_twice_is_idempotent() {
    let mut c = AppConfig::new();
    register_names(&mut c, "api").unwrap();
    let first: Vec<SubmoduleConfig> = c.submodules.clone();
    let r = register_names(&mut c, "api");
    assert_eq!(r, Ok(vec![false]));
    assert_eq!(c.submodules.len(), 1);
    assert!(same_entry(&c.submodules[0], &first[0]));
}

#[test]
fn registering_keeps_existing_entries_untouched() {
    let mut c = AppConfig::new();
    register_names(&mut c, "api").unwrap();
    c.submodules[0].exclude_rules = vec!["build/".to_string()];
    let r = register_names(&mut c, "web,api,web");
    assert_eq!(r, Ok(vec![true, false, false]));
    assert_eq!(names_of(&c), vec!["api".to_string(), "web".to_string()]);
    assert_eq!(c.submodules[0].exclude_rules, vec!["build/"]);
}

#[test]
fn names_are_trimmed() {
    let mut c = AppConfig::new();
    register_names(&mut c, "  api , web\t").unwrap();
    assert_eq!(names_of(&c), vec!["api".to_string(), "web".to_string()]);
    assert_eq!(c.submodules[0].path, "api");
}

#[test]
fn blank_name_is_refused_without_change() {
    let mut c = AppConfig::new();
    register_names(&mut c, "api").unwrap();
    for bad in ["", "   ", "web,,x", "web, ,x", "web,"] {
        let r = register_names(&mut c, bad);
        assert_eq!(r, Err(RegistrationError::BlankName));
        assert_eq!(names_of(&c), vec!["api".to_string()]);
    }
}

#[test]
fn empty_list_is_refused() {
    let mut c = AppConfig::new();
    let r = register_submodules(&mut c, &vec![]);
    assert_eq!(r, Err(RegistrationError::EmptyList));
    assert!(c.submodules.is_empty());
}

#[test]
fn whitespace_name_in_list_is_blank() {
    let mut c = AppConfig::new();
    let r = register_submodules(&mut c, &vec!["api".to_string(), " \t".to_string()]);
    assert_eq!(r, Err(RegistrationError::BlankName));
    assert!(c.submodules.is_empty());
}

#[test]
fn parse_names_splits_and_trims() {
    assert_eq!(parse_names(" a ,b,, c"), vec!["a", "b", "", "c"]);
    assert_eq!(parse_names(""), vec![""]);
    assert_eq!(parse_names("x"), vec!["x"]);
}

#[test]
fn config_path_and_join() {
    assert_eq!(get_config_path(".monorepo"), ".monorepo/config.json");
    assert_eq!(get_config_path("/tmp/"), "/tmp/config.json");
    assert_eq!(get_config_path(""), "config.json");
    assert_eq!(join("/home/u/mono", "pkgs/api"), "/home/u/mono/pkgs/api");
    assert_eq!(join("/home/u/mono", "/abs"), "/abs");
}
