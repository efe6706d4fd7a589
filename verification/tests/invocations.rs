use arg_parser::catalog::DEFAULT_API_SOCK_PATH;
use arg_parser::catalog::DEFAULT_INSTANCE_ID;
use arg_parser::firecracker_registry;
use arg_parser::validate;
use arg_parser::ArgError;
use arg_parser::ArgumentInfo;
use arg_parser::ArgumentRegistry;
use arg_parser::Outcome;

#[test]
fn omitted_required_argument_without_default_is_reported() {
    let specs = vec![
        ArgumentInfo::new("kernel", true, None, None, true, None, "Path to the kernel image"),
        ArgumentInfo::new("id", false, None, None, true, None, "Identifier"),
    ];
    let registry = ArgumentRegistry::new(specs).expect("well-formed");
    let args = vec!["--id", "vm7"];
    match validate(&registry, &args) {
        Err(error) => assert_eq!(error, ArgError::MissingRequiredArgument("kernel")),
        Ok(outcome) => panic!("accepted: {:?}", outcome),
    }
}

#[test]
fn first_omitted_required_argument_is_the_one_reported() {
    let specs = vec![
        ArgumentInfo::new("id", true, None, None, true, Some("anon"), ""),
        ArgumentInfo::new("kernel", true, None, None, true, None, ""),
        ArgumentInfo::new("rootfs", true, None, None, true, None, ""),
    ];
    let registry = ArgumentRegistry::new(specs).expect("well-formed");
    let args: Vec<&str> = Vec::new();
    match validate(&registry, &args) {
        Err(error) => assert_eq!(error, ArgError::MissingRequiredArgument("kernel")),
        Ok(outcome) => panic!("accepted: {:?}", outcome),
    }
}

#[test]
fn a_violation_among_the_flags_comes_before_a_missing_argument() {
    let specs = vec![ArgumentInfo::new("kernel", true, None, None, true, None, "")];
    let registry = ArgumentRegistry::new(specs).expect("well-formed");
    let args = vec!["--bogus"];
    match validate(&registry, &args) {
        Err(error) => assert_eq!(error, ArgError::UnknownArgument("bogus")),
        Ok(outcome) => panic!("accepted: {:?}", outcome),
    }
}

#[test]
fn omitted_arguments_resolve_to_their_defaults() {
    let registry = firecracker_registry();
    let args: Vec<&str> = Vec::new();
    match validate(&registry, &args) {
        Ok(Outcome::Resolved { values, trailing }) => {
            assert_eq!(values.get("api-sock"), Some("/tmp/firecracker.socket"));
            assert_eq!(values.get("api-sock"), Some(DEFAULT_API_SOCK_PATH));
            assert_eq!(values.get("id"), Some("anonymous-instance"));
            assert_eq!(values.get("id"), Some(DEFAULT_INSTANCE_ID));
            assert_eq!(values.get("seccomp-level"), Some("2"));
            assert_eq!(values.len(), 3);
            assert!(trailing.is_empty());
        },
        other => panic!("unexpected: {:?}", other),
    }
}

#[test]
fn a_given_value_replaces_the_default() {
    let registry = firecracker_registry();
    let args = vec!["--id", "vm7"];
    match validate(&registry, &args) {
        Ok(Outcome::Resolved { values, .. }) => {
            assert_eq!(values.get("id"), Some("vm7"));
            assert_eq!(values.get("api-sock"), Some("/tmp/firecracker.socket"));
            assert_eq!(values.get("seccomp-level"), Some("2"));
            assert_eq!(values.len(), 3);
        },
        other => panic!("unexpected: {:?}", other),
    }
}

#[test]
fn an_optional_argument_with_a_default_stays_absent_when_omitted() {
    let specs = vec![ArgumentInfo::new("id", false, None, None, true, Some("anon"), "")];
    let registry = ArgumentRegistry::new(specs).expect("well-formed");
    let args: Vec<&str> = Vec::new();
    match validate(&registry, &args) {
        Ok(Outcome::Resolved { values, .. }) => {
            assert_eq!(values.get("id"), None);
            assert!(values.is_empty());
        },
        other => panic!("unexpected: {:?}", other),
    }
}

#[test]
fn absent_optional_arguments_are_not_resolved() {
    let registry = firecracker_registry();
    let args: Vec<&str> = Vec::new();
    match validate(&registry, &args) {
        Ok(Outcome::Resolved { values, .. }) => {
            assert_eq!(values.get("start-time-us"), None);
            assert_eq!(values.get("start-time-cpu-us"), None);
            assert_eq!(values.get("no-api"), None);
            assert_eq!(values.get("config-file"), None);
            assert_eq!(values.get("extra-args"), None);
            assert!(!values.contains_key("config-file"));
        },
        other => panic!("unexpected: {:?}", other),
    }
}

#[test]
fn no_api_without_config_file_is_a_missing_dependency() {
    let registry = firecracker_registry();
    let args = vec!["--no-api"];
    match validate(&registry, &args) {
        Err(error) => assert_eq!(error, ArgError::MissingDependency("config-file")),
        Ok(outcome) => panic!("accepted: {:?}", outcome),
    }
}

#[test]
fn no_api_with_config_file_succeeds() {
    let registry = firecracker_registry();
    let args = vec!["--no-api", "--config-file", "foo.json"];
    match validate(&registry, &args) {
        Ok(Outcome::Resolved { values, trailing }) => {
            assert_eq!(values.get("no-api"), Some(""));
            assert_eq!(values.get("config-file"), Some("foo.json"));
            assert!(trailing.is_empty());
        },
        other => panic!("unexpected: {:?}", other),
    }
}

#[test]
fn a_dependency_holds_in_one_direction_only() {
    let registry = firecracker_registry();
    let args = vec!["--config-file", "foo.json"];
    match validate(&registry, &args) {
        Ok(Outcome::Resolved { values, .. }) => {
            assert_eq!(values.get("config-file"), Some("foo.json"));
            assert_eq!(values.get("no-api"), None);
        },
        other => panic!("unexpected: {:?}", other),
    }
}

#[test]
fn a_dependency_may_be_given_in_either_order() {
    let registry = firecracker_registry();
    let args = vec!["--config-file", "foo.json", "--no-api"];
    match validate(&registry, &args) {
        Ok(Outcome::Resolved { values, .. }) => {
            assert_eq!(values.get("no-api"), Some(""));
            assert_eq!(values.get("config-file"), Some("foo.json"));
        },
        other => panic!("unexpected: {:?}", other),
    }
}

#[test]
fn seccomp_level_three_is_an_invalid_value() {
    let registry = firecracker_registry();
    let args = vec!["--seccomp-level", "3"];
    match validate(&registry, &args) {
        Err(error) => assert_eq!(
            error,
            ArgError::InvalidEnumValue { name: "seccomp-level", value: "3" }
        ),
        Ok(outcome) => panic!("accepted: {:?}", outcome),
    }
}

#[test]
fn seccomp_level_zero_round_trips() {
    let registry = firecracker_registry();
    let args = vec!["--seccomp-level", "0"];
    match validate(&registry, &args) {
        Ok(Outcome::Resolved { values, .. }) => {
            assert_eq!(values.get("seccomp-level"), Some("0"))
        },
        other => panic!("unexpected: {:?}", other),
    }
}

#[test]
fn seccomp_level_one_round_trips() {
    let registry = firecracker_registry();
    let args = vec!["--seccomp-level", "1"];
    match validate(&registry, &args) {
        Ok(Outcome::Resolved { values, .. }) => {
            assert_eq!(values.get("seccomp-level"), Some("1"))
        },
        other => panic!("unexpected: {:?}", other),
    }
}

#[test]
fn seccomp_level_two_round_trips() {
    let registry = firecracker_registry();
    let args = vec!["--seccomp-level", "2"];
    match validate(&registry, &args) {
        Ok(Outcome::Resolved { values, .. }) => {
            assert_eq!(values.get("seccomp-level"), Some("2"))
        },
        other => panic!("unexpected: {:?}", other),
    }
}

#[test]
fn seccomp_level_is_compared_literally() {
    let registry = firecracker_registry();
    let args = vec!["--seccomp-level", "02"];
    match validate(&registry, &args) {
        Err(error) => assert_eq!(
            error,
            ArgError::InvalidEnumValue { name: "seccomp-level", value: "02" }
        ),
        Ok(outcome) => panic!("accepted: {:?}", outcome),
    }
}

#[test]
fn bogus_flag_is_an_unknown_argument() {
    let registry = firecracker_registry();
    let args = vec!["--bogus-flag"];
    match validate(&registry, &args) {
        Err(error) => assert_eq!(error, ArgError::UnknownArgument("bogus-flag")),
        Ok(outcome) => panic!("accepted: {:?}", outcome),
    }
}

#[test]
fn tokens_after_the_separator_are_passed_through() {
    let registry = firecracker_registry();
    let args = vec!["--api-sock", "/tmp/x.sock", "--", "extra1", "extra2"];
    match validate(&registry, &args) {
        Ok(Outcome::Resolved { values, trailing }) => {
            assert_eq!(values.get("api-sock"), Some("/tmp/x.sock"));
            assert_eq!(trailing, vec!["extra1", "extra2"]);
        },
        other => panic!("unexpected: {:?}", other),
    }
}

#[test]
fn tokens_after_the_separator_are_not_validated() {
    let registry = firecracker_registry();
    let args = vec!["--id", "vm7", "--", "--bogus-flag", "--seccomp-level", "9", "--", "x"];
    match validate(&registry, &args) {
        Ok(Outcome::Resolved { values, trailing }) => {
            assert_eq!(values.get("id"), Some("vm7"));
            assert_eq!(values.get("seccomp-level"), Some("2"));
            assert_eq!(trailing, vec!["--bogus-flag", "--seccomp-level", "9", "--", "x"]);
        },
        other => panic!("unexpected: {:?}", other),
    }
}

#[test]
fn help_succeeds_alone() {
    let registry = firecracker_registry();
    let args = vec!["--help"];
    assert!(matches!(validate(&registry, &args), Ok(Outcome::Help)));
}

#[test]
fn help_succeeds_whatever_else_is_given() {
    let registry = firecracker_registry();
    let args = vec!["--bogus-flag", "--seccomp-level", "9", "stray", "--no-api", "--help"];
    assert!(matches!(validate(&registry, &args), Ok(Outcome::Help)));
}

#[test]
fn help_succeeds_when_a_required_argument_is_missing() {
    let specs = vec![ArgumentInfo::new("kernel", true, None, None, true, None, "")];
    let registry = ArgumentRegistry::new(specs).expect("well-formed");
    let args = vec!["--help"];
    assert!(matches!(validate(&registry, &args), Ok(Outcome::Help)));
    let none: Vec<&str> = Vec::new();
    assert!(matches!(
        validate(&registry, &none),
        Err(ArgError::MissingRequiredArgument("kernel"))
    ));
}

#[test]
fn help_after_the_separator_is_passed_through() {
    let registry = firecracker_registry();
    let args = vec!["--", "--help"];
    match validate(&registry, &args) {
        Ok(Outcome::Resolved { trailing, .. }) => assert_eq!(trailing, vec!["--help"]),
        other => panic!("unexpected: {:?}", other),
    }
}

#[test]
fn a_required_flag_without_value_must_be_given() {
    let specs = vec![ArgumentInfo::new("force", true, None, None, false, None, "")];
    let registry = ArgumentRegistry::new(specs).expect("well-formed");
    let none: Vec<&str> = Vec::new();
    match validate(&registry, &none) {
        Err(error) => assert_eq!(error, ArgError::MissingRequiredArgument("force")),
        Ok(outcome) => panic!("accepted: {:?}", outcome),
    }
    let given = vec!["--force"];
    match validate(&registry, &given) {
        Ok(Outcome::Resolved { values, .. }) => assert_eq!(values.get("force"), Some("")),
        other => panic!("unexpected: {:?}", other),
    }
}

#[test]
fn a_required_argument_that_is_given_needs_no_default() {
    let specs = vec![ArgumentInfo::new("kernel", true, None, None, true, None, "")];
    let registry = ArgumentRegistry::new(specs).expect("well-formed");
    let args = vec!["--kernel", "vmlinux"];
    match validate(&registry, &args) {
        Ok(Outcome::Resolved { values, .. }) => {
            assert_eq!(values.get("kernel"), Some("vmlinux"));
            assert_eq!(values.len(), 1);
        },
        other => panic!("unexpected: {:?}", other),
    }
}

#[test]
fn a_violation_before_the_separator_is_reported_though_help_trails() {
    let registry = firecracker_registry();
    let args = vec!["--bogus-flag", "--", "--help"];
    match validate(&registry, &args) {
        Err(error) => assert_eq!(error, ArgError::UnknownArgument("bogus-flag")),
        Ok(outcome) => panic!("accepted: {:?}", outcome),
    }
}

#[test]
fn an_empty_registry_knows_no_flag() {
    let registry = ArgumentRegistry::new(Vec::new()).expect("well-formed");
    let none: Vec<&str> = Vec::new();
    match validate(&registry, &none) {
        Ok(Outcome::Resolved { values, trailing }) => {
            assert!(values.is_empty());
            assert!(trailing.is_empty());
        },
        other => panic!("unexpected: {:?}", other),
    }
    let some = vec!["--id"];
    match validate(&registry, &some) {
        Err(error) => assert_eq!(error, ArgError::UnknownArgument("id")),
        Ok(outcome) => panic!("accepted: {:?}", outcome),
    }
    let bare = vec!["id", "-x"];
    assert!(matches!(validate(&registry, &bare), Ok(Outcome::Resolved { .. })));
}
