use arg_parser::catalog::HELP_BANNER;
use arg_parser::firecracker_registry;
use arg_parser::ArgumentInfo;
use arg_parser::ArgumentRegistry;

#[test]
fn new_keeps_every_field() {
    let info = ArgumentInfo::new(
        "no-api",
        true,
        Some("api-sock"),
        Some("config-file"),
        false,
        Some("x"),
        "Run without an API socket",
    );
    assert_eq!(info.name, "no-api");
    assert!(info.required);
    assert_eq!(info.conflicts_with, Some("api-sock"));
    assert_eq!(info.depends_on, Some("config-file"));
    assert!(!info.takes_value);
    assert_eq!(info.default_value, Some("x"));
    assert_eq!(info.allowed_values, None);
    assert_eq!(info.help, "Run without an API socket");
}

#[test]
fn with_allowed_values_changes_nothing_else() {
    let info = ArgumentInfo::new("mode", false, None, None, true, Some("fast"), "Mode")
        .with_allowed_values(vec!["fast", "safe"]);
    assert_eq!(info.name, "mode");
    assert!(!info.required);
    assert_eq!(info.conflicts_with, None);
    assert_eq!(info.depends_on, None);
    assert!(info.takes_value);
    assert_eq!(info.default_value, Some("fast"));
    assert_eq!(info.allowed_values, Some(vec!["fast", "safe"]));
    assert_eq!(info.help, "Mode");
}

#[test]
fn permits_everything_without_a_restriction() {
    let info = ArgumentInfo::new("id", false, None, None, true, None, "");
    assert!(info.permits("anything"));
    assert!(info.permits(""));
}

#[test]
fn permits_only_the_allowed_values() {
    let info =
        ArgumentInfo::new("level", false, None, None, true, None, "").with_allowed_values(vec![
            "0", "1", "2",
        ]);
    assert!(info.permits("0"));
    assert!(info.permits("2"));
    assert!(!info.permits("3"));
    assert!(!info.permits(""));
    assert!(!info.permits("01"));
}

#[test]
fn permits_nothing_when_no_value_is_allowed() {
    let info =
        ArgumentInfo::new("level", false, None, None, true, None, "").with_allowed_values(vec![]);
    assert!(!info.permits("0"));
}

#[test]
fn display_help_joins_name_and_help() {
    let info = ArgumentInfo::new("id", false, None, None, true, None, "MicroVM unique identifier");
    assert_eq!(info.display_help(), "id: MicroVM unique identifier");
    let bare = ArgumentInfo::new("start-time-us", false, None, None, true, None, "");
    assert_eq!(bare.display_help(), "start-time-us: ");
}

#[test]
fn a_registry_rejects_a_repeated_name() {
    let specs = vec![
        ArgumentInfo::new("id", false, None, None, true, None, ""),
        ArgumentInfo::new("kernel", false, None, None, true, None, ""),
        ArgumentInfo::new("id", true, None, None, false, None, ""),
    ];
    assert!(ArgumentRegistry::new(specs).is_none());
}

#[test]
fn a_registry_rejects_a_reference_to_an_unknown_name() {
    let dangling_conflict = vec![ArgumentInfo::new("a", false, Some("b"), None, false, None, "")];
    assert!(ArgumentRegistry::new(dangling_conflict).is_none());
    let dangling_dependency = vec![ArgumentInfo::new("a", false, None, Some("b"), false, None, "")];
    assert!(ArgumentRegistry::new(dangling_dependency).is_none());
}

#[test]
fn a_registry_rejects_a_reference_to_the_argument_itself() {
    let own_conflict = vec![ArgumentInfo::new("a", false, Some("a"), None, false, None, "")];
    assert!(ArgumentRegistry::new(own_conflict).is_none());
    let own_dependency = vec![ArgumentInfo::new("a", false, None, Some("a"), false, None, "")];
    assert!(ArgumentRegistry::new(own_dependency).is_none());
}

#[test]
fn a_registry_accepts_references_in_either_direction() {
    let specs = vec![
        ArgumentInfo::new("a", false, Some("b"), None, false, None, ""),
        ArgumentInfo::new("b", false, None, Some("a"), false, None, ""),
    ];
    let registry = ArgumentRegistry::new(specs).expect("well-formed");
    assert_eq!(registry.len(), 2);
}

#[test]
fn an_empty_registry_is_well_formed() {
    let registry = ArgumentRegistry::new(Vec::new()).expect("well-formed");
    assert_eq!(registry.len(), 0);
    assert!(registry.lookup("id").is_none());
    assert!(registry.display_help().is_empty());
}

#[test]
fn lookup_finds_by_name() {
    let registry = firecracker_registry();
    let found = registry.lookup("no-api").expect("known");
    assert_eq!(found.name, "no-api");
    assert_eq!(found.depends_on, Some("config-file"));
    assert!(!found.takes_value);
    assert!(registry.lookup("no-ap").is_none());
    assert!(registry.lookup("no-api ").is_none());
    assert!(registry.lookup("help").is_none());
    assert!(registry.lookup("").is_none());
}

#[test]
fn get_follows_the_order_of_construction() {
    let registry = firecracker_registry();
    let names: Vec<&str> = (0..registry.len()).map(|i| registry.get(i).name).collect();
    assert_eq!(
        names,
        vec![
            "api-sock",
            "id",
            "seccomp-level",
            "start-time-us",
            "start-time-cpu-us",
            "no-api",
            "config-file",
            "extra-args",
        ]
    );
}

#[test]
fn the_catalog_holds_the_documented_constraints() {
    let registry = firecracker_registry();
    let api_sock = registry.get(0);
    assert!(api_sock.required && api_sock.takes_value);
    assert_eq!(api_sock.default_value, Some("/tmp/firecracker.socket"));
    let id = registry.get(1);
    assert!(id.required && id.takes_value);
    assert_eq!(id.default_value, Some("anonymous-instance"));
    let level = registry.get(2);
    assert!(level.required && level.takes_value);
    assert_eq!(level.default_value, Some("2"));
    assert_eq!(level.allowed_values, Some(vec!["0", "1", "2"]));
    for i in 3..registry.len() {
        let info = registry.get(i);
        assert!(!info.required);
        assert_eq!(info.default_value, None);
        assert_eq!(info.allowed_values, None);
        assert_eq!(info.conflicts_with, None);
    }
    assert!(!registry.get(5).takes_value);
    assert_eq!(registry.get(5).depends_on, Some("config-file"));
    assert!(registry.get(6).takes_value);
}

#[test]
fn registry_help_has_one_line_for_each_argument() {
    let registry = firecracker_registry();
    let lines = registry.display_help();
    assert_eq!(lines.len(), 8);
    assert_eq!(lines[0], "api-sock: Path to unix domain socket used by the API");
    assert_eq!(lines[1], "id: MicroVM unique identifier");
    assert!(lines[2].starts_with("seccomp-level: Level of seccomp filtering.\n"));
    assert!(lines[2].contains("- Level 1: Seccomp filtering by syscall number.\n"));
    assert_eq!(lines[3], "start-time-us: ");
    assert_eq!(lines[4], "start-time-cpu-us: ");
    assert_eq!(
        lines[5],
        "no-api: Optional parameter which allows starting and using a microVM without an active API socket."
    );
    assert_eq!(
        lines[6],
        "config-file: Path to a file that contains the microVM configuration in JSON format."
    );
    assert_eq!(lines[7], "extra-args: Arguments that will be passed verbatim to the exec file.");
}

#[test]
fn the_help_banner_is_fixed() {
    assert_eq!(HELP_BANNER, "Stuff about firecracker");
}
