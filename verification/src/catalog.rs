//! The arguments of the Firecracker command line.

use vstd::prelude::*;
use crate::argument::ArgumentInfo;
use crate::argument::ArgumentSpec;
use crate::laws::law_required_are_resolved;
use crate::registry::has_spec;
use crate::registry::specs_view;
use crate::registry::well_formed;
use crate::registry::ArgumentRegistry;
use crate::rules::resolution;

verus! {

/// The socket path used when `--api-sock` is not given.
pub const DEFAULT_API_SOCK_PATH: &'static str = "/tmp/firecracker.socket";

/// The instance identifier used when `--id` is not given.
pub const DEFAULT_INSTANCE_ID: &'static str = "anonymous-instance";

/// The first line of help output.
pub const HELP_BANNER: &'static str = "Stuff about firecracker";

/// The help text of `--seccomp-level`.
pub const SECCOMP_LEVEL_HELP: &'static str = "Level of seccomp filtering.\n
                            - Level 0: No filtering.\n
                            - Level 1: Seccomp filtering by syscall number.\n
                            - Level 2: Seccomp filtering by syscall number and argument values.\n";

/// The model of a value-taking argument without constraints on other
/// arguments.
pub open spec fn plain_value(name: Seq<char>, default_value: Option<Seq<char>>, help: Seq<char>)
    -> ArgumentSpec {
    ArgumentSpec {
        name,
        required: default_value is Some,
        conflicts_with: None,
        depends_on: None,
        takes_value: true,
        default_value,
        allowed_values: None,
        help,
    }
}

/// The Firecracker arguments, in the order in which help shows them.
///
/// An argument with a default is required, so that it always resolves to
/// a value. `seccomp-level` accepts `0`, `1` and `2`; `no-api` is a flag
/// without a value and depends on `config-file`.
pub open spec fn firecracker_catalog() -> Seq<ArgumentSpec> {
    seq![
        plain_value(
            "api-sock"@,
            Some(DEFAULT_API_SOCK_PATH@),
            "Path to unix domain socket used by the API"@,
        ),
        plain_value("id"@, Some(DEFAULT_INSTANCE_ID@), "MicroVM unique identifier"@),
        ArgumentSpec {
            allowed_values: Some(seq!["0"@, "1"@, "2"@]),
            ..plain_value("seccomp-level"@, Some("2"@), SECCOMP_LEVEL_HELP@)
        },
        plain_value("start-time-us"@, None, ""@),
        plain_value("start-time-cpu-us"@, None, ""@),
        ArgumentSpec {
            takes_value: false,
            depends_on: Some("config-file"@),
            ..plain_value(
                "no-api"@,
                None,
                "Optional parameter which allows starting and using a microVM without an active API socket."@,
            )
        },
        plain_value(
            "config-file"@,
            None,
            "Path to a file that contains the microVM configuration in JSON format."@,
        ),
        plain_value(
            "extra-args"@,
            None,
            "Arguments that will be passed verbatim to the exec file."@,
        ),
    ]
}

/// The names of the catalog differ from one another, and its one
/// reference names an argument of the catalog.
pub proof fn lemma_catalog_well_formed()
    ensures
        well_formed(firecracker_catalog()),
{
    reveal_strlit("api-sock");
    reveal_strlit("id");
    reveal_strlit("seccomp-level");
    reveal_strlit("start-time-us");
    reveal_strlit("start-time-cpu-us");
    reveal_strlit("no-api");
    reveal_strlit("config-file");
    reveal_strlit("extra-args");
    let catalog = firecracker_catalog();
    assert(catalog.len() == 8);
    assert(catalog[0].name.len() == 8);
    assert(catalog[1].name.len() == 2);
    assert(catalog[2].name.len() == 13 && catalog[2].name[1] == 'e');
    assert(catalog[3].name.len() == 13 && catalog[3].name[1] == 't');
    assert(catalog[4].name.len() == 17);
    assert(catalog[5].name.len() == 6);
    assert(catalog[6].name.len() == 11);
    assert(catalog[7].name.len() == 10);
    assert forall|i: int, j: int| 0 <= i < j < catalog.len() implies (#[trigger] catalog[i]).name
        != (#[trigger] catalog[j]).name by {
        if i == 2 && j == 3 {
            assert(catalog[i].name[1] != catalog[j].name[1]);
        } else {
            assert(catalog[i].name.len() != catalog[j].name.len());
        }
    }
    assert(catalog[6].name == "config-file"@);
    assert(has_spec(catalog, "config-file"@));
    assert forall|i: int| 0 <= i < catalog.len() implies (#[trigger] catalog[i]).conflicts_with
        is None && (i != 5 ==> catalog[i].depends_on is None) by {}
}

/// Whatever is given, values resolved against the catalog hold a socket
/// path, an instance identifier and a seccomp level.
pub proof fn law_catalog_resolves_defaults(args: Seq<Seq<char>>)
    requires
        resolution(firecracker_catalog(), args) is Ok,
        resolution(firecracker_catalog(), args)->Ok_0 is Resolved,
    ensures
        resolution(firecracker_catalog(), args)->Ok_0->values.contains_key("api-sock"@),
        resolution(firecracker_catalog(), args)->Ok_0->values.contains_key("id"@),
        resolution(firecracker_catalog(), args)->Ok_0->values.contains_key("seccomp-level"@),
{
    lemma_catalog_well_formed();
    let catalog = firecracker_catalog();
    law_required_are_resolved(catalog, args, 0);
    law_required_are_resolved(catalog, args, 1);
    law_required_are_resolved(catalog, args, 2);
}

/// Builds the registry of the Firecracker arguments.
pub fn firecracker_registry() -> (registry: ArgumentRegistry<'static>)
    ensures
        registry@ == firecracker_catalog(),
{
    let mut specs: Vec<ArgumentInfo<'static>> = Vec::new();
    specs.push(
        ArgumentInfo::new(
            "api-sock",
            true,
            None,
            None,
            true,
            Some(DEFAULT_API_SOCK_PATH),
            "Path to unix domain socket used by the API",
        ),
    );
    specs.push(
        ArgumentInfo::new(
            "id",
            true,
            None,
            None,
            true,
            Some(DEFAULT_INSTANCE_ID),
            "MicroVM unique identifier",
        ),
    );
    let mut levels: Vec<&'static str> = Vec::new();
    levels.push("0");
    levels.push("1");
    levels.push("2");
    assert(levels.deep_view() =~= seq!["0"@, "1"@, "2"@]);
    specs.push(
        ArgumentInfo::new(
            "seccomp-level",
            true,
            None,
            None,
            true,
            Some("2"),
            SECCOMP_LEVEL_HELP,
        ).with_allowed_values(levels),
    );
    specs.push(ArgumentInfo::new("start-time-us", false, None, None, true, None, ""));
    specs.push(ArgumentInfo::new("start-time-cpu-us", false, None, None, true, None, ""));
    specs.push(
        ArgumentInfo::new(
            "no-api",
            false,
            None,
            Some("config-file"),
            false,
            None,
            "Optional parameter which allows starting and using a microVM without an active API socket.",
        ),
    );
    specs.push(
        ArgumentInfo::new(
            "config-file",
            false,
            None,
            None,
            true,
            None,
            "Path to a file that contains the microVM configuration in JSON format.",
        ),
    );
    specs.push(
        ArgumentInfo::new(
            "extra-args",
            false,
            None,
            None,
            true,
            None,
            "Arguments that will be passed verbatim to the exec file.",
        ),
    );
    proof {
        assert(specs_view(specs@) =~= firecracker_catalog());
        lemma_catalog_well_formed();
    }
    ArgumentRegistry::new(specs).unwrap()
}

} // verus!
