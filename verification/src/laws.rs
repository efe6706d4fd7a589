//! What holds of every validation, proved from the rules.

use vstd::prelude::*;
use crate::argument::ArgumentSpec;
use crate::error::ArgErrorView;
use crate::registry::distinct_names;
use crate::registry::has_spec;
use crate::registry::lemma_lookup_named;
use crate::rules::constraint_violation;
use crate::rules::defaults_outcome;
use crate::rules::flag_outcome;
use crate::rules::help_requested;
use crate::rules::lemma_scan_violation_persists;
use crate::rules::resolution;
use crate::rules::scan_outcome;
use crate::rules::OutcomeView;
use crate::rules::Values;
use crate::text::flag_name;
use crate::text::is_flag_token;
use crate::text::is_separator;
use crate::tokenizer::flag_names;
use crate::tokenizer::lemma_flag_names_contains;
use crate::tokenizer::lemma_separator_index;
use crate::tokenizer::scanned;
use crate::tokenizer::separator_index;
use crate::tokenizer::trailing;
use crate::tokenizer::value_after;

verus! {

/// Whether the description at position `k` is required, has no default
/// and is not among the flags `given`.
pub open spec fn is_missing(registry: Seq<ArgumentSpec>, given: Seq<Seq<char>>, k: int) -> bool {
    &&& 0 <= k < registry.len()
    &&& registry[k].required
    &&& registry[k].default_value is None
    &&& !given.contains(registry[k].name)
}

/// An argument passes its constraints exactly when no argument it
/// conflicts with is given, the argument it depends on is given, and it is
/// not at once required, without default and not given. When only the last
/// fails, the argument itself is reported as missing, whether or not it
/// takes a value.
pub proof fn law_constraints_pass_exactly(spec: ArgumentSpec, given: Seq<Seq<char>>)
    ensures
        constraint_violation(spec, given) is None <==> {
            &&& spec.conflicts_with is Some ==> !given.contains(spec.conflicts_with->0)
            &&& spec.depends_on is Some ==> given.contains(spec.depends_on->0)
            &&& !(spec.required && spec.default_value is None && !given.contains(spec.name))
        },
        ({
            &&& spec.conflicts_with is Some ==> !given.contains(spec.conflicts_with->0)
            &&& spec.depends_on is Some ==> given.contains(spec.depends_on->0)
            &&& spec.required && spec.default_value is None && !given.contains(spec.name)
        }) ==> constraint_violation(spec, given) == Some(
            ArgErrorView::MissingRequiredArgument(spec.name),
        ),
{
}

/// An invocation falls into three parts: the scanned tokens, none of which
/// is a separator; the first separator; and the trailing segment. Without
/// a separator every token is scanned and nothing trails.
pub proof fn law_invocation_is_partitioned(args: Seq<Seq<char>>)
    ensures
        forall|j: int|
            0 <= j < scanned(args).len() ==> !is_separator(#[trigger] scanned(args)[j]),
        separator_index(args) == args.len() ==> scanned(args) == args && trailing(args)
            == Seq::<Seq<char>>::empty(),
        separator_index(args) < args.len() ==> is_separator(args[separator_index(args)]) && args
            == scanned(args).push(args[separator_index(args)]) + trailing(args),
{
    lemma_separator_index(args);
    let k = separator_index(args);
    if k == args.len() {
        assert(scanned(args) =~= args);
    } else {
        assert(args =~= scanned(args).push(args[k]) + trailing(args));
    }
}

/// What follows the separator is never validated: two invocations with
/// the same scanned tokens are rejected for the same reason, or resolve to
/// the same values, each with its own trailing segment.
pub proof fn law_trailing_is_not_validated(
    registry: Seq<ArgumentSpec>,
    args: Seq<Seq<char>>,
    other: Seq<Seq<char>>,
)
    requires
        scanned(args) == scanned(other),
    ensures
        resolution(registry, args) is Err ==> resolution(registry, other) == resolution(
            registry,
            args,
        ),
        resolution(registry, args) is Ok ==> resolution(registry, other) is Ok,
        resolution(registry, args) is Ok && resolution(registry, args)->Ok_0 is Help
            ==> resolution(registry, other)->Ok_0 is Help,
        resolution(registry, args) is Ok && resolution(registry, args)->Ok_0 is Resolved ==> {
            &&& resolution(registry, args)->Ok_0->trailing == trailing(args)
            &&& resolution(registry, other)->Ok_0 == (OutcomeView::Resolved {
                values: resolution(registry, args)->Ok_0->values,
                trailing: trailing(other),
            })
        },
{
}

/// The token `--help` is a flag token and names `help`.
proof fn lemma_help_token()
    ensures
        is_flag_token("--help"@),
        flag_name("--help"@) == "help"@,
{
    reveal_strlit("--help");
    reveal_strlit("help");
    let token = "--help"@;
    assert(token.skip(2) =~= "help"@);
    assert(flag_name(token) == flag_name(token.skip(2)));
}

/// A request for help always succeeds: when the token `--help` stands
/// before the first separator, validation yields help, whatever the
/// registry holds and whatever else is given.
pub proof fn law_help_always_succeeds(registry: Seq<ArgumentSpec>, args: Seq<Seq<char>>, i: int)
    requires
        0 <= i < separator_index(args),
        args[i] == "--help"@,
    ensures
        resolution(registry, args) == Ok::<OutcomeView, ArgErrorView>(OutcomeView::Help),
{
    lemma_help_token();
    lemma_separator_index(args);
    let tokens = scanned(args);
    assert(tokens[i] == args[i]);
    lemma_flag_names_contains(tokens, "help"@);
    assert(help_requested(args));
}

/// Scanning tokens whose flags all pass their checks meets no violation.
proof fn lemma_scan_passes(
    registry: Seq<ArgumentSpec>,
    tokens: Seq<Seq<char>>,
    given: Seq<Seq<char>>,
    n: int,
)
    requires
        0 <= n <= tokens.len(),
        forall|j: int|
            0 <= j < n && is_flag_token(#[trigger] tokens[j]) ==> flag_outcome(
                registry,
                tokens,
                given,
                j,
            ) is Ok,
    ensures
        scan_outcome(registry, tokens, given, n) is Ok,
    decreases n,
{
    if n > 0 {
        lemma_scan_passes(registry, tokens, given, n - 1);
    }
}

/// Validation fails fast: the violation of the first flag, from the left,
/// that breaks a rule is the result, unless help was asked for.
pub proof fn law_first_violation_is_reported(
    registry: Seq<ArgumentSpec>,
    args: Seq<Seq<char>>,
    i: int,
)
    requires
        !help_requested(args),
        0 <= i < scanned(args).len(),
        is_flag_token(scanned(args)[i]),
        flag_outcome(registry, scanned(args), flag_names(scanned(args)), i) is Err,
        forall|j: int|
            0 <= j < i && is_flag_token(#[trigger] scanned(args)[j]) ==> flag_outcome(
                registry,
                scanned(args),
                flag_names(scanned(args)),
                j,
            ) is Ok,
    ensures
        resolution(registry, args) == Err::<OutcomeView, ArgErrorView>(
            flag_outcome(registry, scanned(args), flag_names(scanned(args)), i)->Err_0,
        ),
{
    let tokens = scanned(args);
    let given = flag_names(tokens);
    lemma_scan_passes(registry, tokens, given, i);
    lemma_scan_violation_persists(registry, tokens, given, i + 1, tokens.len() as int);
}

/// Success is owed to every invocation that breaks no rule: when each
/// flag given passes its checks and no required argument is missing,
/// validation resolves values and hands the trailing segment back.
pub proof fn law_valid_invocation_resolves(registry: Seq<ArgumentSpec>, args: Seq<Seq<char>>)
    requires
        !help_requested(args),
        forall|j: int|
            0 <= j < scanned(args).len() && is_flag_token(#[trigger] scanned(args)[j])
                ==> flag_outcome(registry, scanned(args), flag_names(scanned(args)), j) is Ok,
        forall|k: int| !is_missing(registry, flag_names(scanned(args)), k),
    ensures
        resolution(registry, args) is Ok,
        resolution(registry, args)->Ok_0 is Resolved,
        resolution(registry, args)->Ok_0->trailing == trailing(args),
{
    let tokens = scanned(args);
    let given = flag_names(tokens);
    lemma_scan_passes(registry, tokens, given, tokens.len() as int);
    let values = scan_outcome(registry, tokens, given, tokens.len() as int)->Ok_0;
    if defaults_outcome(registry, given, values, registry.len() as int) is Err {
        lemma_defaults_only_report_missing(registry, given, values, registry.len() as int);
    }
}

/// Filling in defaults over a part of the registry that holds a missing
/// argument fails, and names the first missing argument.
proof fn lemma_defaults_report_missing(
    registry: Seq<ArgumentSpec>,
    given: Seq<Seq<char>>,
    values: Values,
    n: int,
    k: int,
)
    requires
        is_missing(registry, given, k),
        k < n <= registry.len(),
    ensures
        exists|j: int|
            0 <= j <= k && #[trigger] is_missing(registry, given, j) && defaults_outcome(
                registry,
                given,
                values,
                n,
            ) == Err::<Values, ArgErrorView>(
                ArgErrorView::MissingRequiredArgument(registry[j].name),
            ),
    decreases n,
{
    if n == k + 1 {
        match defaults_outcome(registry, given, values, k) {
            Ok(_) => {
                assert(is_missing(registry, given, k));
            },
            Err(violation) => {
                lemma_defaults_only_report_missing(registry, given, values, k);
            },
        }
    } else {
        lemma_defaults_report_missing(registry, given, values, n - 1, k);
    }
}

/// When filling in defaults fails, it names a missing argument.
proof fn lemma_defaults_only_report_missing(
    registry: Seq<ArgumentSpec>,
    given: Seq<Seq<char>>,
    values: Values,
    n: int,
)
    requires
        0 <= n <= registry.len(),
        defaults_outcome(registry, given, values, n) is Err,
    ensures
        exists|j: int|
            0 <= j < n && #[trigger] is_missing(registry, given, j) && defaults_outcome(
                registry,
                given,
                values,
                n,
            ) == Err::<Values, ArgErrorView>(
                ArgErrorView::MissingRequiredArgument(registry[j].name),
            ),
    decreases n,
{
    if n > 0 {
        if defaults_outcome(registry, given, values, n - 1) is Err {
            lemma_defaults_only_report_missing(registry, given, values, n - 1);
        } else {
            assert(is_missing(registry, given, n - 1));
        }
    }
}

/// A required argument without a default that is not given makes
/// validation fail, unless help was asked for. When every flag that is
/// given passes its checks, the failure is a missing required argument,
/// and the argument it names is required, has no default and is not given.
pub proof fn law_missing_required_is_reported(
    registry: Seq<ArgumentSpec>,
    args: Seq<Seq<char>>,
    k: int,
)
    requires
        is_missing(registry, flag_names(scanned(args)), k),
        !help_requested(args),
    ensures
        resolution(registry, args) is Err,
        scan_outcome(
            registry,
            scanned(args),
            flag_names(scanned(args)),
            scanned(args).len() as int,
        ) is Ok ==> exists|j: int|
            0 <= j <= k && #[trigger] is_missing(registry, flag_names(scanned(args)), j)
                && resolution(registry, args) == Err::<OutcomeView, ArgErrorView>(
                ArgErrorView::MissingRequiredArgument(registry[j].name),
            ),
{
    let tokens = scanned(args);
    let given = flag_names(tokens);
    match scan_outcome(registry, tokens, given, tokens.len() as int) {
        Ok(values) => {
            lemma_defaults_report_missing(registry, given, values, registry.len() as int, k);
        },
        Err(_) => {},
    }
}

/// Filling in defaults keeps what is held and adds only names of the
/// registry.
proof fn lemma_defaults_extend(
    registry: Seq<ArgumentSpec>,
    given: Seq<Seq<char>>,
    values: Values,
    n: int,
)
    requires
        0 <= n <= registry.len(),
        defaults_outcome(registry, given, values, n) is Ok,
    ensures
        forall|name: Seq<char>| #[trigger]
            values.contains_key(name) ==> defaults_outcome(
                registry,
                given,
                values,
                n,
            )->Ok_0.contains_key(name),
        forall|name: Seq<char>| #[trigger]
            defaults_outcome(registry, given, values, n)->Ok_0.contains_key(name)
                ==> values.contains_key(name) || (has_spec(registry, name) && !given.contains(
                name,
            )),
        forall|name: Seq<char>|
            given.contains(name) && #[trigger] values.contains_key(name) ==> defaults_outcome(
                registry,
                given,
                values,
                n,
            )->Ok_0[name] == values[name],
    decreases n,
{
    if n > 0 {
        lemma_defaults_extend(registry, given, values, n - 1);
        let spec = registry[n - 1];
        assert(has_spec(registry, spec.name));
    }
}

/// Filling in defaults gives each required argument that is not given its
/// default, when names are unique.
proof fn lemma_defaults_fill(
    registry: Seq<ArgumentSpec>,
    given: Seq<Seq<char>>,
    values: Values,
    n: int,
    k: int,
)
    requires
        distinct_names(registry),
        0 <= k < n <= registry.len(),
        registry[k].required,
        registry[k].default_value is Some,
        !given.contains(registry[k].name),
        defaults_outcome(registry, given, values, n) is Ok,
    ensures
        defaults_outcome(registry, given, values, n)->Ok_0.contains_key(registry[k].name),
        defaults_outcome(registry, given, values, n)->Ok_0[registry[k].name]
            == registry[k].default_value->0,
    decreases n,
{
    if n > k + 1 {
        lemma_defaults_fill(registry, given, values, n - 1, k);
        assert(registry[k].name != registry[n - 1].name);
    }
}

/// Omitting a required argument that has a default yields that default:
/// when validation succeeds with resolved values, they hold the default
/// under the argument's name. Names of the registry are unique.
pub proof fn law_default_fills_omitted(registry: Seq<ArgumentSpec>, args: Seq<Seq<char>>, k: int)
    requires
        distinct_names(registry),
        0 <= k < registry.len(),
        registry[k].required,
        registry[k].default_value is Some,
        !flag_names(scanned(args)).contains(registry[k].name),
        resolution(registry, args) is Ok,
        resolution(registry, args)->Ok_0 is Resolved,
    ensures
        resolution(registry, args)->Ok_0->values.contains_key(registry[k].name),
        resolution(registry, args)->Ok_0->values[registry[k].name]
            == registry[k].default_value->0,
{
    let tokens = scanned(args);
    let given = flag_names(tokens);
    let values = scan_outcome(registry, tokens, given, tokens.len() as int)->Ok_0;
    lemma_defaults_fill(registry, given, values, registry.len() as int, k);
}

/// What a successful scan holds: a value for the name of every flag token
/// scanned, and for nothing else; each name held is known to the registry.
proof fn lemma_scan_holds_given(
    registry: Seq<ArgumentSpec>,
    tokens: Seq<Seq<char>>,
    given: Seq<Seq<char>>,
    n: int,
)
    requires
        0 <= n <= tokens.len(),
        scan_outcome(registry, tokens, given, n) is Ok,
    ensures
        forall|i: int|
            0 <= i < n && is_flag_token(#[trigger] tokens[i]) ==> scan_outcome(
                registry,
                tokens,
                given,
                n,
            )->Ok_0.contains_key(flag_name(tokens[i])),
        forall|name: Seq<char>| #[trigger]
            scan_outcome(registry, tokens, given, n)->Ok_0.contains_key(name) ==> has_spec(
                registry,
                name,
            ) && exists|i: int|
                0 <= i < n && is_flag_token(#[trigger] tokens[i]) && flag_name(tokens[i]) == name,
    decreases n,
{
    if n > 0 {
        lemma_scan_holds_given(registry, tokens, given, n - 1);
        let before = scan_outcome(registry, tokens, given, n - 1)->Ok_0;
        let after = scan_outcome(registry, tokens, given, n)->Ok_0;
        if is_flag_token(tokens[n - 1]) {
            let name = flag_name(tokens[n - 1]);
            lemma_lookup_named(registry, name);
            assert(after == before.insert(name, flag_outcome(registry, tokens, given, n - 1)->Ok_0.1));
        }
        assert forall|name: Seq<char>| #[trigger] after.contains_key(name) implies has_spec(
            registry,
            name,
        ) && exists|i: int|
            0 <= i < n && is_flag_token(#[trigger] tokens[i]) && flag_name(tokens[i]) == name by {
            if before.contains_key(name) {
                let i = choose|i: int|
                    0 <= i < n - 1 && is_flag_token(#[trigger] tokens[i]) && flag_name(tokens[i])
                        == name;
                assert(0 <= i < n && is_flag_token(tokens[i]) && flag_name(tokens[i]) == name);
            } else {
                assert(is_flag_token(tokens[n - 1]) && flag_name(tokens[n - 1]) == name);
            }
        }
    }
}

/// The value a successful scan holds for a flag is the one that follows
/// its last occurrence: the value token after it, or the empty string when
/// no value token follows.
proof fn lemma_scan_keeps_last(
    registry: Seq<ArgumentSpec>,
    tokens: Seq<Seq<char>>,
    given: Seq<Seq<char>>,
    n: int,
    i: int,
)
    requires
        0 <= i < n <= tokens.len(),
        is_flag_token(tokens[i]),
        forall|j: int|
            i < j < n && is_flag_token(#[trigger] tokens[j]) ==> flag_name(tokens[j]) != flag_name(
                tokens[i],
            ),
        scan_outcome(registry, tokens, given, n) is Ok,
    ensures
        scan_outcome(registry, tokens, given, n)->Ok_0.contains_key(flag_name(tokens[i])),
        scan_outcome(registry, tokens, given, n)->Ok_0[flag_name(tokens[i])] == (match value_after(
            tokens,
            i,
        ) {
            Some(value) => value,
            None => Seq::empty(),
        }),
    decreases n,
{
    if n > i + 1 {
        lemma_scan_keeps_last(registry, tokens, given, n - 1, i);
    } else {
        lemma_lookup_named(registry, flag_name(tokens[i]));
    }
}

/// Every name that resolved values hold is the name of an argument of the
/// registry.
pub proof fn law_resolved_names_are_registered(
    registry: Seq<ArgumentSpec>,
    args: Seq<Seq<char>>,
    name: Seq<char>,
)
    requires
        resolution(registry, args) is Ok,
        resolution(registry, args)->Ok_0 is Resolved,
        resolution(registry, args)->Ok_0->values.contains_key(name),
    ensures
        has_spec(registry, name),
{
    let tokens = scanned(args);
    let given = flag_names(tokens);
    let values = scan_outcome(registry, tokens, given, tokens.len() as int)->Ok_0;
    lemma_scan_holds_given(registry, tokens, given, tokens.len() as int);
    lemma_defaults_extend(registry, given, values, registry.len() as int);
}

/// Resolved values hold a value for every required argument, given or not.
pub proof fn law_required_are_resolved(registry: Seq<ArgumentSpec>, args: Seq<Seq<char>>, k: int)
    requires
        distinct_names(registry),
        0 <= k < registry.len(),
        registry[k].required,
        resolution(registry, args) is Ok,
        resolution(registry, args)->Ok_0 is Resolved,
    ensures
        resolution(registry, args)->Ok_0->values.contains_key(registry[k].name),
{
    let tokens = scanned(args);
    let given = flag_names(tokens);
    let name = registry[k].name;
    let values = scan_outcome(registry, tokens, given, tokens.len() as int)->Ok_0;
    if given.contains(name) {
        lemma_flag_names_contains(tokens, name);
        lemma_scan_holds_given(registry, tokens, given, tokens.len() as int);
        lemma_defaults_extend(registry, given, values, registry.len() as int);
    } else {
        if registry[k].default_value is None {
            assert(is_missing(registry, given, k));
            lemma_defaults_report_missing(registry, given, values, registry.len() as int, k);
        } else {
            lemma_defaults_fill(registry, given, values, registry.len() as int, k);
        }
    }
}

/// A flag that is given resolves to the value given with it: resolved
/// values hold, under the flag's name, the value token that follows the
/// flag's last occurrence, or the empty string when none follows.
pub proof fn law_given_value_is_kept(registry: Seq<ArgumentSpec>, args: Seq<Seq<char>>, i: int)
    requires
        0 <= i < separator_index(args),
        is_flag_token(args[i]),
        forall|j: int|
            i < j < separator_index(args) && is_flag_token(#[trigger] args[j]) ==> flag_name(
                args[j],
            ) != flag_name(args[i]),
        resolution(registry, args) is Ok,
        resolution(registry, args)->Ok_0 is Resolved,
    ensures
        resolution(registry, args)->Ok_0->values.contains_key(flag_name(args[i])),
        resolution(registry, args)->Ok_0->values[flag_name(args[i])] == (match value_after(
            scanned(args),
            i,
        ) {
            Some(value) => value,
            None => Seq::empty(),
        }),
{
    lemma_separator_index(args);
    let tokens = scanned(args);
    let given = flag_names(tokens);
    let name = flag_name(args[i]);
    let values = scan_outcome(registry, tokens, given, tokens.len() as int)->Ok_0;
    assert(tokens[i] == args[i]);
    assert forall|j: int| i < j < tokens.len() && is_flag_token(#[trigger] tokens[j]) implies flag_name(
        tokens[j],
    ) != flag_name(tokens[i]) by {
        assert(tokens[j] == args[j]);
    }
    lemma_scan_keeps_last(registry, tokens, given, tokens.len() as int, i);
    lemma_flag_names_contains(tokens, name);
    lemma_defaults_extend(registry, given, values, registry.len() as int);
}

} // verus!
