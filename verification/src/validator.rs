//! The validator: one pass over the scanned tokens, then defaults.

use vstd::prelude::*;
use crate::argument::ArgumentInfo;
use crate::error::result_view;
use crate::error::ArgError;
use crate::registry::ArgumentRegistry;
use crate::rules::constraint_violation;
use crate::rules::defaults_outcome;
use crate::rules::flag_outcome;
use crate::rules::lemma_defaults_violation_persists;
use crate::rules::lemma_scan_violation_persists;
use crate::rules::lemma_steps_end_at_violation;
use crate::rules::resolution;
use crate::rules::resolved_value;
use crate::rules::scan_outcome;
use crate::rules::steps_reported;
use crate::rules::steps_stored;
use crate::rules::OutcomeView;
use crate::store::ValueStore;
use crate::text::contains;
use crate::text::is_flag;
use crate::text::starts_with_dashes;
use crate::text::strip_dashes;
use crate::tokenizer::lemma_separator_index;
use crate::tokenizer::tokenize;
use crate::tokenizer::value_token;

verus! {

/// What a successful validation yields.
#[derive(Debug)]
pub enum Outcome<'a> {
    /// Help was asked for. Nothing was validated and no values exist; the
    /// caller shows the registry's help output.
    Help,
    /// The invocation is valid.
    Resolved {
        /// The value of each argument that was given or filled in.
        values: ValueStore<'a>,
        /// The tokens after the separator, untouched.
        trailing: Vec<&'a str>,
    },
}

impl<'a> View for Outcome<'a> {
    type V = OutcomeView;

    open spec fn view(&self) -> OutcomeView {
        match self {
            Outcome::Help => OutcomeView::Help,
            Outcome::Resolved { values, trailing } => OutcomeView::Resolved {
                values: values@,
                trailing: trailing.deep_view(),
            },
        }
    }
}

/// Checks the constraints of one argument against the names of the flags
/// given, and reports the first one that is broken.
pub fn check_is_valid<'a>(argument_info: &ArgumentInfo<'a>, params: &Vec<&str>) -> (checked:
    Result<(), ArgError<'a>>)
    ensures
        checked is Ok <==> constraint_violation(argument_info@, params.deep_view()) is None,
        checked is Err ==> constraint_violation(argument_info@, params.deep_view()) == Some(
            checked->Err_0@,
        ),
{
    if let Some(other) = argument_info.conflicts_with {
        if contains(params, other) {
            return Err(ArgError::ConflictingArgument(other));
        }
    }
    if let Some(other) = argument_info.depends_on {
        if !contains(params, other) {
            return Err(ArgError::MissingDependency(other));
        }
    }
    if argument_info.required && argument_info.default_value.is_none() {
        if !contains(params, argument_info.name) {
            return Err(ArgError::MissingRequiredArgument(argument_info.name));
        }
    }
    Ok(())
}

/// Determines the value stored for the flag at position `i` among the
/// first `end` tokens.
pub fn resolve_value<'a>(
    argument_info: &ArgumentInfo<'a>,
    args: &Vec<&'a str>,
    end: usize,
    i: usize,
) -> (resolved: Result<&'a str, ArgError<'a>>)
    requires
        i < end <= args.len(),
    ensures
        result_view(resolved) == resolved_value(
            argument_info@,
            args.deep_view().take(end as int),
            i as int,
        ),
{
    match value_token(args, end, i) {
        Some(value) => {
            if !argument_info.takes_value {
                return Err(ArgError::UnexpectedToken(value));
            }
            if i + 2 < end && !starts_with_dashes(args[i + 2]) {
                return Err(ArgError::UnexpectedToken(args[i + 2]));
            }
            if !argument_info.permits(value) {
                return Err(ArgError::InvalidEnumValue { name: argument_info.name, value });
            }
            Ok(value)
        },
        None => {
            if argument_info.takes_value {
                Err(ArgError::MissingValue(argument_info.name))
            } else {
                proof {
                    reveal_strlit("");
                }
                assert(""@ =~= Seq::<char>::empty());
                Ok("")
            }
        },
    }
}

/// Checks the flag at position `i` among the first `end` tokens: it must
/// be known, its constraints must hold against the flags `given`, and its
/// value must be in order.
pub fn check_flag<'a>(
    registry: &ArgumentRegistry<'a>,
    args: &Vec<&'a str>,
    end: usize,
    given: &Vec<&str>,
    i: usize,
) -> (checked: Result<(&'a str, &'a str), ArgError<'a>>)
    requires
        i < end <= args.len(),
    ensures
        result_view(checked) == flag_outcome(
            registry@,
            args.deep_view().take(end as int),
            given.deep_view(),
            i as int,
        ),
{
    let name = strip_dashes(args[i]);
    match registry.lookup(name) {
        None => Err(ArgError::UnknownArgument(name)),
        Some(argument_info) => {
            match check_is_valid(argument_info, given) {
                Err(violation) => Err(violation),
                Ok(_) => match resolve_value(argument_info, args, end, i) {
                    Ok(value) => Ok((name, value)),
                    Err(violation) => Err(violation),
                },
            }
        },
    }
}

/// Scans the first `end` tokens from left to right and collects the value
/// of each flag, stopping at the first flag that breaks a rule.
pub fn scan_flags<'a>(
    registry: &ArgumentRegistry<'a>,
    args: &Vec<&'a str>,
    end: usize,
    given: &Vec<&str>,
) -> (scan: Result<ValueStore<'a>, ArgError<'a>>)
    requires
        end <= args.len(),
    ensures
        result_view(scan) == scan_outcome(
            registry@,
            args.deep_view().take(end as int),
            given.deep_view(),
            end as int,
        ),
{
    let ghost tokens = args.deep_view().take(end as int);
    let mut values = ValueStore::new();
    let mut i: usize = 0;
    while i < end
        invariant
            i <= end <= args.len(),
            tokens == args.deep_view().take(end as int),
            result_view::<ValueStore>(Ok(values)) == scan_outcome(
                registry@,
                tokens,
                given.deep_view(),
                i as int,
            ),
        decreases end - i,
    {
        assert(tokens[i as int] == args[i as int]@);
        if is_flag(args[i]) {
            match check_flag(registry, args, end, given, i) {
                Ok((name, value)) => {
                    values.insert(name, value);
                },
                Err(violation) => {
                    proof {
                        lemma_scan_violation_persists(
                            registry@,
                            tokens,
                            given.deep_view(),
                            i + 1,
                            end as int,
                        );
                    }
                    return Err(violation);
                },
            }
        }
        i += 1;
    }
    Ok(values)
}

/// Lists the flags that validation stores before it ends, in the order of
/// the scan: each flag token as it was given, with the value stored for
/// it. The list ends before the first flag that breaks a rule, and is
/// empty when help is asked for.
pub fn report_steps<'a>(registry: &ArgumentRegistry<'a>, args: &Vec<&'a str>) -> (steps: Vec<
    (&'a str, &'a str),
>)
    ensures
        steps.deep_view() == steps_reported(registry@, args.deep_view()),
{
    let tokens = tokenize(args);
    proof {
        lemma_separator_index(args.deep_view());
    }
    let mut steps: Vec<(&'a str, &'a str)> = Vec::new();
    assert(steps.deep_view() =~= Seq::<(Seq<char>, Seq<char>)>::empty());
    if contains(&tokens.flags, "help") {
        return steps;
    }
    let end = tokens.scanned;
    let ghost region = args.deep_view().take(end as int);
    let ghost given = tokens.flags.deep_view();
    let mut i: usize = 0;
    while i < end
        invariant
            i <= end <= args.len(),
            region == args.deep_view().take(end as int),
            given == tokens.flags.deep_view(),
            steps_reported(registry@, args.deep_view()) == steps_stored(
                registry@,
                region,
                given,
                end as int,
            ),
            scan_outcome(registry@, region, given, i as int) is Ok,
            steps.deep_view() == steps_stored(registry@, region, given, i as int),
        decreases end - i,
    {
        assert(region[i as int] == args[i as int]@);
        if is_flag(args[i]) {
            match check_flag(registry, args, end, &tokens.flags, i) {
                Ok((_, value)) => {
                    let ghost before = steps.deep_view();
                    steps.push((args[i], value));
                    assert(steps.deep_view() =~= before.push((args[i as int]@, value@)));
                },
                Err(_) => {
                    proof {
                        lemma_steps_end_at_violation(registry@, region, given, i + 1, end as int);
                    }
                    return steps;
                },
            }
        }
        i += 1;
    }
    steps
}

/// Fills in the default of each required argument that was not given, and
/// reports the first such argument that has no default.
pub fn apply_defaults<'a>(
    registry: &ArgumentRegistry<'a>,
    given: &Vec<&str>,
    values: ValueStore<'a>,
) -> (filled: Result<ValueStore<'a>, ArgError<'a>>)
    ensures
        result_view(filled) == defaults_outcome(
            registry@,
            given.deep_view(),
            values@,
            registry@.len() as int,
        ),
{
    let mut complete = values;
    let mut i: usize = 0;
    while i < registry.len()
        invariant
            i <= registry@.len(),
            result_view::<ValueStore>(Ok(complete)) == defaults_outcome(
                registry@,
                given.deep_view(),
                values@,
                i as int,
            ),
        decreases registry@.len() - i,
    {
        let argument_info = registry.get(i);
        if argument_info.required && !contains(given, argument_info.name) {
            match argument_info.default_value {
                Some(default) => {
                    complete.insert(argument_info.name, default);
                },
                None => {
                    proof {
                        lemma_defaults_violation_persists(
                            registry@,
                            given.deep_view(),
                            values@,
                            i + 1,
                            registry@.len() as int,
                        );
                    }
                    return Err(ArgError::MissingRequiredArgument(argument_info.name));
                },
            }
        }
        i += 1;
    }
    Ok(complete)
}

/// Validates an invocation against a registry.
///
/// The tokens before the first `--` are scanned; those after it are handed
/// back untouched. When the flag `help` is among the scanned tokens the
/// result is [`Outcome::Help`], whatever else was given. Otherwise the
/// result holds the value of every flag given and the default of every
/// required argument that was not, or the first rule that was broken.
pub fn validate<'a>(registry: &ArgumentRegistry<'a>, args: &Vec<&'a str>) -> (validated: Result<
    Outcome<'a>,
    ArgError<'a>,
>)
    ensures
        result_view(validated) == resolution(registry@, args.deep_view()),
{
    let tokens = tokenize(args);
    proof {
        lemma_separator_index(args.deep_view());
    }
    if contains(&tokens.flags, "help") {
        return Ok(Outcome::Help);
    }
    let values = match scan_flags(registry, args, tokens.scanned, &tokens.flags) {
        Ok(values) => values,
        Err(violation) => {
            return Err(violation);
        },
    };
    match apply_defaults(registry, &tokens.flags, values) {
        Ok(values) => Ok(Outcome::Resolved { values, trailing: tokens.trailing }),
        Err(violation) => Err(violation),
    }
}

} // verus!
