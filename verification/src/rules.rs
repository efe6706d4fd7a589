//! The rules of validation, as mathematical functions.
//!
//! An invocation is a sequence of tokens, a registry a sequence of
//! argument descriptions, and the resolved values a map from names to
//! values. The executable validator is proved to compute exactly what is
//! defined here.

use vstd::prelude::*;
use crate::argument::ArgumentSpec;
use crate::error::ArgErrorView;
use crate::registry::lookup;
use crate::text::flag_name;
use crate::text::is_flag_shaped;
use crate::text::is_flag_token;
use crate::tokenizer::flag_names;
use crate::tokenizer::scanned;
use crate::tokenizer::trailing;
use crate::tokenizer::value_after;

verus! {

/// The resolved values: a map from argument names to values.
pub type Values = Map<Seq<char>, Seq<char>>;

/// The first constraint of `spec` that the given flags break, if any.
///
/// A conflict comes first, then a missing dependency, then a required
/// argument that has no default and is not given, whether or not it takes
/// a value.
pub open spec fn constraint_violation(spec: ArgumentSpec, given: Seq<Seq<char>>) -> Option<
    ArgErrorView,
> {
    if spec.conflicts_with is Some && given.contains(spec.conflicts_with->0) {
        Some(ArgErrorView::ConflictingArgument(spec.conflicts_with->0))
    } else if spec.depends_on is Some && !given.contains(spec.depends_on->0) {
        Some(ArgErrorView::MissingDependency(spec.depends_on->0))
    } else if spec.required && spec.default_value is None && !given.contains(spec.name) {
        Some(ArgErrorView::MissingRequiredArgument(spec.name))
    } else {
        None
    }
}

/// The value stored for the flag at position `i`, described by `spec`.
///
/// A flag that takes a value needs a value token after it, and the token
/// after that one must be absent or flag-shaped; the value must be one the
/// argument accepts. A flag that takes no value must not be followed by a
/// value token, and is stored with the empty string.
pub open spec fn resolved_value(spec: ArgumentSpec, tokens: Seq<Seq<char>>, i: int) -> Result<
    Seq<char>,
    ArgErrorView,
> {
    match value_after(tokens, i) {
        Some(value) => {
            if !spec.takes_value {
                Err(ArgErrorView::UnexpectedToken(value))
            } else if i + 2 < tokens.len() && !is_flag_shaped(tokens[i + 2]) {
                Err(ArgErrorView::UnexpectedToken(tokens[i + 2]))
            } else if !spec.permits(value) {
                Err(ArgErrorView::InvalidEnumValue { name: spec.name, value })
            } else {
                Ok(value)
            }
        },
        None => {
            if spec.takes_value {
                Err(ArgErrorView::MissingValue(spec.name))
            } else {
                Ok(Seq::empty())
            }
        },
    }
}

/// What the flag token at position `i` contributes: its name and value,
/// or the first rule it breaks. `given` holds the names of the flags given.
pub open spec fn flag_outcome(
    registry: Seq<ArgumentSpec>,
    tokens: Seq<Seq<char>>,
    given: Seq<Seq<char>>,
    i: int,
) -> Result<(Seq<char>, Seq<char>), ArgErrorView> {
    let name = flag_name(tokens[i]);
    match lookup(registry, name) {
        None => Err(ArgErrorView::UnknownArgument(name)),
        Some(spec) => match constraint_violation(spec, given) {
            Some(violation) => Err(violation),
            None => match resolved_value(spec, tokens, i) {
                Ok(value) => Ok((name, value)),
                Err(violation) => Err(violation),
            },
        },
    }
}

/// The result of scanning the first `n` tokens from left to right: the
/// values of their flags, a later flag replacing an earlier one of the
/// same name, or the violation of the first flag that breaks a rule.
pub open spec fn scan_outcome(
    registry: Seq<ArgumentSpec>,
    tokens: Seq<Seq<char>>,
    given: Seq<Seq<char>>,
    n: int,
) -> Result<Values, ArgErrorView>
    decreases n,
{
    if n <= 0 {
        Ok(Map::empty())
    } else {
        match scan_outcome(registry, tokens, given, n - 1) {
            Err(violation) => Err(violation),
            Ok(values) => {
                if is_flag_token(tokens[n - 1]) {
                    match flag_outcome(registry, tokens, given, n - 1) {
                        Ok((name, value)) => Ok(values.insert(name, value)),
                        Err(violation) => Err(violation),
                    }
                } else {
                    Ok(values)
                }
            },
        }
    }
}

/// The flags that scanning the first `n` tokens stores, one step for each
/// in the order of the scan: the flag token as it was given, and the value
/// stored for it. A flag given twice makes two steps. The steps end with
/// the last flag before the first violation.
pub open spec fn steps_stored(
    registry: Seq<ArgumentSpec>,
    tokens: Seq<Seq<char>>,
    given: Seq<Seq<char>>,
    n: int,
) -> Seq<(Seq<char>, Seq<char>)>
    decreases n,
{
    if n <= 0 {
        Seq::empty()
    } else {
        let earlier = steps_stored(registry, tokens, given, n - 1);
        if scan_outcome(registry, tokens, given, n) is Ok && is_flag_token(tokens[n - 1]) {
            earlier.push((tokens[n - 1], flag_outcome(registry, tokens, given, n - 1)->Ok_0.1))
        } else {
            earlier
        }
    }
}

/// The result of completing `values` over the first `n` descriptions of
/// the registry: each required argument that was not given gets its
/// default; the first one without a default is a violation.
pub open spec fn defaults_outcome(
    registry: Seq<ArgumentSpec>,
    given: Seq<Seq<char>>,
    values: Values,
    n: int,
) -> Result<Values, ArgErrorView>
    decreases n,
{
    if n <= 0 {
        Ok(values)
    } else {
        match defaults_outcome(registry, given, values, n - 1) {
            Err(violation) => Err(violation),
            Ok(filled) => {
                let spec = registry[n - 1];
                if spec.required && !given.contains(spec.name) {
                    match spec.default_value {
                        Some(default) => Ok(filled.insert(spec.name, default)),
                        None => Err(ArgErrorView::MissingRequiredArgument(spec.name)),
                    }
                } else {
                    Ok(filled)
                }
            },
        }
    }
}

/// The mathematical model of a successful validation.
pub enum OutcomeView {
    /// Help was asked for; nothing was validated.
    Help,
    /// The invocation is valid.
    Resolved { values: Values, trailing: Seq<Seq<char>> },
}

/// Whether the flag `help` stands among the scanned tokens.
pub open spec fn help_requested(args: Seq<Seq<char>>) -> bool {
    flag_names(scanned(args)).contains("help"@)
}

/// What validating the invocation `args` against `registry` yields.
///
/// A request for help succeeds whatever else is given. Otherwise the
/// scanned tokens are checked from left to right, then defaults are filled
/// in; the first violation met is the result.
pub open spec fn resolution(registry: Seq<ArgumentSpec>, args: Seq<Seq<char>>) -> Result<
    OutcomeView,
    ArgErrorView,
> {
    let tokens = scanned(args);
    let given = flag_names(tokens);
    if help_requested(args) {
        Ok(OutcomeView::Help)
    } else {
        match scan_outcome(registry, tokens, given, tokens.len() as int) {
            Err(violation) => Err(violation),
            Ok(values) => match defaults_outcome(registry, given, values, registry.len() as int) {
                Err(violation) => Err(violation),
                Ok(filled) => Ok(OutcomeView::Resolved { values: filled, trailing: trailing(args) }),
            },
        }
    }
}

/// The steps that validating the invocation `args` takes before it ends:
/// none when help is asked for, else those of scanning its scanned tokens.
pub open spec fn steps_reported(registry: Seq<ArgumentSpec>, args: Seq<Seq<char>>) -> Seq<
    (Seq<char>, Seq<char>),
> {
    let tokens = scanned(args);
    if help_requested(args) {
        Seq::empty()
    } else {
        steps_stored(registry, tokens, flag_names(tokens), tokens.len() as int)
    }
}

/// Once a prefix of the tokens has met a violation, every longer prefix
/// meets the same one.
pub proof fn lemma_scan_violation_persists(
    registry: Seq<ArgumentSpec>,
    tokens: Seq<Seq<char>>,
    given: Seq<Seq<char>>,
    k: int,
    n: int,
)
    requires
        k <= n,
        scan_outcome(registry, tokens, given, k) is Err,
    ensures
        scan_outcome(registry, tokens, given, n) == scan_outcome(registry, tokens, given, k),
    decreases n - k,
{
    if k < n {
        lemma_scan_violation_persists(registry, tokens, given, k, n - 1);
    }
}

/// Once a prefix of the tokens has met a violation, no longer prefix
/// stores a further flag.
pub proof fn lemma_steps_end_at_violation(
    registry: Seq<ArgumentSpec>,
    tokens: Seq<Seq<char>>,
    given: Seq<Seq<char>>,
    k: int,
    n: int,
)
    requires
        k <= n,
        scan_outcome(registry, tokens, given, k) is Err,
    ensures
        steps_stored(registry, tokens, given, n) == steps_stored(registry, tokens, given, k),
    decreases n - k,
{
    if k < n {
        lemma_steps_end_at_violation(registry, tokens, given, k, n - 1);
        lemma_scan_violation_persists(registry, tokens, given, k, n);
    }
}

/// Once a prefix of the registry has met a missing argument, every longer
/// prefix meets the same one.
pub proof fn lemma_defaults_violation_persists(
    registry: Seq<ArgumentSpec>,
    given: Seq<Seq<char>>,
    values: Values,
    k: int,
    n: int,
)
    requires
        k <= n,
        defaults_outcome(registry, given, values, k) is Err,
    ensures
        defaults_outcome(registry, given, values, n) == defaults_outcome(
            registry,
            given,
            values,
            k,
        ),
    decreases n - k,
{
    if k < n {
        lemma_defaults_violation_persists(registry, given, values, k, n - 1);
    }
}

} // verus!
