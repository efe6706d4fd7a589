//! The ways in which an invocation can be rejected.

use vstd::prelude::*;

verus! {

/// The mathematical model of a rejection.
pub enum ArgErrorView {
    UnknownArgument(Seq<char>),
    ConflictingArgument(Seq<char>),
    MissingDependency(Seq<char>),
    MissingValue(Seq<char>),
    UnexpectedToken(Seq<char>),
    InvalidEnumValue { name: Seq<char>, value: Seq<char> },
    MissingRequiredArgument(Seq<char>),
}

/// The text that reports something found where nothing was expected.
pub open spec fn unexpected_text(what: Seq<char>) -> Seq<char> {
    "Found argument '"@ + what + "' which wasn't expected, or isn't valid in this context."@
}

/// The text that reports something that had to be given and was not.
pub open spec fn not_found_text(what: Seq<char>) -> Seq<char> {
    "Argument '"@ + what + "' required, but not found."@
}

/// The text that reports a flag given without its value.
pub open spec fn no_value_text(name: Seq<char>) -> Seq<char> {
    "Argument '"@ + name + "' requires a value, but none was supplied."@
}

/// The text that reports a value outside the accepted ones.
pub open spec fn invalid_value_text(name: Seq<char>, value: Seq<char>) -> Seq<char> {
    "'"@ + value + "' isn't a valid value for '"@ + name + "'."@
}

impl ArgErrorView {
    /// The message shown to the user for this rejection.
    pub open spec fn message(self) -> Seq<char> {
        match self {
            ArgErrorView::UnknownArgument(name) => unexpected_text(name),
            ArgErrorView::ConflictingArgument(name) => unexpected_text(name),
            ArgErrorView::MissingDependency(name) => not_found_text(name),
            ArgErrorView::MissingValue(name) => no_value_text(name),
            ArgErrorView::UnexpectedToken(token) => unexpected_text(token),
            ArgErrorView::InvalidEnumValue { name, value } => invalid_value_text(name, value),
            ArgErrorView::MissingRequiredArgument(name) => not_found_text(name),
        }
    }
}

/// Why an invocation was rejected. Each variant carries the name or the
/// token at fault, borrowed from the invocation or from the registry.
#[derive(Debug, Clone, Copy, PartialEq, Eq)]
pub enum ArgError<'a> {
    /// A flag was given that the registry does not know.
    UnknownArgument(&'a str),
    /// A flag was given together with the named argument, with which it
    /// conflicts.
    ConflictingArgument(&'a str),
    /// A flag was given without the named argument, on which it depends.
    MissingDependency(&'a str),
    /// The named argument takes a value and none followed it.
    MissingValue(&'a str),
    /// A token stood where only a flag could follow.
    UnexpectedToken(&'a str),
    /// The value given for the named argument is not one it accepts.
    InvalidEnumValue { name: &'a str, value: &'a str },
    /// The named argument is required, was not given and has no default.
    MissingRequiredArgument(&'a str),
}

impl<'a> View for ArgError<'a> {
    type V = ArgErrorView;

    open spec fn view(&self) -> ArgErrorView {
        match *self {
            ArgError::UnknownArgument(name) => ArgErrorView::UnknownArgument(name@),
            ArgError::ConflictingArgument(name) => ArgErrorView::ConflictingArgument(name@),
            ArgError::MissingDependency(name) => ArgErrorView::MissingDependency(name@),
            ArgError::MissingValue(name) => ArgErrorView::MissingValue(name@),
            ArgError::UnexpectedToken(token) => ArgErrorView::UnexpectedToken(token@),
            ArgError::InvalidEnumValue { name, value } => ArgErrorView::InvalidEnumValue {
                name: name@,
                value: value@,
            },
            ArgError::MissingRequiredArgument(name) => ArgErrorView::MissingRequiredArgument(
                name@,
            ),
        }
    }
}

/// The model of a result: the model of what was computed, or of the
/// rejection.
pub open spec fn result_view<'a, T: View>(result: Result<T, ArgError<'a>>) -> Result<
    T::V,
    ArgErrorView,
> {
    match result {
        Ok(value) => Ok(value@),
        Err(error) => Err(error@),
    }
}

/// Builds the text that reports something found where nothing was expected.
fn unexpected(what: &str) -> (text: String)
    ensures
        text@ == unexpected_text(what@),
{
    String::from_str("Found argument '").concat(what).concat(
        "' which wasn't expected, or isn't valid in this context.",
    )
}

/// Builds the text that reports something that had to be given and was not.
fn not_found(what: &str) -> (text: String)
    ensures
        text@ == not_found_text(what@),
{
    String::from_str("Argument '").concat(what).concat("' required, but not found.")
}

impl<'a> ArgError<'a> {
    /// Renders the message shown to the user.
    pub fn message(&self) -> (text: String)
        ensures
            text@ == self@.message(),
    {
        match *self {
            ArgError::UnknownArgument(name) => unexpected(name),
            ArgError::ConflictingArgument(name) => unexpected(name),
            ArgError::MissingDependency(name) => not_found(name),
            ArgError::MissingValue(name) => String::from_str("Argument '").concat(name).concat(
                "' requires a value, but none was supplied.",
            ),
            ArgError::UnexpectedToken(token) => unexpected(token),
            ArgError::InvalidEnumValue { name, value } => String::from_str("'").concat(
                value,
            ).concat("' isn't a valid value for '").concat(name).concat("'."),
            ArgError::MissingRequiredArgument(name) => not_found(name),
        }
    }
}

} // verus!
