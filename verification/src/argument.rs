//! The description of one recognised argument and its constraints.

use vstd::prelude::*;

verus! {

/// The mathematical model of one argument description.
pub struct ArgumentSpec {
    /// The name by which the argument is given on the command line,
    /// without its leading dashes.
    pub name: Seq<char>,
    /// Whether a value for the argument must always be resolved.
    pub required: bool,
    /// An argument that may not be given together with this one.
    pub conflicts_with: Option<Seq<char>>,
    /// An argument that must be given whenever this one is.
    pub depends_on: Option<Seq<char>>,
    /// Whether the argument is followed by a value.
    pub takes_value: bool,
    /// The value a required argument resolves to when it is not given.
    pub default_value: Option<Seq<char>>,
    /// The values the argument accepts; `None` accepts every value.
    pub allowed_values: Option<Seq<Seq<char>>>,
    /// The text shown for the argument in help output.
    pub help: Seq<char>,
}

impl ArgumentSpec {
    /// Whether `value` is acceptable for this argument.
    pub open spec fn permits(self, value: Seq<char>) -> bool {
        match self.allowed_values {
            Some(allowed) => allowed.contains(value),
            None => true,
        }
    }

    /// The line of help output for this argument: its name, a colon and a
    /// space, then its help text.
    pub open spec fn help_line(self) -> Seq<char> {
        self.name + ": "@ + self.help
    }
}

/// The model of an optional string.
pub open spec fn opt_view(text: Option<&str>) -> Option<Seq<char>> {
    match text {
        Some(s) => Some(s@),
        None => None,
    }
}

/// One recognised argument and its constraints. Each field means what the
/// field of the same name means in [`ArgumentSpec`].
#[derive(Debug)]
pub struct ArgumentInfo<'a> {
    pub name: &'a str,
    pub required: bool,
    pub conflicts_with: Option<&'a str>,
    pub depends_on: Option<&'a str>,
    pub takes_value: bool,
    pub default_value: Option<&'a str>,
    pub allowed_values: Option<Vec<&'a str>>,
    pub help: &'a str,
}

impl<'a> View for ArgumentInfo<'a> {
    type V = ArgumentSpec;

    open spec fn view(&self) -> ArgumentSpec {
        ArgumentSpec {
            name: self.name@,
            required: self.required,
            conflicts_with: opt_view(self.conflicts_with),
            depends_on: opt_view(self.depends_on),
            takes_value: self.takes_value,
            default_value: opt_view(self.default_value),
            allowed_values: match self.allowed_values {
                Some(allowed) => Some(allowed.deep_view()),
                None => None,
            },
            help: self.help@,
        }
    }
}

impl<'a> ArgumentInfo<'a> {
    /// Describes an argument that accepts every value.
    pub fn new(
        name: &'a str,
        required: bool,
        conflicts_with: Option<&'a str>,
        depends_on: Option<&'a str>,
        takes_value: bool,
        default_value: Option<&'a str>,
        help: &'a str,
    ) -> (info: ArgumentInfo<'a>)
        ensures
            info@ == (ArgumentSpec {
                name: name@,
                required,
                conflicts_with: opt_view(conflicts_with),
                depends_on: opt_view(depends_on),
                takes_value,
                default_value: opt_view(default_value),
                allowed_values: None,
                help: help@,
            }),
    {
        ArgumentInfo {
            name,
            required,
            conflicts_with,
            depends_on,
            takes_value,
            default_value,
            allowed_values: None,
            help,
        }
    }

    /// Restricts the argument to the given values.
    pub fn with_allowed_values(self, allowed: Vec<&'a str>) -> (info: ArgumentInfo<'a>)
        ensures
            info@ == (ArgumentSpec { allowed_values: Some(allowed.deep_view()), ..self@ }),
    {
        ArgumentInfo {
            name: self.name,
            required: self.required,
            conflicts_with: self.conflicts_with,
            depends_on: self.depends_on,
            takes_value: self.takes_value,
            default_value: self.default_value,
            allowed_values: Some(allowed),
            help: self.help,
        }
    }

    /// Tests whether `value` is acceptable for this argument.
    pub fn permits(&self, value: &str) -> (accepted: bool)
        ensures
            accepted == self@.permits(value@),
    {
        match &self.allowed_values {
            Some(allowed) => crate::text::contains(allowed, value),
            None => true,
        }
    }

    /// Renders the argument's line of help output.
    pub fn display_help(&self) -> (line: String)
        ensures
            line@ == self@.help_line(),
    {
        String::from_str(self.name).concat(": ").concat(self.help)
    }
}

} // verus!
