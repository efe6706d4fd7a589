//! The ordered collection of recognised arguments.

use vstd::prelude::*;
use crate::argument::ArgumentInfo;
use crate::argument::ArgumentSpec;
use crate::text::str_eq;

verus! {

/// Whether some description in `registry` carries `name`.
pub open spec fn has_spec(registry: Seq<ArgumentSpec>, name: Seq<char>) -> bool {
    exists|i: int| 0 <= i < registry.len() && (#[trigger] registry[i]).name == name
}

/// Whether a reference from the description named `own` is either absent
/// or names another description of `registry`.
pub open spec fn refers_within(
    registry: Seq<ArgumentSpec>,
    reference: Option<Seq<char>>,
    own: Seq<char>,
) -> bool {
    match reference {
        Some(other) => other != own && has_spec(registry, other),
        None => true,
    }
}

/// Whether no two descriptions of `registry` share a name.
pub open spec fn distinct_names(registry: Seq<ArgumentSpec>) -> bool {
    forall|i: int, j: int|
        0 <= i < j < registry.len() ==> (#[trigger] registry[i]).name != (
        #[trigger] registry[j]).name
}

/// Whether every reference of every description points at another
/// description of `registry`.
pub open spec fn closed_references(registry: Seq<ArgumentSpec>) -> bool {
    forall|i: int|
        0 <= i < registry.len() ==> {
            &&& refers_within(
                registry,
                (#[trigger] registry[i]).conflicts_with,
                registry[i].name,
            )
            &&& refers_within(registry, registry[i].depends_on, registry[i].name)
        }
}

/// What makes a sequence of descriptions a registry: names are unique, and
/// each `conflicts_with` and `depends_on` names another description.
pub open spec fn well_formed(registry: Seq<ArgumentSpec>) -> bool {
    distinct_names(registry) && closed_references(registry)
}

/// The description that carries `name`, if there is one.
pub open spec fn lookup(registry: Seq<ArgumentSpec>, name: Seq<char>) -> Option<ArgumentSpec> {
    if has_spec(registry, name) {
        Some(
            registry[choose|i: int|
                0 <= i < registry.len() && (#[trigger] registry[i]).name == name],
        )
    } else {
        None
    }
}

/// With unique names, looking up the name of a description finds that
/// description.
pub proof fn lemma_lookup_finds(registry: Seq<ArgumentSpec>, i: int)
    requires
        distinct_names(registry),
        0 <= i < registry.len(),
    ensures
        lookup(registry, registry[i].name) == Some(registry[i]),
{
    let name = registry[i].name;
    assert(has_spec(registry, name));
    let j = choose|j: int| 0 <= j < registry.len() && (#[trigger] registry[j]).name == name;
    if j < i {
        assert(registry[j].name != registry[i].name);
    } else if i < j {
        assert(registry[i].name != registry[j].name);
    }
}

/// What a lookup returns carries the name that was looked up and is a
/// description of the registry.
pub proof fn lemma_lookup_named(registry: Seq<ArgumentSpec>, name: Seq<char>)
    ensures
        lookup(registry, name) matches Some(spec) ==> spec.name == name && registry.contains(
            spec,
        ),
        lookup(registry, name) is None <==> !has_spec(registry, name),
{
    if has_spec(registry, name) {
        let j = choose|j: int| 0 <= j < registry.len() && (#[trigger] registry[j]).name == name;
        assert(registry[j] == lookup(registry, name)->0);
    }
}

/// The models of a sequence of descriptions, in their order.
pub open spec fn specs_view(infos: Seq<ArgumentInfo>) -> Seq<ArgumentSpec> {
    Seq::new(infos.len(), |i: int| infos[i]@)
}

/// The first position in `infos` whose description carries `name`.
fn find(infos: &Vec<ArgumentInfo>, name: &str) -> (found: Option<usize>)
    ensures
        match found {
            Some(i) => {
                &&& i < infos.len()
                &&& specs_view(infos@)[i as int].name == name@
                &&& forall|j: int| 0 <= j < i ==> (#[trigger] specs_view(infos@)[j]).name != name@
            },
            None => !has_spec(specs_view(infos@), name@),
        },
{
    let mut i: usize = 0;
    while i < infos.len()
        invariant
            i <= infos.len(),
            forall|j: int| 0 <= j < i ==> (#[trigger] specs_view(infos@)[j]).name != name@,
        decreases infos.len() - i,
    {
        if str_eq(infos[i].name, name) {
            return Some(i);
        }
        i += 1;
    }
    None
}

/// Tests whether a reference from the description named `own` is absent or
/// names another description among `infos`.
fn reference_holds(infos: &Vec<ArgumentInfo>, reference: Option<&str>, own: &str) -> (holds:
    bool)
    ensures
        holds == refers_within(specs_view(infos@), crate::argument::opt_view(reference), own@),
{
    match reference {
        Some(other) => !str_eq(other, own) && find(infos, other).is_some(),
        None => true,
    }
}

/// The recognised arguments, in a fixed order. Names are unique, and each
/// `conflicts_with` and `depends_on` names another argument of the registry.
#[derive(Debug)]
pub struct ArgumentRegistry<'a> {
    specs: Vec<ArgumentInfo<'a>>,
}

impl<'a> View for ArgumentRegistry<'a> {
    type V = Seq<ArgumentSpec>;

    closed spec fn view(&self) -> Seq<ArgumentSpec> {
        specs_view(self.specs@)
    }
}

impl<'a> ArgumentRegistry<'a> {
    #[verifier::type_invariant]
    spec fn valid(self) -> bool {
        well_formed(specs_view(self.specs@))
    }

    /// Builds a registry from descriptions, or returns `None` when a name
    /// occurs twice or a reference does not name another description.
    pub fn new(specs: Vec<ArgumentInfo<'a>>) -> (registry: Option<ArgumentRegistry<'a>>)
        ensures
            match registry {
                Some(built) => built@ == specs_view(specs@) && well_formed(built@),
                None => !well_formed(specs_view(specs@)),
            },
    {
        let ghost model = specs_view(specs@);
        let mut i: usize = 0;
        while i < specs.len()
            invariant
                i <= specs.len(),
                model == specs_view(specs@),
                forall|p: int, q: int|
                    0 <= p < q < i ==> (#[trigger] model[p]).name != (#[trigger] model[q]).name,
                forall|p: int|
                    0 <= p < i ==> {
                        &&& refers_within(model, (#[trigger] model[p]).conflicts_with, model[p].name)
                        &&& refers_within(model, model[p].depends_on, model[p].name)
                    },
            decreases specs.len() - i,
        {
            let info = &specs[i];
            assert(model[i as int] == info@);
            match find(&specs, info.name) {
                Some(first) => {
                    if first != i {
                        assert(model[first as int].name == model[i as int].name);
                        return None;
                    }
                },
                None => {
                    assert(model[i as int].name == info.name@);
                    return None;
                },
            }
            if !reference_holds(&specs, info.conflicts_with, info.name) {
                return None;
            }
            if !reference_holds(&specs, info.depends_on, info.name) {
                return None;
            }
            i += 1;
        }
        Some(ArgumentRegistry { specs })
    }

    /// The number of descriptions.
    pub fn len(&self) -> (count: usize)
        ensures
            count == self@.len(),
    {
        self.specs.len()
    }

    /// The description at position `index`.
    pub fn get(&self, index: usize) -> (info: &ArgumentInfo<'a>)
        requires
            index < self@.len(),
        ensures
            info@ == self@[index as int],
    {
        &self.specs[index]
    }

    /// The description that carries `name`, if there is one.
    pub fn lookup(&self, name: &str) -> (found: Option<&ArgumentInfo<'a>>)
        ensures
            match found {
                Some(info) => lookup(self@, name@) == Some(info@),
                None => lookup(self@, name@) is None,
            },
    {
        proof {
            use_type_invariant(self);
        }
        match find(&self.specs, name) {
            Some(i) => {
                proof {
                    lemma_lookup_finds(self@, i as int);
                }
                Some(&self.specs[i])
            },
            None => None,
        }
    }

    /// Renders one line of help output for each description, in order.
    pub fn display_help(&self) -> (lines: Vec<String>)
        ensures
            lines.len() == self@.len(),
            forall|i: int| 0 <= i < lines.len() ==> (#[trigger] lines[i])@ == self@[i].help_line(),
    {
        let mut lines: Vec<String> = Vec::new();
        let mut i: usize = 0;
        while i < self.specs.len()
            invariant
                i <= self.specs.len(),
                lines.len() == i,
                forall|j: int|
                    0 <= j < i ==> (#[trigger] lines[j])@ == specs_view(self.specs@)[j].help_line(),
            decreases self.specs.len() - i,
        {
            lines.push(self.specs[i].display_help());
            i += 1;
        }
        lines
    }
}

} // verus!
