//! Splitting an invocation into the tokens that are scanned and the
//! trailing segment that is passed through.
//!
//! The first bare `--` ends the scanned part. Whatever follows it is the
//! trailing segment and is never inspected.

use vstd::prelude::*;
use crate::text::flag_name;
use crate::text::is_flag_shaped;
use crate::text::is_flag_token;
use crate::text::is_separator;
use crate::text::is_separator_token;
use crate::text::starts_with_dashes;
use crate::text::strip_dashes;

verus! {

/// The number of tokens that stand before the first separator; the number
/// of all tokens when there is no separator.
pub open spec fn separator_index(args: Seq<Seq<char>>) -> int
    decreases args.len(),
{
    if args.len() == 0 || is_separator(args[0]) {
        0
    } else {
        1 + separator_index(args.drop_first())
    }
}

/// The tokens that are scanned: those before the first separator.
pub open spec fn scanned(args: Seq<Seq<char>>) -> Seq<Seq<char>> {
    args.take(separator_index(args))
}

/// The trailing segment: the tokens after the first separator.
pub open spec fn trailing(args: Seq<Seq<char>>) -> Seq<Seq<char>> {
    if separator_index(args) < args.len() {
        args.skip(separator_index(args) + 1)
    } else {
        Seq::empty()
    }
}

/// The names of the flag tokens among `tokens`, in their order.
pub open spec fn flag_names(tokens: Seq<Seq<char>>) -> Seq<Seq<char>>
    decreases tokens.len(),
{
    if tokens.len() == 0 {
        Seq::empty()
    } else {
        let earlier = flag_names(tokens.drop_last());
        if is_flag_token(tokens.last()) {
            earlier.push(flag_name(tokens.last()))
        } else {
            earlier
        }
    }
}

/// The value that follows the token at position `i`: the next token,
/// unless there is none or it is flag-shaped.
pub open spec fn value_after(tokens: Seq<Seq<char>>, i: int) -> Option<Seq<char>> {
    if i + 1 < tokens.len() && !is_flag_shaped(tokens[i + 1]) {
        Some(tokens[i + 1])
    } else {
        None
    }
}

/// The separator index is the position of the first separator.
pub proof fn lemma_separator_index(args: Seq<Seq<char>>)
    ensures
        0 <= separator_index(args) <= args.len(),
        separator_index(args) < args.len() ==> is_separator(args[separator_index(args)]),
        forall|j: int| 0 <= j < separator_index(args) ==> !is_separator(#[trigger] args[j]),
    decreases args.len(),
{
    if args.len() == 0 || is_separator(args[0]) {
    } else {
        let rest = args.drop_first();
        lemma_separator_index(rest);
        assert forall|j: int| 0 <= j < separator_index(args) implies !is_separator(
            #[trigger] args[j],
        ) by {
            if j > 0 {
                assert(args[j] == rest[j - 1]);
            }
        }
    }
}

/// A position that holds a separator, with none before it, is the
/// separator index; so is the length when there is no separator at all.
pub proof fn lemma_separator_index_is(args: Seq<Seq<char>>, k: int)
    requires
        0 <= k <= args.len(),
        k < args.len() ==> is_separator(args[k]),
        forall|j: int| 0 <= j < k ==> !is_separator(#[trigger] args[j]),
    ensures
        separator_index(args) == k,
{
    lemma_separator_index(args);
    let found = separator_index(args);
    if found < k {
        assert(!is_separator(args[found]));
    } else if k < found {
        assert(!is_separator(args[k]));
    }
}

/// A name is among the flag names exactly when some flag token carries it.
pub proof fn lemma_flag_names_contains(tokens: Seq<Seq<char>>, name: Seq<char>)
    ensures
        flag_names(tokens).contains(name) <==> exists|i: int|
            0 <= i < tokens.len() && is_flag_token(#[trigger] tokens[i]) && flag_name(tokens[i])
                == name,
    decreases tokens.len(),
{
    if tokens.len() > 0 {
        let earlier = tokens.drop_last();
        let last = tokens.last();
        lemma_flag_names_contains(earlier, name);
        if flag_names(tokens).contains(name) {
            let p = choose|p: int|
                0 <= p < flag_names(tokens).len() && flag_names(tokens)[p] == name;
            if is_flag_token(last) && p == flag_names(earlier).len() {
                assert(is_flag_token(tokens[tokens.len() - 1]) && flag_name(
                    tokens[tokens.len() - 1],
                ) == name);
            } else {
                assert(flag_names(earlier)[p] == name);
                assert(flag_names(earlier).contains(name));
                let i = choose|i: int|
                    0 <= i < earlier.len() && is_flag_token(#[trigger] earlier[i]) && flag_name(
                        earlier[i],
                    ) == name;
                assert(is_flag_token(tokens[i]) && flag_name(tokens[i]) == name);
            }
        }
        if exists|i: int|
            0 <= i < tokens.len() && is_flag_token(#[trigger] tokens[i]) && flag_name(tokens[i])
                == name {
            let i = choose|i: int|
                0 <= i < tokens.len() && is_flag_token(#[trigger] tokens[i]) && flag_name(
                    tokens[i],
                ) == name;
            if i == tokens.len() - 1 {
                assert(flag_names(tokens)[flag_names(earlier).len() as int] == name);
            } else {
                assert(is_flag_token(earlier[i]) && flag_name(earlier[i]) == name);
                assert(flag_names(earlier).contains(name));
                let p = choose|p: int|
                    0 <= p < flag_names(earlier).len() && flag_names(earlier)[p] == name;
                assert(flag_names(tokens)[p] == name);
            }
        }
    }
}

/// What the tokenizer makes of an invocation.
#[derive(Debug)]
pub struct Tokens<'a> {
    /// The names of the flags given, in their order.
    pub flags: Vec<&'a str>,
    /// The number of tokens that are scanned.
    pub scanned: usize,
    /// The tokens after the separator.
    pub trailing: Vec<&'a str>,
}

/// Splits an invocation at its first separator and collects the names of
/// the flags before it.
pub fn tokenize<'a>(args: &Vec<&'a str>) -> (tokens: Tokens<'a>)
    ensures
        tokens.scanned == separator_index(args.deep_view()),
        tokens.flags.deep_view() == flag_names(scanned(args.deep_view())),
        tokens.trailing.deep_view() == trailing(args.deep_view()),
{
    let ghost model = args.deep_view();
    let mut flags: Vec<&'a str> = Vec::new();
    let mut i: usize = 0;
    while i < args.len() && !is_separator_token(args[i])
        invariant
            i <= args.len(),
            model == args.deep_view(),
            forall|j: int| 0 <= j < i ==> !is_separator(#[trigger] model[j]),
            flags.deep_view() == flag_names(model.take(i as int)),
        decreases args.len() - i,
    {
        let ghost before = flags.deep_view();
        assert(model.take(i + 1).drop_last() =~= model.take(i as int));
        assert(model.take(i + 1).last() == args[i as int]@);
        if starts_with_dashes(args[i]) {
            flags.push(strip_dashes(args[i]));
            assert(flags.deep_view() =~= before.push(flag_name(args[i as int]@)));
        }
        i += 1;
    }
    proof {
        lemma_separator_index_is(model, i as int);
    }
    let scanned = i;
    let mut trailing: Vec<&'a str> = Vec::new();
    if i < args.len() {
        i += 1;
        while i < args.len()
            invariant
                scanned < i <= args.len(),
                model == args.deep_view(),
                trailing.deep_view() == model.subrange(scanned + 1, i as int),
            decreases args.len() - i,
        {
            let ghost before = trailing.deep_view();
            trailing.push(args[i]);
            assert(trailing.deep_view() =~= before.push(model[i as int]));
            assert(before.push(model[i as int]) =~= model.subrange(scanned + 1, i + 1));
            i += 1;
        }
        assert(model.subrange(scanned + 1, i as int) =~= model.skip(scanned + 1));
    }
    Tokens { flags, scanned, trailing }
}

/// The value token that follows position `i` among the first `end`
/// tokens, if there is one.
pub fn value_token<'a>(args: &Vec<&'a str>, end: usize, i: usize) -> (value: Option<&'a str>)
    requires
        i < end <= args.len(),
    ensures
        crate::argument::opt_view(value) == value_after(args.deep_view().take(end as int), i as int),
{
    if i + 1 < end && !starts_with_dashes(args[i + 1]) {
        Some(args[i + 1])
    } else {
        None
    }
}

} // verus!
