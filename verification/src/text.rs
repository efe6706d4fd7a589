//! Token shapes and the string primitives the scanner is built from.
//!
//! A token is modelled by its sequence of characters. Everything here is
//! stated over that model, so the scanner's contracts never depend on how a
//! string is stored.

use vstd::prelude::*;
use vstd::utf8::encode_utf8;
use vstd::utf8::encode_utf8_decode_utf8;

verus! {

/// A token is flag-shaped when it begins with two dashes. The bare
/// separator `--` is flag-shaped too.
pub open spec fn is_flag_shaped(token: Seq<char>) -> bool {
    token.len() >= 2 && token[0] == '-' && token[1] == '-'
}

/// The bare separator: exactly two dashes and nothing else.
pub open spec fn is_separator(token: Seq<char>) -> bool {
    token.len() == 2 && token[0] == '-' && token[1] == '-'
}

/// A flag token is flag-shaped and is not the bare separator.
pub open spec fn is_flag_token(token: Seq<char>) -> bool {
    is_flag_shaped(token) && !is_separator(token)
}

/// The name a flag token carries: the token with every leading pair of
/// dashes removed. `--id` names `id`, `----id` names `id` as well, and
/// `---id` names `-id`.
pub open spec fn flag_name(token: Seq<char>) -> Seq<char>
    decreases token.len(),
{
    if is_flag_shaped(token) {
        flag_name(token.skip(2))
    } else {
        token
    }
}

/// Tests whether two strings hold the same characters.
pub fn str_eq(a: &str, b: &str) -> (equal: bool)
    ensures
        equal == (a@ == b@),
{
    let x = a.as_bytes();
    let y = b.as_bytes();
    proof {
        // Decoding undoes encoding, so equal bytes mean equal characters.
        encode_utf8_decode_utf8(a@);
        encode_utf8_decode_utf8(b@);
    }
    if x.len() != y.len() {
        return false;
    }
    let mut i: usize = 0;
    while i < x.len()
        invariant
            i <= x.len(),
            x.len() == y.len(),
            x@ == encode_utf8(a@),
            y@ == encode_utf8(b@),
            forall|j: int| 0 <= j < i ==> x@[j] == y@[j],
        decreases x.len() - i,
    {
        if x[i] != y[i] {
            return false;
        }
        i += 1;
    }
    assert(x@ =~= y@);
    true
}

/// Tests whether a token begins with two dashes.
pub fn starts_with_dashes(token: &str) -> (shaped: bool)
    ensures
        shaped == is_flag_shaped(token@),
{
    let mut chars = token.chars();
    match chars.next() {
        Some(first) => {
            if first != '-' {
                return false;
            }
            match chars.next() {
                Some(second) => second == '-',
                None => false,
            }
        },
        None => false,
    }
}

/// Tests whether a token is the bare separator `--`.
pub fn is_separator_token(token: &str) -> (separator: bool)
    ensures
        separator == is_separator(token@),
{
    let mut chars = token.chars();
    match chars.next() {
        Some(first) => {
            if first != '-' {
                return false;
            }
            match chars.next() {
                Some(second) => {
                    if second != '-' {
                        return false;
                    }
                    chars.next().is_none()
                },
                None => false,
            }
        },
        None => false,
    }
}

/// Tests whether a token is a flag token: flag-shaped, and not the bare
/// separator.
pub fn is_flag(token: &str) -> (flag: bool)
    ensures
        flag == is_flag_token(token@),
{
    starts_with_dashes(token) && !is_separator_token(token)
}

/// Removes every leading pair of dashes from a token.
pub fn strip_dashes<'a>(token: &'a str) -> (name: &'a str)
    ensures
        name@ == flag_name(token@),
{
    let mut rest: &'a str = token;
    while starts_with_dashes(rest)
        invariant
            flag_name(rest@) == flag_name(token@),
        decreases rest@.len(),
    {
        let length = rest.unicode_len();
        let tail = rest.substring_char(2, length);
        assert(tail@ =~= rest@.skip(2));
        rest = tail;
    }
    rest
}

/// Tests whether `needle` occurs among `names`.
pub fn contains(names: &Vec<&str>, needle: &str) -> (found: bool)
    ensures
        found == names.deep_view().contains(needle@),
{
    let mut i: usize = 0;
    while i < names.len()
        invariant
            i <= names.len(),
            forall|j: int| 0 <= j < i ==> names.deep_view()[j] != needle@,
        decreases names.len() - i,
    {
        if str_eq(names[i], needle) {
            assert(names.deep_view()[i as int] == needle@);
            return true;
        }
        i += 1;
    }
    false
}

} // verus!
