//! The propagation channel: how the flag names of a build step reach the
//! steps that depend on it.
//!
//! The step publishes one string under a fixed metadata key. The build
//! orchestrator hands that string to each direct dependent as a variable
//! whose name is made of the dependency's identifier and the key.

use vstd::prelude::*;
use vstd::string::*;

use crate::text::{
    chars, find, free_of, join, lemma_join_push, lemma_join_split, lemma_split_join,
    lemma_split_pieces, split,
};

verus! {

/// The metadata key under which a build step publishes its flag names.
pub const VAR_CFG_ARGS_KEY: &'static str = "EMBUILD_CFG_ARGS";

/// The character that stands between two flag names in the published string.
pub const SEPARATOR: char = ':';

/// The string that carries `names`.
pub open spec fn encode_spec(names: Seq<Seq<char>>) -> Seq<char> {
    join(names, SEPARATOR)
}

/// The names that the string `value` carries.
pub open spec fn decode_spec(value: Seq<char>) -> Seq<Seq<char>> {
    split(value, SEPARATOR)
}

/// The name of the variable in which a dependent finds what the dependency
/// `dependency` published.
pub open spec fn variable_spec(dependency: Seq<char>) -> Seq<char> {
    "DEP_"@ + dependency + "_"@ + VAR_CFG_ARGS_KEY@
}

/// The value of the first variable of `env` that is called `name`.
pub open spec fn lookup_spec(env: Seq<(Seq<char>, Seq<char>)>, name: Seq<char>) -> Option<
    Seq<char>,
>
    decreases env.len(),
{
    if env.len() == 0 {
        None
    } else if env.first().0 == name {
        Some(env.first().1)
    } else {
        lookup_spec(env.drop_first(), name)
    }
}

/// Names that were put into a string come out of it again, the same and in
/// the same order, if there is at least one name and none holds a separator.
pub proof fn lemma_decode_encode(names: Seq<Seq<char>>)
    requires
        names.len() >= 1,
        free_of(names, SEPARATOR),
    ensures
        decode_spec(encode_spec(names)) == names,
{
    lemma_split_join(names, SEPARATOR);
}

/// Every string carries at least one name, none of its names holds a
/// separator, and the names put together again are the string.
pub proof fn lemma_encode_decode(value: Seq<char>)
    ensures
        decode_spec(value).len() >= 1,
        free_of(decode_spec(value), SEPARATOR),
        encode_spec(decode_spec(value)) == value,
{
    lemma_split_pieces(value, SEPARATOR);
    lemma_join_split(value, SEPARATOR);
}

/// Puts flag names into one string, with a separator between neighbours.
pub fn encode(names: &Vec<String>) -> (value: String)
    ensures
        value@ == encode_spec(names.deep_view()),
{
    let mut value = String::new();
    let mut done: usize = 0;
    while done < names.len()
        invariant
            done <= names.len(),
            value@ == join(names.deep_view().take(done as int), SEPARATOR),
        decreases names.len() - done,
    {
        proof {
            reveal_strlit(":");
            let before = names.deep_view().take(done as int);
            lemma_join_push(before, names[done as int]@, SEPARATOR);
            assert(names.deep_view().take(done + 1) == before.push(names[done as int]@));
        }
        if done > 0 {
            value.append(":");
        }
        value.append(names[done].as_str());
        done += 1;
    }
    assert(names.deep_view().take(done as int) == names.deep_view());
    value
}

/// Takes a published string apart at its separators.
///
/// There is always at least one name: the empty string carries the empty
/// name.
pub fn decode(value: &str) -> (names: Vec<String>)
    ensures
        names.deep_view() == decode_spec(value@),
{
    let text = chars(value);
    let mut names: Vec<String> = Vec::new();
    let mut start: usize = 0;
    assert(text@.skip(0) == text@);
    loop
        invariant_except_break
            start <= text.len(),
            text@ == value@,
            split(value@, SEPARATOR) == names.deep_view() + split(
                text@.skip(start as int),
                SEPARATOR,
            ),
        ensures
            names.deep_view() == split(value@, SEPARATOR),
        decreases text.len() - start,
    {
        let ghost rest = text@.skip(start as int);
        match find(&text, start, text.len(), SEPARATOR) {
            Some(at) => {
                names.push(value.substring_char(start, at).to_owned());
                assert(rest.take(at - start) == text@.subrange(start as int, at as int));
                assert(rest.skip(at - start + 1) == text@.skip(at + 1));
                start = at + 1;
            },
            None => {
                names.push(value.substring_char(start, text.len()).to_owned());
                break ;
            },
        }
    }
    names
}

/// The name of the variable that holds what the dependency `dependency`
/// published. The identifier is taken as it is written.
pub fn variable(dependency: &str) -> (name: String)
    ensures
        name@ == variable_spec(dependency@),
{
    let mut name = "DEP_".to_owned();
    name.append(dependency);
    name.append("_");
    name.append(VAR_CFG_ARGS_KEY);
    name
}

/// Looks a variable up in an environment given as pairs of name and value.
/// Where a name occurs twice, the first occurrence counts.
pub fn lookup<'a>(env: &'a Vec<(String, String)>, name: &String) -> (value: Option<&'a String>)
    ensures
        value.deep_view() == lookup_spec(env.deep_view(), name@),
{
    let mut at: usize = 0;
    assert(env.deep_view().skip(0) == env.deep_view());
    while at < env.len()
        invariant
            at <= env.len(),
            lookup_spec(env.deep_view(), name@) == lookup_spec(
                env.deep_view().skip(at as int),
                name@,
            ),
        decreases env.len() - at,
    {
        let ghost rest = env.deep_view().skip(at as int);
        assert(rest.drop_first() == env.deep_view().skip(at + 1));
        if env[at].0 == *name {
            return Some(&env[at].1);
        }
        at += 1;
    }
    None
}

} // verus!
