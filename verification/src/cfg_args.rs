//! The options of one configuration dump, and the flags that follow from
//! them for a build step and for its dependents.

use vstd::prelude::*;
use vstd::string::*;

use crate::channel::{
    decode, decode_spec, encode, encode_spec, lemma_decode_encode, lookup, lookup_spec, variable,
    variable_spec, SEPARATOR, VAR_CFG_ARGS_KEY,
};
use crate::directive::{flag_directives, flags, Directive, DirectiveView};
use crate::text::{free_of, lemma_split_none};
use crate::unicode::lowercase;
use crate::value::{Tristate, Value, ValueView};

verus! {

/// Why the flags of a dependency cannot be set.
#[derive(Debug, PartialEq, Eq)]
pub enum Error {
    /// The variable that should hold what the dependency published is not
    /// there: the dependency did not propagate its flags, or this step does
    /// not depend on it.
    NotPropagated { variable: String },
}

impl Clone for Error {
    fn clone(&self) -> (copy: Error)
        ensures
            copy == *self,
    {
        match self {
            Error::NotPropagated { variable } => Error::NotPropagated {
                variable: variable.clone(),
            },
        }
    }
}

/// The name of the flag that stands for the option `key` under `prefix`:
/// both in lowercase, with an underscore between them.
pub open spec fn flag_name_spec(prefix: Seq<char>, key: Seq<char>) -> Seq<char> {
    lowercase(prefix) + seq!['_'] + lowercase(key)
}

/// The flag of one option under `prefix`: its flag name if the option is
/// set to true, and none otherwise.
pub open spec fn flag_of(prefix: Seq<char>) -> spec_fn((Seq<char>, ValueView)) -> Option<
    Seq<char>,
> {
    |pair: (Seq<char>, ValueView)|
        if pair.1 == ValueView::Tristate(Tristate::True) {
            Some(flag_name_spec(prefix, pair.0))
        } else {
            None
        }
}

/// The flag names of the options that are set to true, in the order of the
/// options. An option that occurs twice gives its flag twice.
pub open spec fn gather_spec(pairs: Seq<(Seq<char>, ValueView)>, prefix: Seq<char>) -> Seq<
    Seq<char>,
> {
    pairs.filter_map(flag_of(prefix))
}

/// The directive by which a step publishes its flags to its dependents.
pub open spec fn propagate_spec(pairs: Seq<(Seq<char>, ValueView)>, prefix: Seq<char>)
    -> DirectiveView {
    DirectiveView::Metadata {
        key: VAR_CFG_ARGS_KEY@,
        value: encode_spec(gather_spec(pairs, prefix)),
    }
}

/// The directives that set what the dependency `dependency` published, as
/// far as the environment `env` holds it.
pub open spec fn propagated_spec(dependency: Seq<char>, env: Seq<(Seq<char>, Seq<char>)>)
    -> Option<Seq<DirectiveView>> {
    match lookup_spec(env, variable_spec(dependency)) {
        Some(value) => Some(flags(decode_spec(value))),
        None => None,
    }
}

/// Puts a flag name together from a prefix and a key that are in lowercase
/// already.
pub fn flag_name(lower_prefix: &str, lower_key: &str) -> (name: String)
    ensures
        name@ == lower_prefix@ + seq!['_'] + lower_key@,
{
    let mut name = lower_prefix.to_owned();
    name.append("_");
    name.append(lower_key);
    proof {
        reveal_strlit("_");
    }
    name
}

/// The options that a configuration dump sets, in the order of the dump.
#[derive(Debug)]
pub struct CfgArgs(Vec<(String, Value)>);

impl Clone for CfgArgs {
    fn clone(&self) -> (copy: CfgArgs)
        ensures
            copy@ == self@,
    {
        let mut pairs: Vec<(String, Value)> = Vec::new();
        let mut done: usize = 0;
        while done < self.0.len()
            invariant
                done <= self.0.len(),
                pairs.deep_view() == self@.take(done as int),
            decreases self.0.len() - done,
        {
            let pair = &self.0[done];
            pairs.push((pair.0.clone(), pair.1.clone()));
            assert(self@.take(done + 1) == self@.take(done as int).push(self@[done as int]));
            done += 1;
        }
        CfgArgs(pairs)
    }
}

impl View for CfgArgs {
    type V = Seq<(Seq<char>, ValueView)>;

    closed spec fn view(&self) -> Seq<(Seq<char>, ValueView)> {
        self.0.deep_view()
    }
}

impl CfgArgs {
    /// The set of the given options, in the given order.
    pub fn new(pairs: Vec<(String, Value)>) -> (args: CfgArgs)
        ensures
            args@ == pairs.deep_view(),
    {
        CfgArgs(pairs)
    }

    /// The options of the set, in order.
    pub fn pairs(&self) -> (pairs: &Vec<(String, Value)>)
        ensures
            pairs.deep_view() == self@,
    {
        &self.0
    }

    /// The names of the flags that the set gives under `prefix`.
    ///
    /// There is one flag for each option that is set to true, in the order
    /// of the options, named `<prefix>_<key>` in lowercase. Nothing is
    /// merged: an option that occurs twice gives its flag twice.
    pub fn gather(&self, prefix: &str) -> (names: Vec<String>)
        ensures
            names.deep_view() == gather_spec(self@, prefix@),
    {
        let lower_prefix = prefix.to_lowercase();
        let mut names: Vec<String> = Vec::new();
        let mut done: usize = 0;
        while done < self.0.len()
            invariant
                done <= self.0.len(),
                lower_prefix@ == lowercase(prefix@),
                names.deep_view() == gather_spec(self@.take(done as int), prefix@),
            decreases self.0.len() - done,
        {
            let pair = &self.0[done];
            proof {
                self@.lemma_filter_map_take_succ(flag_of(prefix@), done as int);
            }
            match pair.1 {
                Value::Tristate(Tristate::True) => {
                    let lower_key = pair.0.as_str().to_lowercase();
                    let name = flag_name(lower_prefix.as_str(), lower_key.as_str());
                    names.push(name);
                },
                _ => {},
            }
            done += 1;
        }
        assert(self@.take(done as int) == self@);
        names
    }

    /// The directives that set the flags of this set, under `prefix`, for
    /// the code of the current build step: one for each name that
    /// [`CfgArgs::gather`] gives, in the same order.
    pub fn output(&self, prefix: &str) -> (directives: Vec<Directive>)
        ensures
            directives.deep_view() == flags(gather_spec(self@, prefix@)),
    {
        flag_directives(self.gather(prefix))
    }

    /// The directive that publishes the flags of this set, under `prefix`,
    /// to the direct dependents of the current build step.
    ///
    /// The names that [`CfgArgs::gather`] gives travel as one string, with a
    /// separator between neighbours, under the key [`VAR_CFG_ARGS_KEY`]. A
    /// dependent sets them with [`CfgArgs::output_propagated`].
    pub fn propagate(&self, prefix: &str) -> (directive: Directive)
        ensures
            directive@ == propagate_spec(self@, prefix@),
    {
        let names = self.gather(prefix);
        Directive::Metadata { key: VAR_CFG_ARGS_KEY.to_owned(), value: encode(&names) }
    }

    /// The directives that set, for the code of the current build step, the
    /// flags that the dependency `lib_name` published.
    ///
    /// `lib_name` is the identifier under which the build orchestrator knows
    /// the dependency, and `env` is the environment of the current step, as
    /// pairs of name and value. If the environment holds the variable of the
    /// dependency, there is one directive for each name in its value. If it
    /// does not, the error names the variable, and nothing is to be set.
    pub fn output_propagated(lib_name: &str, env: &Vec<(String, String)>) -> (result: Result<
        Vec<Directive>,
        Error,
    >)
        ensures
            match propagated_spec(lib_name@, env.deep_view()) {
                Some(directives) => result matches Ok(found) && found.deep_view() == directives,
                None => result matches Err(Error::NotPropagated { variable }) && variable@
                    == variable_spec(lib_name@),
            },
    {
        let name = variable(lib_name);
        match lookup(env, &name) {
            Some(value) => Ok(flag_directives(decode(value.as_str()))),
            None => Err(Error::NotPropagated { variable: name }),
        }
    }
}

/// Gathering depends on nothing but the set and the prefix: whatever two
/// calls of [`CfgArgs::gather`] on the same set and prefix return holds the
/// same names in the same order.
pub proof fn lemma_gather_repeatable(
    args: &CfgArgs,
    prefix: &str,
    first: Vec<String>,
    second: Vec<String>,
)
    requires
        call_ensures(CfgArgs::gather, (args, prefix), first),
        call_ensures(CfgArgs::gather, (args, prefix), second),
    ensures
        first.deep_view() == second.deep_view(),
{
}

/// What a dependency propagates is what its dependents set.
///
/// Let a step propagate the options `pairs` under `prefix`, and let the
/// environment `env` of a dependent hold the published string in the
/// variable of that step. Then the dependent is told to set exactly the
/// names that the step gathered, in the same order. This needs at least
/// one gathered name, and no separator inside a name.
pub proof fn lemma_propagate_round_trip(
    pairs: Seq<(Seq<char>, ValueView)>,
    prefix: Seq<char>,
    dependency: Seq<char>,
    env: Seq<(Seq<char>, Seq<char>)>,
)
    requires
        gather_spec(pairs, prefix).len() >= 1,
        free_of(gather_spec(pairs, prefix), SEPARATOR),
        propagate_spec(pairs, prefix) matches DirectiveView::Metadata { key, value }
            && lookup_spec(env, "DEP_"@ + dependency + "_"@ + key) == Some(value),
    ensures
        propagated_spec(dependency, env) == Some(flags(gather_spec(pairs, prefix))),
{
    lemma_decode_encode(gather_spec(pairs, prefix));
}

/// A step that gathers no name publishes the empty string, and the empty
/// string carries one name, the empty one: that is what its dependents are
/// told to set.
pub proof fn lemma_propagate_nothing(
    pairs: Seq<(Seq<char>, ValueView)>,
    prefix: Seq<char>,
    dependency: Seq<char>,
    env: Seq<(Seq<char>, Seq<char>)>,
)
    requires
        gather_spec(pairs, prefix).len() == 0,
        propagate_spec(pairs, prefix) matches DirectiveView::Metadata { key, value }
            && lookup_spec(env, "DEP_"@ + dependency + "_"@ + key) == Some(value),
    ensures
        propagated_spec(dependency, env) == Some(flags(seq![Seq::<char>::empty()])),
{
    lemma_split_none(Seq::<char>::empty(), SEPARATOR);
}

} // verus!
