//! What a build step asks of the build orchestrator.
//!
//! The library does not talk to the orchestrator. It returns directives, and
//! the caller carries them out.

use vstd::prelude::*;

verus! {

/// One request of a build step to the build orchestrator.
#[derive(Debug, PartialEq, Eq)]
pub enum Directive {
    /// Set the conditional-compilation flag of this name for the code of
    /// this step.
    Flag(String),
    /// Publish `value` under `key` to the steps that depend directly on
    /// this one.
    Metadata { key: String, value: String },
}

/// What a [`Directive`] holds, with each text as a sequence of characters.
pub enum DirectiveView {
    Flag(Seq<char>),
    Metadata { key: Seq<char>, value: Seq<char> },
}

impl View for Directive {
    type V = DirectiveView;

    open spec fn view(&self) -> DirectiveView {
        match *self {
            Directive::Flag(name) => DirectiveView::Flag(name@),
            Directive::Metadata { key, value } => DirectiveView::Metadata {
                key: key@,
                value: value@,
            },
        }
    }
}

impl DeepView for Directive {
    type V = DirectiveView;

    open spec fn deep_view(&self) -> DirectiveView {
        self@
    }
}

impl Clone for Directive {
    fn clone(&self) -> (copy: Directive)
        ensures
            copy == *self,
    {
        match self {
            Directive::Flag(name) => Directive::Flag(name.clone()),
            Directive::Metadata { key, value } => Directive::Metadata {
                key: key.clone(),
                value: value.clone(),
            },
        }
    }
}

/// One flag directive for each name, in the order of the names.
pub open spec fn flags(names: Seq<Seq<char>>) -> Seq<DirectiveView> {
    names.map_values(|name: Seq<char>| DirectiveView::Flag(name))
}

/// Turns each name into the directive that sets it as a flag.
pub fn flag_directives(names: Vec<String>) -> (directives: Vec<Directive>)
    ensures
        directives.deep_view() == flags(names.deep_view()),
{
    let ghost all = names.deep_view();
    let mut directives: Vec<Directive> = Vec::new();
    for name in it: names
        invariant
            it.seq().len() == all.len(),
            forall|k: int| 0 <= k < all.len() ==> it.seq()[k]@ == all[k],
            directives.deep_view() == flags(all.take(it.index() as int)),
    {
        let ghost before = directives.deep_view();
        let ghost text = name@;
        directives.push(Directive::Flag(name));
        assert(directives.deep_view() == before.push(DirectiveView::Flag(text)));
    }
    directives
}

} // verus!
