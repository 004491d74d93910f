//! The immutable environment that a script runs in.

use vstd::prelude::*;
use crate::names::NameMap;
use crate::stone_script::expr::{Expr, Fragment, FragmentView};

verus! {

/// A script definition
///
/// Written out, this is of the form `%(name)`
#[derive(Debug, Clone)]
pub struct Definition {
    /// Usage documentation
    pub doc: Option<String>,
    /// Expression to evaluate when called
    pub value: Expr,
}

/// A script action
///
/// Written out, this is of the form `%name`
#[derive(Debug, Clone)]
pub struct Action {
    /// Usage documentation
    pub doc: Option<String>,
    /// Usage example
    pub example: Option<String>,
    /// Dependencies to add when encountered
    pub dependencies: Vec<String>,
    /// Expression to evaluate when called
    pub value: Expr,
}

/// The immutable context of a script evaluation
#[derive(Debug, Clone)]
pub struct ScriptEnv {
    /// Map of all currently defined builtins
    pub builtins: NameMap<Expr>,
    /// Map of all currently defined definitions
    pub definitions: NameMap<Definition>,
    /// Map of all currently defined actions
    pub actions: NameMap<Action>,
}

impl ScriptEnv {
    /// Create a new, empty [ScriptEnv]
    pub fn new() -> (env: Self)
        ensures
            env.builtins@ == Map::<Seq<char>, Expr>::empty(),
            env.definitions@ == Map::<Seq<char>, Definition>::empty(),
            env.actions@ == Map::<Seq<char>, Action>::empty(),
    {
        ScriptEnv { builtins: NameMap::new(), definitions: NameMap::new(), actions: NameMap::new() }
    }

    /// Add a builtin to this [ScriptEnv]; the builtin evaluates `value`
    pub fn add_builtin(&mut self, name: &str, value: Expr)
        ensures
            final(self).builtins@ == old(self).builtins@.insert(name@, value),
            final(self).definitions@ == old(self).definitions@,
            final(self).actions@ == old(self).actions@,
    {
        self.builtins.insert(name.to_owned(), value);
    }

    /// Add a builtin to this [ScriptEnv] that outputs the text `value`
    pub fn add_builtin_string(&mut self, name: &str, value: &str)
        ensures
            final(self).builtins@.dom() == old(self).builtins@.dom().insert(name@),
            final(self).builtins@[name@]@ == seq![FragmentView::Output(value@)],
            final(self).builtins@.remove(name@) == old(self).builtins@.remove(name@),
            final(self).definitions@ == old(self).definitions@,
            final(self).actions@ == old(self).actions@,
    {
        let mut fragments: Vec<Fragment> = Vec::new();
        fragments.push(Fragment::output_str(value));
        let e = Expr::from_fragments(fragments);
        assert(e@ =~= seq![FragmentView::Output(value@)]);
        self.add_builtin(name, e);
        assert(self.builtins@.remove(name@) =~= old(self).builtins@.remove(name@));
    }

    /// Add a definition to this [ScriptEnv]
    pub fn add_definition(&mut self, name: &str, definition: Definition)
        ensures
            final(self).definitions@ == old(self).definitions@.insert(name@, definition),
            final(self).builtins@ == old(self).builtins@,
            final(self).actions@ == old(self).actions@,
    {
        self.definitions.insert(name.to_owned(), definition);
    }

    /// Add an action to this [ScriptEnv]
    pub fn add_action(&mut self, name: &str, action: Action)
        ensures
            final(self).actions@ == old(self).actions@.insert(name@, action),
            final(self).builtins@ == old(self).builtins@,
            final(self).definitions@ == old(self).definitions@,
    {
        self.actions.insert(name.to_owned(), action);
    }
}

} // verus!
