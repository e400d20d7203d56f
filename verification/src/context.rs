//! Execution-time variable scopes.
//!
//! `Global` holds the environment namespace, written once before any run
//! starts; `RunState` pairs it with a run-local namespace that only the
//! owning run mutates.

use vstd::prelude::*;

use crate::text::{chars_to_string, str_to_chars};
use crate::vars::{lookup_key, resolve_scoped, substitute_chars, substitute_spec, VarMap};

verus! {

/// The global namespace, shared read-only by every run.
pub struct Global {
    pub env_variables: VarMap,
}

impl Global {
    /// An empty global namespace.
    pub fn new() -> (r: Self)
        ensures
            r.env_variables@ == Map::<Seq<char>, Seq<char>>::empty(),
    {
        Global { env_variables: VarMap::new() }
    }

    /// An independent copy of the global namespace.
    pub fn duplicate(&self) -> (r: Self)
        ensures
            r.env_variables@ == self.env_variables@,
            r.env_variables.pairs() == self.env_variables.pairs(),
    {
        Global { env_variables: self.env_variables.duplicate() }
    }

    /// Substitutes placeholders against the global namespace alone, as the
    /// capture phase does before any run exists.
    pub fn substitute_values_in_text(&self, input: &str) -> (r: String)
        ensures
            r@ == substitute_spec(
                input@,
                Map::<Seq<char>, Seq<char>>::empty(),
                self.env_variables@,
            ),
    {
        let chars = str_to_chars(input);
        let empty_run = VarMap::new();
        let out = substitute_chars(&chars, &empty_run, &self.env_variables);
        chars_to_string(&out)
    }
}

/// A run's execution state: its own namespace over the shared global one.
pub struct RunState {
    pub run_variables: VarMap,
    pub global: Global,
}

impl RunState {
    /// A fresh state for one run, with an empty run-local namespace.
    pub fn new(global: Global) -> (r: Self)
        ensures
            r.run_variables@ == Map::<Seq<char>, Seq<char>>::empty(),
            r.run_variables.pairs() == Seq::<(Seq<char>, Seq<char>)>::empty(),
            r.global == global,
    {
        RunState { run_variables: VarMap::new(), global }
    }

    /// Resolves one variable name, the run-local namespace shadowing the
    /// global one for bare names.
    pub fn resolve(&self, key: &String) -> (r: Option<String>)
        ensures
            match r {
                Some(v) => lookup_key(key@, self.run_variables@, self.global.env_variables@)
                    == Some(v@),
                None => lookup_key(key@, self.run_variables@, self.global.env_variables@) is None,
            },
    {
        let chars = str_to_chars(key.as_str());
        resolve_scoped(&chars, &self.run_variables, &self.global.env_variables)
    }

    /// Substitutes every placeholder in the text against the run-local and
    /// global namespaces.
    pub fn substitute_values_in_text(&self, input: &str) -> (r: String)
        ensures
            r@ == substitute_spec(input@, self.run_variables@, self.global.env_variables@),
    {
        let chars = str_to_chars(input);
        let out = substitute_chars(&chars, &self.run_variables, &self.global.env_variables);
        chars_to_string(&out)
    }
}

} // verus!
