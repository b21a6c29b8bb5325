//! Which function of which package a run starts from.

use vstd::prelude::*;

use crate::text::push_str;

verus! {

/// The entry point of a run.
#[derive(Clone, Debug, PartialEq, Eq)]
pub struct ExecutionConfig {
    pub entry_package: String,
    pub entry_function: String,
}

impl ExecutionConfig {
    /// A copy of the configuration.
    pub fn duplicate(&self) -> (r: Self)
        ensures
            r.entry_package@ == self.entry_package@,
            r.entry_function@ == self.entry_function@,
    {
        ExecutionConfig { entry_package: self.entry_package.clone(), entry_function: self.entry_function.clone() }
    }
}

impl Default for ExecutionConfig {
    /// Runs start from `main.main`.
    fn default() -> (r: Self)
        ensures
            r.entry_package@ == "main"@,
            r.entry_function@ == "main"@,
    {
        let mut entry_package = String::new();
        push_str(&mut entry_package, "main");
        let mut entry_function = String::new();
        push_str(&mut entry_function, "main");
        ExecutionConfig { entry_package, entry_function }
    }
}

} // verus!
