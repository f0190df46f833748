//! Equality and order of modules: by module name.
use std::cmp::Ordering;
use vstd::prelude::*;

use crate::generation::module::Module;
use crate::util::text::{compare_str, lex_lt, str_eq, KeyOrder};

verus! {

/// How two modules compare: by their module names, in lexicographic order.
pub open spec fn module_order(a: &Module, b: &Module) -> Option<Ordering> {
    let x = a.config().module_name@;
    let y = b.config().module_name@;
    if x == y {
        Some(Ordering::Equal)
    } else if lex_lt(x, y) {
        Some(Ordering::Less)
    } else {
        Some(Ordering::Greater)
    }
}

impl PartialEq for Module {
    fn eq(&self, other: &Self) -> (r: bool) {
        str_eq(self.config().module_name.as_str(), other.config().module_name.as_str())
    }
}

impl vstd::std_specs::cmp::PartialEqSpecImpl for Module {
    open spec fn obeys_eq_spec() -> bool {
        true
    }

    open spec fn eq_spec(&self, other: &Self) -> bool {
        self.config().module_name@ == other.config().module_name@
    }
}

impl Eq for Module {
}

impl PartialOrd for Module {
    fn partial_cmp(&self, other: &Self) -> (r: Option<Ordering>) {
        match compare_str(self.config().module_name.as_str(), other.config().module_name.as_str()) {
            KeyOrder::Less => Some(Ordering::Less),
            KeyOrder::Equal => Some(Ordering::Equal),
            KeyOrder::Greater => Some(Ordering::Greater),
        }
    }
}

impl vstd::std_specs::cmp::PartialOrdSpecImpl for Module {
    open spec fn obeys_partial_cmp_spec() -> bool {
        true
    }

    open spec fn partial_cmp_spec(&self, other: &Self) -> Option<Ordering> {
        module_order(self, other)
    }
}

} // verus!
