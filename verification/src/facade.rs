//! The facade pattern: one call that runs the subsystems' operations in a
//! fixed order and returns their combined output.

use vstd::prelude::*;

verus! {

pub struct SubsystemA {}

impl SubsystemA {
    pub fn operation_a1(&self) -> (r: String)
        ensures
            r@ == "Subsystem A, Operation A1"@,
    {
        "Subsystem A, Operation A1".to_owned()
    }

    pub fn operation_a2(&self) -> (r: String)
        ensures
            r@ == "Subsystem A, Operation A2"@,
    {
        "Subsystem A, Operation A2".to_owned()
    }
}

pub struct SubsystemB {}

impl SubsystemB {
    pub fn operation_b1(&self) -> (r: String)
        ensures
            r@ == "Subsystem B, Operation B1"@,
    {
        "Subsystem B, Operation B1".to_owned()
    }

    pub fn operation_b2(&self) -> (r: String)
        ensures
            r@ == "Subsystem B, Operation B2"@,
    {
        "Subsystem B, Operation B2".to_owned()
    }
}

/// The combined output of the facade's one operation: all four subsystem
/// operations, in order, one per line.
pub open spec fn facade_output() -> Seq<char> {
    "Subsystem A, Operation A1"@ + "\n"@ + "Subsystem A, Operation A2"@ + "\n"@
        + "Subsystem B, Operation B1"@ + "\n"@ + "Subsystem B, Operation B2"@
}

/// Bundles the subsystems behind one entry point.
pub struct Facade {
    subsystem_a: SubsystemA,
    subsystem_b: SubsystemB,
}

impl Facade {
    pub fn new() -> (f: Facade) {
        Facade { subsystem_a: SubsystemA {}, subsystem_b: SubsystemB {} }
    }

    /// Runs the subsystems in order and returns their output, one per line.
    pub fn operation(&self) -> (r: String)
        ensures
            r@ == facade_output(),
    {
        let mut result = String::new();
        result.append(self.subsystem_a.operation_a1().as_str());
        result.append("\n");
        result.append(self.subsystem_a.operation_a2().as_str());
        result.append("\n");
        result.append(self.subsystem_b.operation_b1().as_str());
        result.append("\n");
        result.append(self.subsystem_b.operation_b2().as_str());
        proof {
            assert(result@ =~= facade_output());
        }
        result
    }
}

} // verus!
