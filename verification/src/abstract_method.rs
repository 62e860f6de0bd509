//! The abstract-factory pattern: product families (modern and Victorian
//! furniture) behind common product traits, with a factory per family.

use vstd::prelude::*;

verus! {

/// A chair of some style.
pub trait Chair: Sized {
    /// Whether this chair stands on legs.
    spec fn spec_has_legs(&self) -> bool;

    /// What sitting on this chair announces.
    spec fn sit_message(&self) -> Seq<char>;

    fn has_legs(&self) -> (r: bool)
        ensures
            r == self.spec_has_legs(),
    ;

    fn sit_on(&self) -> (r: String)
        ensures
            r@ == self.sit_message(),
    ;
}

/// A sofa of some style.
pub trait Sofa: Sized {
    /// Whether this sofa stands on legs.
    spec fn spec_has_legs(&self) -> bool;

    /// What lying on this sofa announces.
    spec fn lie_message(&self) -> Seq<char>;

    fn has_legs(&self) -> (r: bool)
        ensures
            r == self.spec_has_legs(),
    ;

    fn lie_on(&self) -> (r: String)
        ensures
            r@ == self.lie_message(),
    ;
}

pub struct ModernChair {}

impl Chair for ModernChair {
    open spec fn spec_has_legs(&self) -> bool {
        true
    }

    open spec fn sit_message(&self) -> Seq<char> {
        "Sitting on a modern chair."@
    }

    fn has_legs(&self) -> (r: bool) {
        true
    }

    fn sit_on(&self) -> (r: String) {
        "Sitting on a modern chair.".to_owned()
    }
}

pub struct ModernSofa {}

impl Sofa for ModernSofa {
    open spec fn spec_has_legs(&self) -> bool {
        true
    }

    open spec fn lie_message(&self) -> Seq<char> {
        "Lying on a modern sofa."@
    }

    fn has_legs(&self) -> (r: bool) {
        true
    }

    fn lie_on(&self) -> (r: String) {
        "Lying on a modern sofa.".to_owned()
    }
}

pub struct VictorianChair {}

impl Chair for VictorianChair {
    open spec fn spec_has_legs(&self) -> bool {
        true
    }

    open spec fn sit_message(&self) -> Seq<char> {
        "Sitting on a Victorian chair."@
    }

    fn has_legs(&self) -> (r: bool) {
        true
    }

    fn sit_on(&self) -> (r: String) {
        "Sitting on a Victorian chair.".to_owned()
    }
}

pub struct VictorianSofa {}

impl Sofa for VictorianSofa {
    open spec fn spec_has_legs(&self) -> bool {
        true
    }

    open spec fn lie_message(&self) -> Seq<char> {
        "Lying on a Victorian sofa."@
    }

    fn has_legs(&self) -> (r: bool) {
        true
    }

    fn lie_on(&self) -> (r: String) {
        "Lying on a Victorian sofa.".to_owned()
    }
}

/// Mints the modern family.
pub struct ModernFurnitureFactory {}

impl ModernFurnitureFactory {
    pub fn create_chair(&self) -> (c: ModernChair) {
        ModernChair {}
    }

    pub fn create_sofa(&self) -> (s: ModernSofa) {
        ModernSofa {}
    }
}

/// Mints the Victorian family.
pub struct VictorianFurnitureFactory {}

impl VictorianFurnitureFactory {
    pub fn create_chair(&self) -> (c: VictorianChair) {
        VictorianChair {}
    }

    pub fn create_sofa(&self) -> (s: VictorianSofa) {
        VictorianSofa {}
    }
}

} // verus!
