//! The builder pattern: a chainable builder that assembles a house.

use vstd::prelude::*;

verus! {

/// The finished product.
#[derive(PartialEq, Eq, Structural, Clone, Copy)]
pub struct House {
    pub walls: u8,
    pub doors: u8,
    pub windows: u8,
    pub has_garage: bool,
    pub has_swimming_pool: bool,
}

/// Accumulates the parts of a [`House`]; every setter returns the builder
/// with exactly that one field changed.
pub struct HouseBuilder {
    pub walls: u8,
    pub doors: u8,
    pub windows: u8,
    pub has_garage: bool,
    pub has_swimming_pool: bool,
}

impl HouseBuilder {
    /// A builder with every count zero and every flag off.
    pub fn new() -> (b: HouseBuilder)
        ensures
            b == (HouseBuilder { walls: 0, doors: 0, windows: 0, has_garage: false, has_swimming_pool: false }),
    {
        HouseBuilder { walls: 0, doors: 0, windows: 0, has_garage: false, has_swimming_pool: false }
    }

    pub fn walls(self, count: u8) -> (b: HouseBuilder)
        ensures
            b == (HouseBuilder { walls: count, ..self }),
    {
        HouseBuilder { walls: count, ..self }
    }

    pub fn doors(self, count: u8) -> (b: HouseBuilder)
        ensures
            b == (HouseBuilder { doors: count, ..self }),
    {
        HouseBuilder { doors: count, ..self }
    }

    pub fn windows(self, count: u8) -> (b: HouseBuilder)
        ensures
            b == (HouseBuilder { windows: count, ..self }),
    {
        HouseBuilder { windows: count, ..self }
    }

    pub fn garage(self, has_garage: bool) -> (b: HouseBuilder)
        ensures
            b == (HouseBuilder { has_garage, ..self }),
    {
        HouseBuilder { has_garage, ..self }
    }

    pub fn swimming_pool(self, has_swimming_pool: bool) -> (b: HouseBuilder)
        ensures
            b == (HouseBuilder { has_swimming_pool, ..self }),
    {
        HouseBuilder { has_swimming_pool, ..self }
    }

    /// The house with exactly the accumulated parts.
    pub fn build(self) -> (h: House)
        ensures
            h == (House {
                walls: self.walls,
                doors: self.doors,
                windows: self.windows,
                has_garage: self.has_garage,
                has_swimming_pool: self.has_swimming_pool,
            }),
    {
        House {
            walls: self.walls,
            doors: self.doors,
            windows: self.windows,
            has_garage: self.has_garage,
            has_swimming_pool: self.has_swimming_pool,
        }
    }
}

} // verus!
