//! The factory-method pattern: each factory mints the one shape it is for.

use vstd::prelude::*;

verus! {

/// The closed set of shapes the factories can mint.
#[derive(Clone, Copy, PartialEq, Eq, Structural)]
pub enum Shape {
    Circle,
    Square,
}

/// What drawing a shape announces.
pub open spec fn shape_drawing(s: Shape) -> Seq<char> {
    match s {
        Shape::Circle => "Drawing a Circle"@,
        Shape::Square => "Drawing a Square"@,
    }
}

impl Shape {
    pub fn draw(&self) -> (r: String)
        ensures
            r@ == shape_drawing(*self),
    {
        match self {
            Shape::Circle => "Drawing a Circle".to_owned(),
            Shape::Square => "Drawing a Square".to_owned(),
        }
    }
}

/// A factory mints exactly the shape `produces` names.
pub trait ShapeFactory: Sized {
    /// The shape this factory is for.
    spec fn produces(&self) -> Shape;

    fn create_shape(&self) -> (s: Shape)
        ensures
            s == self.produces(),
    ;
}

pub struct CircleFactory {}

impl ShapeFactory for CircleFactory {
    open spec fn produces(&self) -> Shape {
        Shape::Circle
    }

    fn create_shape(&self) -> (s: Shape) {
        Shape::Circle
    }
}

pub struct SquareFactory {}

impl ShapeFactory for SquareFactory {
    open spec fn produces(&self) -> Shape {
        Shape::Square
    }

    fn create_shape(&self) -> (s: Shape) {
        Shape::Square
    }
}

} // verus!
