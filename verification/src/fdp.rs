use vstd::prelude::*;

verus! {

/// A named shape.
pub struct Shape {
    pub name: String,
}

/// Something that makes shapes.
pub trait ShapeFactory {
    fn create_shape(&self) -> Shape;
}

/// Makes circles.
pub struct CircleFactory {}

impl ShapeFactory for CircleFactory {
    fn create_shape(&self) -> (s: Shape)
        ensures
            s.name@ == "Circle"@,
    {
        Shape { name: "Circle".to_owned() }
    }
}

/// Makes squares.
pub struct SquareFactory {}

impl ShapeFactory for SquareFactory {
    fn create_shape(&self) -> (s: Shape)
        ensures
            s.name@ == "Square"@,
    {
        Shape { name: "Square".to_owned() }
    }
}

} // verus!
