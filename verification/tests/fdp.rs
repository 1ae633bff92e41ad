use patch_data::fdp::{CircleFactory, ShapeFactory, SquareFactory};

#[test]
fn factories_make_named_shapes() {
    let circle_factory = CircleFactory {};
    let circle = circle_factory.create_shape();
    assert_eq!(circle.name, "Circle");

    let square_factory = SquareFactory {};
    let square = square_factory.create_shape();
    assert_eq!(square.name, "Square");
}
