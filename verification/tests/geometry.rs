use std::mem::{align_of, size_of};
use yamengine::components::geometry::{
    BorderDecoration, Geometry, Geometry1DType, Geometry2DType, GeometryType, InnerDecoration,
};
use yamengine::misc::color::Rgba;

#[test]
fn descriptor_word_layout() {
    let g = Geometry::new_2d(
        Geometry2DType::Square,
        BorderDecoration::Solid,
        Rgba::new(0x11, 0x22, 0x33, 0x44),
        InnerDecoration::Dither,
        Rgba::new(0xaa, 0xbb, 0xcc, 0xdd),
        5,
    );
    // Type in the lowest byte, then border, inner decoration and order.
    assert_eq!(g.datas(), 0x0502_0102);
    assert_eq!(g.border_color_hex(), 0x1122_3344);
    assert_eq!(g.inner_color_hex(), 0xaabb_ccdd);
}

#[test]
fn one_dimensional_shapes_have_no_inside() {
    let g = Geometry::new_1d(
        Geometry1DType::Segment,
        BorderDecoration::DynDash,
        Rgba::new(1, 2, 3, 4),
        200,
    );
    assert_eq!(g.geometry_type(), GeometryType::Segment);
    assert_eq!(g.border_decoration(), BorderDecoration::DynDash);
    assert_eq!(g.inner_decoration(), InnerDecoration::Blank);
    assert_eq!(g.inner_color_rgba(), Rgba::default());
    assert_eq!(g.order(), 200);
    assert_eq!(g.datas(), 0xc800_0316);
}

#[test]
fn setters_change_only_their_field() {
    let mut g = Geometry::new_2d(
        Geometry2DType::Heart,
        BorderDecoration::Blank,
        Rgba::new(0, 0, 0, 255),
        InnerDecoration::Solid,
        Rgba::new(255, 0, 0, 255),
        1,
    );
    g.set_order(9);
    g.set_border_decoration(BorderDecoration::Dash);
    g.set_inner_decoration(InnerDecoration::DynDither);
    assert_eq!(g.geometry_type(), GeometryType::Heart);
    assert_eq!(g.order(), 9);
    assert_eq!(g.border_decoration(), BorderDecoration::Dash);
    assert_eq!(g.inner_decoration(), InnerDecoration::DynDither);
    assert_eq!(g.datas(), 0x0903_0208);
    g.set_border_color_rgba(&Rgba::new(9, 8, 7, 6));
    assert_eq!(g.border_color_hex(), 0x0908_0706);
    g.set_inner_color_hex(0x0102_0304);
    assert_eq!(g.inner_color_rgba(), Rgba::new(1, 2, 3, 4));
    assert_eq!(g.border_color_rgba(), Rgba::new(9, 8, 7, 6));
}

#[test]
fn shape_kinds_convert() {
    assert_eq!(GeometryType::from(Geometry1DType::Line), GeometryType::Line);
    assert_eq!(GeometryType::from(Geometry1DType::Ray), GeometryType::Ray);
    assert_eq!(GeometryType::from(Geometry2DType::Circle), GeometryType::Circle);
    assert_eq!(GeometryType::from(Geometry2DType::StarFive), GeometryType::StarFive);
}

#[test]
fn every_shape_reads_back() {
    let shapes = [
        Geometry2DType::Circle,
        Geometry2DType::ETriangle,
        Geometry2DType::Square,
        Geometry2DType::Pentagon,
        Geometry2DType::Hexagon,
        Geometry2DType::Octogon,
        Geometry2DType::Hexagram,
        Geometry2DType::StarFive,
        Geometry2DType::Heart,
    ];
    for &s in shapes.iter() {
        let g = Geometry::new_2d(
            s,
            BorderDecoration::Solid,
            Rgba::default(),
            InnerDecoration::Solid,
            Rgba::default(),
            0,
        );
        assert_eq!(g.geometry_type(), GeometryType::from(s));
    }
}

#[test]
fn test_type_layout() {
    assert_eq!(align_of::<GeometryType>(), 1);
    assert_eq!(size_of::<GeometryType>(), 1);

    assert_eq!(align_of::<InnerDecoration>(), 1);
    assert_eq!(size_of::<InnerDecoration>(), 1);

    assert_eq!(align_of::<BorderDecoration>(), 1);
    assert_eq!(size_of::<BorderDecoration>(), 1);
}
