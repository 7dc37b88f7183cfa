//! Geometry descriptors: the kind of a shape, its decorations, its drawing
//! order and its colours, packed the way the renderer uploads them.
use vstd::prelude::*;

use crate::misc::color::{pack_be, Hex, Rgba};

verus! {

/// The kinds of shape the renderer draws.
#[derive(Debug, Clone, Copy, PartialEq, Eq, Structural)]
pub enum GeometryType {
    Circle,
    ETriangle,
    Square,
    Pentagon,
    Hexagon,
    Octogon,
    Hexagram,
    StarFive,
    Heart,
    Line,
    Ray,
    Segment,
}

/// One-dimensional shapes.
#[derive(Debug, Clone, Copy, PartialEq, Eq, Structural)]
pub enum Geometry1DType {
    Line,
    Ray,
    Segment,
}

/// Two-dimensional shapes.
#[derive(Debug, Clone, Copy, PartialEq, Eq, Structural)]
pub enum Geometry2DType {
    Circle,
    ETriangle,
    Square,
    Pentagon,
    Hexagon,
    Octogon,
    Hexagram,
    StarFive,
    Heart,
}

/// How the border of a shape is drawn.
#[derive(Debug, Clone, Copy, PartialEq, Eq, Structural)]
pub enum BorderDecoration {
    Blank,
    Solid,
    Dash,
    DynDash,
}

/// How the inside of a shape is drawn.
#[derive(Debug, Clone, Copy, PartialEq, Eq, Structural)]
pub enum InnerDecoration {
    Blank,
    Solid,
    Dither,
    DynDither,
}

/// The byte that stands for each kind of shape: 0 to 8 for the
/// two-dimensional shapes, 20 to 22 for the one-dimensional ones.
pub open spec fn geometry_code(t: GeometryType) -> u8 {
    match t {
        GeometryType::Circle => 0,
        GeometryType::ETriangle => 1,
        GeometryType::Square => 2,
        GeometryType::Pentagon => 3,
        GeometryType::Hexagon => 4,
        GeometryType::Octogon => 5,
        GeometryType::Hexagram => 6,
        GeometryType::StarFive => 7,
        GeometryType::Heart => 8,
        GeometryType::Line => 20,
        GeometryType::Ray => 21,
        GeometryType::Segment => 22,
    }
}

/// Whether `b` stands for a kind of shape.
pub open spec fn is_geometry_code(b: u8) -> bool {
    b <= 8 || 20 <= b <= 22
}

/// The byte that stands for each border decoration, in declaration order.
pub open spec fn border_code(d: BorderDecoration) -> u8 {
    match d {
        BorderDecoration::Blank => 0,
        BorderDecoration::Solid => 1,
        BorderDecoration::Dash => 2,
        BorderDecoration::DynDash => 3,
    }
}

/// The byte that stands for each inner decoration, in declaration order.
pub open spec fn inner_code(d: InnerDecoration) -> u8 {
    match d {
        InnerDecoration::Blank => 0,
        InnerDecoration::Solid => 1,
        InnerDecoration::Dither => 2,
        InnerDecoration::DynDither => 3,
    }
}

/// The one-dimensional shapes as shapes.
pub open spec fn from_1d(t: Geometry1DType) -> GeometryType {
    match t {
        Geometry1DType::Line => GeometryType::Line,
        Geometry1DType::Ray => GeometryType::Ray,
        Geometry1DType::Segment => GeometryType::Segment,
    }
}

/// The two-dimensional shapes as shapes.
pub open spec fn from_2d(t: Geometry2DType) -> GeometryType {
    match t {
        Geometry2DType::Circle => GeometryType::Circle,
        Geometry2DType::ETriangle => GeometryType::ETriangle,
        Geometry2DType::Square => GeometryType::Square,
        Geometry2DType::Pentagon => GeometryType::Pentagon,
        Geometry2DType::Hexagon => GeometryType::Hexagon,
        Geometry2DType::Octogon => GeometryType::Octogon,
        Geometry2DType::Hexagram => GeometryType::Hexagram,
        Geometry2DType::StarFive => GeometryType::StarFive,
        Geometry2DType::Heart => GeometryType::Heart,
    }
}

impl From<Geometry1DType> for GeometryType {
    fn from(t: Geometry1DType) -> (r: GeometryType) {
        match t {
            Geometry1DType::Line => GeometryType::Line,
            Geometry1DType::Ray => GeometryType::Ray,
            Geometry1DType::Segment => GeometryType::Segment,
        }
    }
}

impl vstd::std_specs::convert::FromSpecImpl<Geometry1DType> for GeometryType {
    open spec fn obeys_from_spec() -> bool {
        true
    }

    open spec fn from_spec(t: Geometry1DType) -> GeometryType {
        from_1d(t)
    }
}

impl From<Geometry2DType> for GeometryType {
    fn from(t: Geometry2DType) -> (r: GeometryType) {
        match t {
            Geometry2DType::Circle => GeometryType::Circle,
            Geometry2DType::ETriangle => GeometryType::ETriangle,
            Geometry2DType::Square => GeometryType::Square,
            Geometry2DType::Pentagon => GeometryType::Pentagon,
            Geometry2DType::Hexagon => GeometryType::Hexagon,
            Geometry2DType::Octogon => GeometryType::Octogon,
            Geometry2DType::Hexagram => GeometryType::Hexagram,
            Geometry2DType::StarFive => GeometryType::StarFive,
            Geometry2DType::Heart => GeometryType::Heart,
        }
    }
}

impl vstd::std_specs::convert::FromSpecImpl<Geometry2DType> for GeometryType {
    open spec fn obeys_from_spec() -> bool {
        true
    }

    open spec fn from_spec(t: Geometry2DType) -> GeometryType {
        from_2d(t)
    }
}

impl GeometryType {
    /// The byte that stands for the shape.
    pub(crate) fn code(&self) -> (b: u8)
        ensures
            b == geometry_code(*self),
    {
        match self {
            GeometryType::Circle => 0,
            GeometryType::ETriangle => 1,
            GeometryType::Square => 2,
            GeometryType::Pentagon => 3,
            GeometryType::Hexagon => 4,
            GeometryType::Octogon => 5,
            GeometryType::Hexagram => 6,
            GeometryType::StarFive => 7,
            GeometryType::Heart => 8,
            GeometryType::Line => 20,
            GeometryType::Ray => 21,
            GeometryType::Segment => 22,
        }
    }

    /// The shape a byte stands for.
    pub(crate) fn from_code(b: u8) -> (t: GeometryType)
        requires
            is_geometry_code(b),
        ensures
            geometry_code(t) == b,
    {
        match b {
            0 => GeometryType::Circle,
            1 => GeometryType::ETriangle,
            2 => GeometryType::Square,
            3 => GeometryType::Pentagon,
            4 => GeometryType::Hexagon,
            5 => GeometryType::Octogon,
            6 => GeometryType::Hexagram,
            7 => GeometryType::StarFive,
            8 => GeometryType::Heart,
            20 => GeometryType::Line,
            21 => GeometryType::Ray,
            _ => GeometryType::Segment,
        }
    }
}

impl BorderDecoration {
    pub(crate) fn code(&self) -> (b: u8)
        ensures
            b == border_code(*self),
    {
        match self {
            BorderDecoration::Blank => 0,
            BorderDecoration::Solid => 1,
            BorderDecoration::Dash => 2,
            BorderDecoration::DynDash => 3,
        }
    }

    pub(crate) fn from_code(b: u8) -> (d: BorderDecoration)
        requires
            b < 4,
        ensures
            border_code(d) == b,
    {
        match b {
            0 => BorderDecoration::Blank,
            1 => BorderDecoration::Solid,
            2 => BorderDecoration::Dash,
            _ => BorderDecoration::DynDash,
        }
    }
}

impl InnerDecoration {
    pub(crate) fn code(&self) -> (b: u8)
        ensures
            b == inner_code(*self),
    {
        match self {
            InnerDecoration::Blank => 0,
            InnerDecoration::Solid => 1,
            InnerDecoration::Dither => 2,
            InnerDecoration::DynDither => 3,
        }
    }

    pub(crate) fn from_code(b: u8) -> (d: InnerDecoration)
        requires
            b < 4,
        ensures
            inner_code(d) == b,
    {
        match b {
            0 => InnerDecoration::Blank,
            1 => InnerDecoration::Solid,
            2 => InnerDecoration::Dither,
            _ => InnerDecoration::DynDither,
        }
    }
}

/// The packed descriptor word: bits 0-7 hold the geometry type, bits 8-15
/// the border decoration, bits 16-23 the inner decoration and bits 24-31
/// the drawing order.
pub open spec fn zip_spec(gtype: u8, bdeco: u8, ideco: u8, order: u8) -> int {
    gtype as int + bdeco as int * 0x100 + ideco as int * 0x10000 + order as int * 0x1000000
}

/// The four bytes of a packed word, lowest first.
pub open spec fn unzip_spec(datas: u32) -> (u8, u8, u8, u8) {
    (
        (datas % 0x100) as u8,
        ((datas / 0x100) % 0x100) as u8,
        ((datas / 0x10000) % 0x100) as u8,
        (datas / 0x1000000) as u8,
    )
}

/// Packs the four bytes of a descriptor.
pub(crate) fn zip_u8(gtype: u8, bdeco: u8, ideco: u8, order: u8) -> (d: u32)
    ensures
        d as int == zip_spec(gtype, bdeco, ideco, order),
{
    gtype as u32 + bdeco as u32 * 0x100 + ideco as u32 * 0x10000 + order as u32 * 0x1000000
}

/// The four bytes of a packed descriptor, lowest first.
pub(crate) fn unzip(datas: u32) -> (b: [u8; 4])
    ensures
        (b[0], b[1], b[2], b[3]) == unzip_spec(datas),
{
    [
        (datas % 0x100) as u8,
        ((datas / 0x100) % 0x100) as u8,
        ((datas / 0x10000) % 0x100) as u8,
        (datas / 0x1000000) as u8,
    ]
}

/// Unpacking a packed word gives back the bytes it was packed from.
pub proof fn lemma_unzip_zip(gtype: u8, bdeco: u8, ideco: u8, order: u8)
    ensures
        0 <= zip_spec(gtype, bdeco, ideco, order) <= u32::MAX,
        unzip_spec(zip_spec(gtype, bdeco, ideco, order) as u32) == (gtype, bdeco, ideco, order),
{
    let d = zip_spec(gtype, bdeco, ideco, order);
    let (g, b, i, o) = (gtype as int, bdeco as int, ideco as int, order as int);
    assert(d % 0x100 == g && (d / 0x100) % 0x100 == b && (d / 0x10000) % 0x100 == i && d
        / 0x1000000 == o) by (nonlinear_arith)
        requires
            d == g + b * 0x100 + i * 0x10000 + o * 0x1000000,
            0 <= g < 0x100,
            0 <= b < 0x100,
            0 <= i < 0x100,
            0 <= o < 0x100,
    ;
}

/// Packing the bytes of a word gives back the word.
pub proof fn lemma_zip_unzip(datas: u32)
    ensures
        zip_spec(unzip_spec(datas).0, unzip_spec(datas).1, unzip_spec(datas).2, unzip_spec(datas).3)
            == datas,
{
    let x = datas as int;
    assert(x == x % 0x100 + ((x / 0x100) % 0x100) * 0x100 + ((x / 0x10000) % 0x100) * 0x10000 + (x
        / 0x1000000) * 0x1000000 && x / 0x1000000 < 0x100) by (nonlinear_arith)
        requires
            0 <= x < 0x1_0000_0000,
    ;
}

/// The descriptor fields of a shape: the packed word and the two colours.
pub struct GeometryModel {
    pub datas: u32,
    pub bcolor: u32,
    pub icolor: u32,
}

/// The descriptor of a shape: its kind, decorations and drawing order
/// packed into one word, and its border and inner colours.
#[derive(Debug, Clone, Copy)]
pub struct Geometry {
    datas: u32,
    bcolor: Hex,
    icolor: Hex,
}

impl View for Geometry {
    type V = GeometryModel;

    closed spec fn view(&self) -> GeometryModel {
        GeometryModel { datas: self.datas, bcolor: self.bcolor, icolor: self.icolor }
    }
}

/// Whether a packed word names a kind of shape and two decorations.
pub open spec fn valid_datas(datas: u32) -> bool {
    &&& is_geometry_code(unzip_spec(datas).0)
    &&& unzip_spec(datas).1 < 4
    &&& unzip_spec(datas).2 < 4
}

impl Geometry {
    #[verifier::type_invariant]
    spec fn well_formed(self) -> bool {
        valid_datas(self.datas)
    }

    /// A one-dimensional shape: its inner decoration is none and its inner
    /// colour is transparent black.
    pub fn new_1d(gtype: Geometry1DType, bdeco: BorderDecoration, bcolor: Rgba, order: u8) -> (g:
        Geometry)
        ensures
            g@.datas == zip_spec(geometry_code(from_1d(gtype)), border_code(bdeco), 0, order),
            g@.bcolor == pack_be(bcolor.r, bcolor.g, bcolor.b, bcolor.a),
            g@.icolor == 0,
    {
        let t: GeometryType = GeometryType::from(gtype);
        let datas = zip_u8(t.code(), bdeco.code(), InnerDecoration::Blank.code(), order);
        proof {
            lemma_unzip_zip(geometry_code(t), border_code(bdeco), 0, order);
        }
        Geometry { datas, bcolor: bcolor.to_hex(), icolor: Rgba::default().to_hex() }
    }

    /// A two-dimensional shape.
    pub fn new_2d(
        gtype: Geometry2DType,
        bdeco: BorderDecoration,
        bcolor: Rgba,
        ideco: InnerDecoration,
        icolor: Rgba,
        order: u8,
    ) -> (g: Geometry)
        ensures
            g@.datas == zip_spec(
                geometry_code(from_2d(gtype)),
                border_code(bdeco),
                inner_code(ideco),
                order,
            ),
            g@.bcolor == pack_be(bcolor.r, bcolor.g, bcolor.b, bcolor.a),
            g@.icolor == pack_be(icolor.r, icolor.g, icolor.b, icolor.a),
    {
        let t: GeometryType = GeometryType::from(gtype);
        let datas = zip_u8(t.code(), bdeco.code(), ideco.code(), order);
        proof {
            lemma_unzip_zip(geometry_code(t), border_code(bdeco), inner_code(ideco), order);
        }
        Geometry { datas, bcolor: bcolor.to_hex(), icolor: icolor.to_hex() }
    }

    /// The packed descriptor word, as uploaded to the renderer.
    pub fn datas(&self) -> (d: u32)
        ensures
            d == self@.datas,
    {
        self.datas
    }

    /// The kind of shape.
    pub fn geometry_type(&self) -> (t: GeometryType)
        ensures
            geometry_code(t) == unzip_spec(self@.datas).0,
    {
        proof {
            use_type_invariant(self);
        }
        GeometryType::from_code(unzip(self.datas)[0])
    }

    /// How the border is drawn.
    pub fn border_decoration(&self) -> (d: BorderDecoration)
        ensures
            border_code(d) == unzip_spec(self@.datas).1,
    {
        proof {
            use_type_invariant(self);
        }
        BorderDecoration::from_code(unzip(self.datas)[1])
    }

    /// Changes how the border is drawn; the rest of the word is kept.
    pub fn set_border_decoration(&mut self, bdeco: BorderDecoration)
        ensures
            final(self)@.datas == zip_spec(
                unzip_spec(old(self)@.datas).0,
                border_code(bdeco),
                unzip_spec(old(self)@.datas).2,
                unzip_spec(old(self)@.datas).3,
            ),
            final(self)@.bcolor == old(self)@.bcolor,
            final(self)@.icolor == old(self)@.icolor,
    {
        proof {
            use_type_invariant(&*self);
        }
        let d = unzip(self.datas);
        proof {
            lemma_unzip_zip(d[0], border_code(bdeco), d[2], d[3]);
        }
        self.datas = zip_u8(d[0], bdeco.code(), d[2], d[3]);
    }

    /// How the inside is drawn.
    pub fn inner_decoration(&self) -> (d: InnerDecoration)
        ensures
            inner_code(d) == unzip_spec(self@.datas).2,
    {
        proof {
            use_type_invariant(self);
        }
        InnerDecoration::from_code(unzip(self.datas)[2])
    }

    /// Changes how the inside is drawn; the rest of the word is kept.
    pub fn set_inner_decoration(&mut self, ideco: InnerDecoration)
        ensures
            final(self)@.datas == zip_spec(
                unzip_spec(old(self)@.datas).0,
                unzip_spec(old(self)@.datas).1,
                inner_code(ideco),
                unzip_spec(old(self)@.datas).3,
            ),
            final(self)@.bcolor == old(self)@.bcolor,
            final(self)@.icolor == old(self)@.icolor,
    {
        proof {
            use_type_invariant(&*self);
        }
        let d = unzip(self.datas);
        proof {
            lemma_unzip_zip(d[0], d[1], inner_code(ideco), d[3]);
        }
        self.datas = zip_u8(d[0], d[1], ideco.code(), d[3]);
    }

    /// The drawing order.
    pub fn order(&self) -> (o: u8)
        ensures
            o == unzip_spec(self@.datas).3,
    {
        unzip(self.datas)[3]
    }

    /// Changes the drawing order; the rest of the word is kept.
    pub fn set_order(&mut self, order: u8)
        ensures
            final(self)@.datas == zip_spec(
                unzip_spec(old(self)@.datas).0,
                unzip_spec(old(self)@.datas).1,
                unzip_spec(old(self)@.datas).2,
                order,
            ),
            final(self)@.bcolor == old(self)@.bcolor,
            final(self)@.icolor == old(self)@.icolor,
    {
        proof {
            use_type_invariant(&*self);
        }
        let d = unzip(self.datas);
        proof {
            lemma_unzip_zip(d[0], d[1], d[2], order);
        }
        self.datas = zip_u8(d[0], d[1], d[2], order);
    }

    /// The border colour as `0xRRGGBBAA`.
    pub fn border_color_hex(&self) -> (h: Hex)
        ensures
            h == self@.bcolor,
    {
        self.bcolor
    }

    pub fn set_border_color_hex(&mut self, hex: Hex)
        ensures
            final(self)@ == (GeometryModel { bcolor: hex, ..old(self)@ }),
    {
        proof {
            use_type_invariant(&*self);
        }
        self.bcolor = hex;
    }

    /// The inner colour as `0xRRGGBBAA`.
    pub fn inner_color_hex(&self) -> (h: Hex)
        ensures
            h == self@.icolor,
    {
        self.icolor
    }

    pub fn set_inner_color_hex(&mut self, hex: Hex)
        ensures
            final(self)@ == (GeometryModel { icolor: hex, ..old(self)@ }),
    {
        proof {
            use_type_invariant(&*self);
        }
        self.icolor = hex;
    }

    /// The border colour.
    pub fn border_color_rgba(&self) -> (c: Rgba)
        ensures
            pack_be(c.r, c.g, c.b, c.a) == self@.bcolor,
    {
        let c = Rgba::from_hex(self.bcolor);
        proof {
            crate::misc::color::lemma_pack_unpack(self.bcolor);
        }
        c
    }

    pub fn set_border_color_rgba(&mut self, rgba: &Rgba)
        ensures
            final(self)@.bcolor == pack_be(rgba.r, rgba.g, rgba.b, rgba.a),
            final(self)@.datas == old(self)@.datas,
            final(self)@.icolor == old(self)@.icolor,
    {
        proof {
            use_type_invariant(&*self);
        }
        self.bcolor = rgba.to_hex();
    }

    /// The inner colour.
    pub fn inner_color_rgba(&self) -> (c: Rgba)
        ensures
            pack_be(c.r, c.g, c.b, c.a) == self@.icolor,
    {
        let c = Rgba::from_hex(self.icolor);
        proof {
            crate::misc::color::lemma_pack_unpack(self.icolor);
        }
        c
    }

    pub fn set_inner_color_rgba(&mut self, rgba: &Rgba)
        ensures
            final(self)@.icolor == pack_be(rgba.r, rgba.g, rgba.b, rgba.a),
            final(self)@.datas == old(self)@.datas,
            final(self)@.bcolor == old(self)@.bcolor,
    {
        proof {
            use_type_invariant(&*self);
        }
        self.icolor = rgba.to_hex();
    }
}

/// Each kind of shape is written as the renderer's byte for it: the
/// two-dimensional shapes are numbered from 0 in the order circle,
/// equilateral triangle, square, pentagon, hexagon, octagon, hexagram,
/// five-pointed star, heart; the one-dimensional ones from 20 in the order
/// line, ray, segment. Both decorations are numbered from 0 in the order
/// blank, solid, dashed or dithered, moving dashes or dithers.
pub proof fn lemma_renderer_codes()
    ensures
        geometry_code(from_2d(Geometry2DType::Circle)) == 0,
        geometry_code(from_2d(Geometry2DType::ETriangle)) == 1,
        geometry_code(from_2d(Geometry2DType::Square)) == 2,
        geometry_code(from_2d(Geometry2DType::Pentagon)) == 3,
        geometry_code(from_2d(Geometry2DType::Hexagon)) == 4,
        geometry_code(from_2d(Geometry2DType::Octogon)) == 5,
        geometry_code(from_2d(Geometry2DType::Hexagram)) == 6,
        geometry_code(from_2d(Geometry2DType::StarFive)) == 7,
        geometry_code(from_2d(Geometry2DType::Heart)) == 8,
        geometry_code(from_1d(Geometry1DType::Line)) == 20,
        geometry_code(from_1d(Geometry1DType::Ray)) == 21,
        geometry_code(from_1d(Geometry1DType::Segment)) == 22,
        geometry_code(GeometryType::Circle) == 0,
        geometry_code(GeometryType::ETriangle) == 1,
        geometry_code(GeometryType::Square) == 2,
        geometry_code(GeometryType::Pentagon) == 3,
        geometry_code(GeometryType::Hexagon) == 4,
        geometry_code(GeometryType::Octogon) == 5,
        geometry_code(GeometryType::Hexagram) == 6,
        geometry_code(GeometryType::StarFive) == 7,
        geometry_code(GeometryType::Heart) == 8,
        geometry_code(GeometryType::Line) == 20,
        geometry_code(GeometryType::Ray) == 21,
        geometry_code(GeometryType::Segment) == 22,
        border_code(BorderDecoration::Blank) == 0,
        border_code(BorderDecoration::Solid) == 1,
        border_code(BorderDecoration::Dash) == 2,
        border_code(BorderDecoration::DynDash) == 3,
        inner_code(InnerDecoration::Blank) == 0,
        inner_code(InnerDecoration::Solid) == 1,
        inner_code(InnerDecoration::Dither) == 2,
        inner_code(InnerDecoration::DynDither) == 3,
        forall|t: GeometryType, u: GeometryType| geometry_code(t) == geometry_code(u) ==> t == u,
        forall|t: GeometryType| is_geometry_code(#[trigger] geometry_code(t)),
{
}

/// The descriptor word holds the shape's byte in bits 0-7, the border
/// decoration in bits 8-15, the inner decoration in bits 16-23 and the
/// drawing order in bits 24-31.
pub proof fn lemma_descriptor_bytes(gtype: u8, bdeco: u8, ideco: u8, order: u8)
    ensures
        zip_spec(gtype, bdeco, ideco, order) % 0x100 == gtype,
        (zip_spec(gtype, bdeco, ideco, order) / 0x100) % 0x100 == bdeco,
        (zip_spec(gtype, bdeco, ideco, order) / 0x10000) % 0x100 == ideco,
        zip_spec(gtype, bdeco, ideco, order) / 0x1000000 == order,
{
    let d = zip_spec(gtype, bdeco, ideco, order);
    let (g, b, i, o) = (gtype as int, bdeco as int, ideco as int, order as int);
    assert(d % 0x100 == g && (d / 0x100) % 0x100 == b && (d / 0x10000) % 0x100 == i && d
        / 0x1000000 == o) by (nonlinear_arith)
        requires
            d == g + b * 0x100 + i * 0x10000 + o * 0x1000000,
            0 <= g < 0x100,
            0 <= b < 0x100,
            0 <= i < 0x100,
            0 <= o < 0x100,
    ;
}

} // verus!
