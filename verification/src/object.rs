//! The nodes of a scene graph: drawable models and groups of children.

use vstd::prelude::*;
use vstd::std_specs::convert::FromSpecImpl;
use crate::alpha::{Alpha, Scalar};
use crate::geometry::{Rect, Transform};

verus! {

/// Names a node of an object tree.
pub type ObjectId = usize;

/// Names a drawable shape that lives outside this library.
pub type ShapeId = usize;

/// A colour with straight (not premultiplied) alpha.
#[derive(Clone, Copy, Debug, PartialEq, Eq, Structural)]
pub struct Color {
    pub r: u8,
    pub g: u8,
    pub b: u8,
    pub a: u8,
}

/// A colour as a painter wants it: the three colour channels already
/// weighted by the alpha channel.
#[derive(Clone, Copy, Debug, PartialEq, Eq, Structural)]
pub struct Premultiplied {
    pub r: u8,
    pub g: u8,
    pub b: u8,
    pub a: u8,
}

/// `egui::Color32::from_rgba_unmultiplied`, read back with `to_tuple`. The
/// alpha channel comes through as it is. An opaque colour keeps its three
/// channels and a fully transparent one loses them; in between the channels
/// are weighted in a way that is not stated here.
#[verifier::external_body]
fn color32_from_rgba_unmultiplied(r: u8, g: u8, b: u8, a: u8) -> (out: (u8, u8, u8, u8))
    ensures
        out.3 == a,
        a == 255 ==> out == (r, g, b, 255u8),
        a == 0 ==> out == (0u8, 0u8, 0u8, 0u8),
{
    egui::Color32::from_rgba_unmultiplied(r, g, b, a).to_tuple()
}

/// The paint of the inside of a shape.
#[derive(Clone, Copy, Debug, PartialEq, Eq, Structural)]
pub struct FillMaterial {
    pub color: Color,
}

/// The paint of the outline of a shape.
#[derive(Clone, Copy, Debug, PartialEq, Eq, Structural)]
pub struct StrokeMaterial {
    pub color: Color,
    pub width: Scalar,
}

/// How a shape is painted: filled, outlined, or both.
#[derive(Clone, Copy, Debug, PartialEq, Eq, Structural)]
pub struct Material {
    pub fill: Option<FillMaterial>,
    pub stroke: Option<StrokeMaterial>,
}

/// A drawable leaf. The shape itself is opaque here: the tree knows its
/// name, its bounds in its own frame, and how it is painted.
#[derive(Clone, Copy, Debug, PartialEq, Eq, Structural)]
pub struct Model {
    pub shape: ShapeId,
    pub bounds: Rect,
    pub material: Material,
}

/// What a node of the tree is: a shape to draw, or a group of nodes.
#[derive(Debug)]
pub enum ObjectKind {
    Model(Model),
    /// The children, in drawing order.
    Group(Vec<ObjectId>),
}

/// A node of the tree, with its placement in the frame of its parent.
#[derive(Debug)]
pub struct Object {
    pub object_kind: ObjectKind,
    pub transform: Transform,
}

/// What an `ObjectKind` holds.
pub enum KindView {
    Model(Model),
    Group(Seq<ObjectId>),
}

/// What an `Object` holds.
pub struct ObjectView {
    pub kind: KindView,
    pub transform: Transform,
}

impl View for ObjectKind {
    type V = KindView;

    open spec fn view(&self) -> KindView {
        match self {
            ObjectKind::Model(m) => KindView::Model(*m),
            ObjectKind::Group(g) => KindView::Group(g@),
        }
    }
}

impl View for Object {
    type V = ObjectView;

    open spec fn view(&self) -> ObjectView {
        ObjectView { kind: self.object_kind@, transform: self.transform }
    }
}

impl Color {
    /// The colour with its alpha channel scaled by `a`, rounded down.
    pub open spec fn spec_faded(self, a: Alpha) -> Color {
        Color { a: ((self.a * a.num) / (a.den as int)) as u8, ..self }
    }

    /// The colour with the given channels.
    pub fn new(r: u8, g: u8, b: u8, a: u8) -> (c: Color)
        ensures
            c == (Color { r, g, b, a }),
    {
        Color { r, g, b, a }
    }

    /// The colour with premultiplied alpha, as a painter takes it. An
    /// opaque colour keeps its channels; a fully transparent one is all
    /// zero.
    pub fn premultiplied(&self) -> (p: Premultiplied)
        ensures
            p.a == self.a,
            self.a == 255 ==> p == (Premultiplied { r: self.r, g: self.g, b: self.b, a: 255 }),
            self.a == 0 ==> p == (Premultiplied { r: 0, g: 0, b: 0, a: 0 }),
    {
        let (r, g, b, a) = color32_from_rgba_unmultiplied(self.r, self.g, self.b, self.a);
        Premultiplied { r, g, b, a }
    }

    /// Scales the alpha channel by `a` and keeps the three colour channels.
    pub fn faded(&self, a: Alpha) -> (c: Color)
        requires
            a.wf(),
        ensures
            c == self.spec_faded(a),
            c.a <= self.a,
    {
        assert((self.a as int) * (a.num as int) <= 255 * 0xffff_ffff) by (nonlinear_arith)
            requires
                0 <= self.a as int <= 255,
                0 <= a.num as int <= 0xffff_ffff,
        ;
        let wide: u64 = (self.a as u64) * (a.num as u64);
        let q: u64 = wide / (a.den as u64);
        proof {
            vstd::arithmetic::div_mod::lemma_fundamental_div_mod(wide as int, a.den as int);
            let r: int = wide as int % a.den as int;
            assert(q as int <= self.a as int) by (nonlinear_arith)
                requires
                    wide as int == (self.a as int) * (a.num as int),
                    wide as int == (a.den as int) * (q as int) + r,
                    0 <= r < a.den as int,
                    0 <= a.num as int <= a.den as int,
                    0 <= self.a as int,
            ;
        }
        Color { r: self.r, g: self.g, b: self.b, a: q as u8 }
    }
}

impl FillMaterial {
    /// A fill of the given colour.
    pub fn new(color: Color) -> (m: FillMaterial)
        ensures
            m == (FillMaterial { color }),
    {
        FillMaterial { color }
    }
}

impl StrokeMaterial {
    /// A stroke of the given colour and width.
    pub fn new(color: Color, width: Scalar) -> (m: StrokeMaterial)
        ensures
            m == (StrokeMaterial { color, width }),
    {
        StrokeMaterial { color, width }
    }
}

impl Material {
    /// The material with the alpha channel of its fill and of its stroke
    /// scaled by `a`.
    pub open spec fn spec_faded(self, a: Alpha) -> Material {
        Material {
            fill: match self.fill {
                Some(f) => Some(FillMaterial { color: f.color.spec_faded(a) }),
                None => None,
            },
            stroke: match self.stroke {
                Some(s) => Some(StrokeMaterial { color: s.color.spec_faded(a), width: s.width }),
                None => None,
            },
        }
    }

    /// A material that paints nothing.
    pub fn none() -> (m: Material)
        ensures
            m == (Material { fill: None, stroke: None }),
    {
        Material { fill: None, stroke: None }
    }

    /// The material with fill and stroke faded to `a`.
    pub fn faded(&self, a: Alpha) -> (m: Material)
        requires
            a.wf(),
        ensures
            m == self.spec_faded(a),
    {
        let fill: Option<FillMaterial> = match self.fill {
            Some(f) => Some(FillMaterial { color: f.color.faded(a) }),
            None => None,
        };
        let stroke: Option<StrokeMaterial> = match self.stroke {
            Some(s) => Some(StrokeMaterial { color: s.color.faded(a), width: s.width }),
            None => None,
        };
        Material { fill, stroke }
    }
}

impl From<FillMaterial> for Material {
    fn from(fill: FillMaterial) -> (m: Material) {
        Material { fill: Some(fill), stroke: None }
    }
}

impl FromSpecImpl<FillMaterial> for Material {
    open spec fn obeys_from_spec() -> bool {
        true
    }

    open spec fn from_spec(fill: FillMaterial) -> Material {
        Material { fill: Some(fill), stroke: None }
    }
}

impl From<StrokeMaterial> for Material {
    fn from(stroke: StrokeMaterial) -> (m: Material) {
        Material { fill: None, stroke: Some(stroke) }
    }
}

impl FromSpecImpl<StrokeMaterial> for Material {
    open spec fn obeys_from_spec() -> bool {
        true
    }

    open spec fn from_spec(stroke: StrokeMaterial) -> Material {
        Material { fill: None, stroke: Some(stroke) }
    }
}

impl Model {
    /// A model of the named shape.
    pub fn new(shape: ShapeId, bounds: Rect, material: Material) -> (m: Model)
        ensures
            m == (Model { shape, bounds, material }),
    {
        Model { shape, bounds, material }
    }
}

/// Copies a list of object names.
pub fn copy_ids(ids: &Vec<ObjectId>) -> (out: Vec<ObjectId>)
    ensures
        out@ == ids@,
{
    let mut out: Vec<ObjectId> = Vec::new();
    let mut i: usize = 0;
    while i < ids.len()
        invariant
            i <= ids.len(),
            out@ == ids@.subrange(0, i as int),
        decreases ids.len() - i,
    {
        out.push(ids[i]);
        i = i + 1;
        assert(out@ =~= ids@.subrange(0, i as int));
    }
    assert(ids@.subrange(0, ids.len() as int) =~= ids@);
    out
}

impl ObjectKind {
    /// A copy that holds the same model or the same children.
    pub fn duplicate(&self) -> (k: ObjectKind)
        ensures
            k@ == self@,
    {
        match self {
            ObjectKind::Model(m) => ObjectKind::Model(*m),
            ObjectKind::Group(g) => ObjectKind::Group(copy_ids(g)),
        }
    }
}

impl Object {
    /// A model at the identity placement.
    pub fn new_model(shape: ShapeId, bounds: Rect, material: Material) -> (o: Object)
        ensures
            o@ == (ObjectView {
                kind: KindView::Model(Model { shape, bounds, material }),
                transform: Transform::spec_identity(),
            }),
    {
        Object {
            object_kind: ObjectKind::Model(Model { shape, bounds, material }),
            transform: Transform::identity(),
        }
    }

    /// A group of the given children at the identity placement.
    pub fn new_group(group: Vec<ObjectId>) -> (o: Object)
        ensures
            o@ == (ObjectView {
                kind: KindView::Group(group@),
                transform: Transform::spec_identity(),
            }),
    {
        Object { object_kind: ObjectKind::Group(group), transform: Transform::identity() }
    }

    /// The same object at another placement.
    pub fn with_transform(self, transform: Transform) -> (o: Object)
        ensures
            o@ == (ObjectView { kind: self@.kind, transform }),
    {
        let mut o = self;
        o.transform = transform;
        o
    }

    /// A copy that holds the same contents.
    pub fn duplicate(&self) -> (o: Object)
        ensures
            o@ == self@,
    {
        Object { object_kind: self.object_kind.duplicate(), transform: self.transform }
    }
}

} // verus!
