//! Positions and lengths that are read off the world: alignment to another
//! object, and lengths in pixels of the render surface.

use vstd::prelude::*;
use vstd::pervasive::unreached;
use crate::alpha::Scalar;
use crate::fault::Fault;
use crate::geometry::{Point, Rect, fixed_div, fixed_mul, spec_fixed_div, spec_fixed_mul};
use crate::object::ObjectId;
use crate::object_tree::{ObjectTree, TreeView};
use crate::world::{World, WorldView};

verus! {

/// The height of the drawing grid, in fixed-point units: a scene is laid out
/// on a grid nine units high, whatever the size of the surface.
pub const UNIT_GRID_HEIGHT: Scalar = 9_000_000;

/// Which of the vertical lines of the bounds is picked.
#[derive(Clone, Copy, Debug, PartialEq, Eq, Structural)]
pub enum HorizontalAlignment {
    Left,
    Center,
    Right,
}

/// Which of the horizontal lines of the bounds is picked.
#[derive(Clone, Copy, Debug, PartialEq, Eq, Structural)]
pub enum VerticalAlignment {
    Top,
    Center,
    Bottom,
}

/// A point on the bounds of a target object: one of nine, by a horizontal
/// and a vertical choice.
#[derive(Clone, Copy, Debug, PartialEq, Eq, Structural)]
pub struct Alignment {
    pub target: ObjectId,
    pub horizontal: HorizontalAlignment,
    pub vertical: VerticalAlignment,
}

/// A length given in pixels of the render surface.
#[derive(Clone, Copy, Debug, PartialEq, Eq, Structural)]
pub struct Pixels(pub Scalar);

impl Alignment {
    /// The point of `bb` that the alignment picks.
    pub open spec fn spec_pick(self, bb: Rect) -> Point {
        Point {
            x: match self.horizontal {
                HorizontalAlignment::Left => bb.min.x,
                HorizontalAlignment::Center => bb.spec_center().x,
                HorizontalAlignment::Right => bb.max.x,
            },
            y: match self.vertical {
                VerticalAlignment::Top => bb.min.y,
                VerticalAlignment::Center => bb.spec_center().y,
                VerticalAlignment::Bottom => bb.max.y,
            },
        }
    }

    /// The picked point of the target's bounds.
    pub open spec fn spec_get(self, tree: TreeView) -> Result<Point, Fault> {
        match tree.spec_local_bounding_box(self.target) {
            Err(e) => Err(e),
            Ok(bb) => Ok(self.spec_pick(bb)),
        }
    }

    /// Where `source` has to go for its centre to lie on the picked point.
    pub open spec fn spec_position(self, source: ObjectId, tree: TreeView) -> Result<
        Point,
        Fault,
    > {
        match tree.spec_local_bounding_box(source) {
            Err(e) => Err(e),
            Ok(source_bb) => match tree.spec_local_bounding_box(self.target) {
                Err(e) => Err(e),
                Ok(target_bb) => Ok(self.spec_pick(target_bb).spec_minus(source_bb.spec_center())),
            },
        }
    }

    /// The centre of `target`.
    pub fn new(target: ObjectId) -> (a: Alignment)
        ensures
            a == (Alignment {
                target,
                horizontal: HorizontalAlignment::Center,
                vertical: VerticalAlignment::Center,
            }),
    {
        Alignment {
            target,
            horizontal: HorizontalAlignment::Center,
            vertical: VerticalAlignment::Center,
        }
    }

    /// The same, on the left edge.
    pub fn left(self) -> (a: Alignment)
        ensures
            a == (Alignment { horizontal: HorizontalAlignment::Left, ..self }),
    {
        let mut a = self;
        a.horizontal = HorizontalAlignment::Left;
        a
    }

    /// The same, half way between the left and the right edge.
    pub fn center(self) -> (a: Alignment)
        ensures
            a == (Alignment { horizontal: HorizontalAlignment::Center, ..self }),
    {
        let mut a = self;
        a.horizontal = HorizontalAlignment::Center;
        a
    }

    /// The same, on the right edge.
    pub fn right(self) -> (a: Alignment)
        ensures
            a == (Alignment { horizontal: HorizontalAlignment::Right, ..self }),
    {
        let mut a = self;
        a.horizontal = HorizontalAlignment::Right;
        a
    }

    /// The same, on the top edge.
    pub fn top(self) -> (a: Alignment)
        ensures
            a == (Alignment { vertical: VerticalAlignment::Top, ..self }),
    {
        let mut a = self;
        a.vertical = VerticalAlignment::Top;
        a
    }

    /// The same, on the bottom edge.
    pub fn bottom(self) -> (a: Alignment)
        ensures
            a == (Alignment { vertical: VerticalAlignment::Bottom, ..self }),
    {
        let mut a = self;
        a.vertical = VerticalAlignment::Bottom;
        a
    }

    /// The point of a rectangle that the alignment picks.
    pub fn pick(&self, bb: &Rect) -> (p: Point)
        ensures
            p == self.spec_pick(*bb),
    {
        let x: Scalar = match self.horizontal {
            HorizontalAlignment::Left => bb.left(),
            HorizontalAlignment::Center => bb.center().x,
            HorizontalAlignment::Right => bb.right(),
        };
        let y: Scalar = match self.vertical {
            VerticalAlignment::Top => bb.top(),
            VerticalAlignment::Center => bb.center().y,
            VerticalAlignment::Bottom => bb.bottom(),
        };
        Point { x, y }
    }

    /// The picked point of the target's bounds, as the world stands.
    pub fn try_get(&self, world: &World) -> (r: Result<Point, Fault>)
        ensures
            r == self.spec_get(world@.objects),
    {
        match world.objects.try_local_bounding_box(self.target) {
            Err(e) => Err(e),
            Ok(bb) => Ok(self.pick(&bb)),
        }
    }

    /// Where `source` has to go for its centre to lie on the picked point
    /// of the target's bounds.
    pub fn try_position(&self, source: ObjectId, tree: &ObjectTree) -> (r: Result<Point, Fault>)
        ensures
            r == self.spec_position(source, tree@),
    {
        match tree.try_local_bounding_box(source) {
            Err(e) => Err(e),
            Ok(source_bb) => match tree.try_local_bounding_box(self.target) {
                Err(e) => Err(e),
                Ok(target_bb) => Ok(self.pick(&target_bb).minus(&source_bb.center())),
            },
        }
    }
}

impl Alignment {
    /// The picked point of the target's bounds, as the world stands.
    /// Aligning to a target that is not stored is a fault of the scene.
    pub fn get(&self, world: &World) -> (p: Point)
        requires
            self.spec_get(world@.objects) is Ok,
        ensures
            self.spec_get(world@.objects) == Ok::<Point, Fault>(p),
    {
        match self.try_get(world) {
            Ok(p) => p,
            Err(_) => unreached(),
        }
    }

    /// Where `source` has to go for its centre to lie on the picked point
    /// of the target's bounds.
    pub fn position(&self, source: ObjectId, tree: &ObjectTree) -> (p: Point)
        requires
            self.spec_position(source, tree@) is Ok,
        ensures
            self.spec_position(source, tree@) == Ok::<Point, Fault>(p),
    {
        match self.try_position(source, tree) {
            Ok(p) => p,
            Err(_) => unreached(),
        }
    }
}

impl Pixels {
    /// The length in grid units, on a surface of the given size.
    pub open spec fn spec_get(self, w: WorldView) -> Scalar {
        spec_fixed_mul(
            self.0 as int,
            spec_fixed_div(w.render_size.1 as int, UNIT_GRID_HEIGHT as int) as int,
        )
    }

    /// The length in grid units on the world's render surface.
    pub fn get(&self, world: &World) -> (v: Scalar)
        ensures
            v == self.spec_get(world@),
    {
        fixed_mul(self.0, fixed_div(world.render_size.1, UNIT_GRID_HEIGHT))
    }
}

} // verus!
