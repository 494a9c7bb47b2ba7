//! What can go wrong while a scene is evaluated.

use vstd::prelude::*;

verus! {

/// A malformed scene. Evaluation stops at the first fault it meets: a scene
/// that refers to what does not exist is an authoring error, and no attempt
/// is made to carry on past it.
#[derive(Clone, Copy, Debug, PartialEq, Eq, Structural)]
pub enum Fault {
    /// The tree holds no object of this name.
    MissingObject(usize),
    /// The registry holds no motion of this name.
    MissingMotion(usize),
    /// The variable was read before anything was written to it.
    MissingVariable(usize),
    /// An object was to be put under the root, and the root is a model.
    RootNotGroup,
    /// A model with neither fill nor stroke was to be drawn.
    Unpainted(usize),
    /// A motion that takes time was played while a component was being
    /// built: the parts of a component appear at once.
    TimedInComponent,
    /// A component was closed and none was open.
    NoComponent,
    /// Groups or motions are nested deeper than there are of them, so some
    /// chain of references runs in a circle.
    TooDeep,
}

} // verus!
