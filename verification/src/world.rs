//! The state that one evaluation pass works on.

use vstd::prelude::*;
use vstd::pervasive::unreached;
use std::collections::HashMap;
use crate::alpha::Scalar;
use crate::fault::Fault;
use crate::object_tree::{ObjectTree, TreeView};

verus! {

broadcast use vstd::std_specs::hash::group_hash_axioms;

/// Names a numeric slot of a world.
pub type Variable = usize;

/// A tree of objects under construction, the variables that motions read
/// and write, and the size of the surface that the result is meant for. A
/// world lives for one pass over a timeline.
pub struct World {
    pub objects: ObjectTree,
    pub render_size: (Scalar, Scalar),
    pub variables: HashMap<Variable, Scalar>,
}

/// What a `World` holds.
pub struct WorldView {
    pub objects: TreeView,
    pub render_size: (Scalar, Scalar),
    pub variables: Map<Variable, Scalar>,
}

impl View for World {
    type V = WorldView;

    open spec fn view(&self) -> WorldView {
        WorldView {
            objects: self.objects@,
            render_size: self.render_size,
            variables: self.variables@,
        }
    }
}

/// The variables after each of `updates` has been written, in order.
pub open spec fn spec_update_all(
    variables: Map<Variable, Scalar>,
    updates: Seq<(Variable, Scalar)>,
) -> Map<Variable, Scalar>
    decreases updates.len(),
{
    if updates.len() == 0 {
        variables
    } else {
        spec_update_all(variables, updates.drop_last()).insert(
            updates.last().0,
            updates.last().1,
        )
    }
}

impl WorldView {
    /// The value of `variable`.
    pub open spec fn spec_get_variable(self, variable: Variable) -> Result<Scalar, Fault> {
        if self.variables.contains_key(variable) {
            Ok(self.variables[variable])
        } else {
            Err(Fault::MissingVariable(variable))
        }
    }

    /// The world with another tree.
    pub open spec fn with_objects(self, objects: TreeView) -> WorldView {
        WorldView { objects, ..self }
    }
}

impl World {
    /// The tree of the world is well formed.
    pub open spec fn wf(&self) -> bool {
        self.objects.wf()
    }

    /// A world that holds the given tree and variables.
    pub fn new(
        objects: ObjectTree,
        render_size: (Scalar, Scalar),
        variables: HashMap<Variable, Scalar>,
    ) -> (w: World)
        requires
            objects.wf(),
        ensures
            w.wf(),
            w@ == (WorldView { objects: objects@, render_size, variables: variables@ }),
    {
        World { objects, render_size, variables }
    }

    /// Width and height of the surface that the scene is drawn on.
    pub fn render_size(&self) -> (s: (Scalar, Scalar))
        ensures
            s == self@.render_size,
    {
        self.render_size
    }

    /// Writes `value` to `variable`.
    pub fn update_variable(&mut self, variable: Variable, value: Scalar)
        ensures
            final(self)@ == (WorldView {
                variables: old(self)@.variables.insert(variable, value),
                ..old(self)@
            }),
            final(self).objects == old(self).objects,
    {
        self.variables.insert(variable, value);
    }

    /// Writes each of `updates`, in order: of two values for one variable
    /// the later stays.
    pub fn update_variables(&mut self, updates: &Vec<(Variable, Scalar)>)
        ensures
            final(self)@ == (WorldView {
                variables: spec_update_all(old(self)@.variables, updates@),
                ..old(self)@
            }),
            final(self).objects == old(self).objects,
    {
        let mut i: usize = 0;
        assert(updates@.subrange(0, 0) =~= Seq::empty());
        while i < updates.len()
            invariant
                i <= updates.len(),
                self.objects == old(self).objects,
                self.render_size == old(self).render_size,
                self.variables@ == spec_update_all(
                    old(self)@.variables,
                    updates@.subrange(0, i as int),
                ),
            decreases updates.len() - i,
        {
            let (variable, value) = updates[i];
            self.variables.insert(variable, value);
            i = i + 1;
            assert(updates@.subrange(0, i as int).drop_last() =~= updates@.subrange(
                0,
                i as int - 1,
            ));
        }
        assert(updates@.subrange(0, i as int) =~= updates@);
    }

    /// Reads `variable`. Reading a variable that was never written is a
    /// fault of the scene.
    pub fn try_get_variable(&self, variable: Variable) -> (r: Result<Scalar, Fault>)
        ensures
            r == self@.spec_get_variable(variable),
    {
        match self.variables.get(&variable) {
            Some(v) => Ok(*v),
            None => Err(Fault::MissingVariable(variable)),
        }
    }

    /// Reads `variable`. Reading a variable that was never written is a
    /// fault of the scene: there is no value to fall back on.
    pub fn get_variable(&self, variable: Variable) -> (v: Scalar)
        requires
            self@.variables.contains_key(variable),
        ensures
            v == self@.variables[variable],
    {
        match self.try_get_variable(variable) {
            Ok(v) => v,
            Err(_) => unreached(),
        }
    }
}

} // verus!
