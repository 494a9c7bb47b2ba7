//! The scene graph: a store of objects by name, with one root group.

use vstd::prelude::*;
use vstd::pervasive::unreached;
use std::collections::HashMap;
use crate::fault::Fault;
use crate::alpha::Scalar;
use crate::geometry::{Rect, Transform};
use crate::object::Model;
use crate::object::{Color, KindView, Object, ObjectId, ObjectKind, ObjectView, ShapeId, copy_ids};

verus! {

broadcast use vstd::std_specs::hash::group_hash_axioms;

/// A tree of objects. Groups name their children, so an object may be
/// stored before or after the group that holds it, and what is stored need
/// not be reachable from the root.
pub struct ObjectTree {
    root: ObjectId,
    objects: HashMap<ObjectId, Object>,
    parent_map: HashMap<ObjectId, ObjectId>,
    /// Every name in `objects`, and maybe names that have left it.
    ids: Vec<ObjectId>,
    /// Every name in `parent_map`.
    links: Vec<ObjectId>,
}

/// Which part of a model a render item paints.
#[derive(Hash, Eq, PartialEq, Copy, Clone, Debug, Structural)]
pub enum RenderObjectKind {
    Stroke,
    Fill,
}

/// One thing to draw: a shape, resolved into the frame of the root.
#[derive(Eq, PartialEq, Copy, Clone, Debug, Structural)]
pub struct RenderObject {
    pub id: ObjectId,
    pub shape: ShapeId,
    pub color: Color,
    /// The width of the stroke; 0 for a fill.
    pub width: Scalar,
    pub transform: Transform,
    pub kind: RenderObjectKind,
}

/// What an `ObjectTree` holds.
pub struct TreeView {
    pub root: ObjectId,
    pub objects: Map<ObjectId, ObjectView>,
    /// For each child the group it was last put in.
    pub parents: Map<ObjectId, ObjectId>,
}

impl View for ObjectTree {
    type V = TreeView;

    closed spec fn view(&self) -> TreeView {
        TreeView {
            root: self.root,
            objects: self.objects@.map_values(|o: Object| o@),
            parents: self.parent_map@,
        }
    }
}

/// The parent map after the children of an object stored as `id` have been
/// linked to it.
pub open spec fn link_children(
    parents: Map<ObjectId, ObjectId>,
    kind: KindView,
    id: ObjectId,
) -> Map<ObjectId, ObjectId> {
    match kind {
        KindView::Group(c) => Map::new(
            |k: ObjectId| parents.contains_key(k) || c.contains(k),
            |k: ObjectId|
                if c.contains(k) {
                    id
                } else {
                    parents[k]
                },
        ),
        KindView::Model(_) => parents,
    }
}

/// The objects of `mine` together with those of `theirs` other than the one
/// stored as `their_root`; that one is stored as `new_root`, if a name is
/// given for it.
pub open spec fn merged_objects(
    mine: Map<ObjectId, ObjectView>,
    theirs: Map<ObjectId, ObjectView>,
    their_root: ObjectId,
    new_root: Option<ObjectId>,
) -> Map<ObjectId, ObjectView> {
    Map::new(
        |k: ObjectId|
            mine.contains_key(k) || (theirs.contains_key(k) && k != their_root) || (new_root
                == Some(k) && theirs.contains_key(their_root)),
        |k: ObjectId|
            if new_root == Some(k) && theirs.contains_key(their_root) {
                theirs[their_root]
            } else if theirs.contains_key(k) && k != their_root {
                theirs[k]
            } else {
                mine[k]
            },
    )
}

/// `merged_objects` without a new root, restricted to the names in `seen`.
spec fn merged_upto(
    mine: Map<ObjectId, ObjectView>,
    theirs: Map<ObjectId, ObjectView>,
    their_root: ObjectId,
    seen: Seq<ObjectId>,
) -> Map<ObjectId, ObjectView> {
    Map::new(
        |k: ObjectId|
            mine.contains_key(k) || (theirs.contains_key(k) && k != their_root && seen.contains(k)),
        |k: ObjectId|
            if theirs.contains_key(k) && k != their_root && seen.contains(k) {
                theirs[k]
            } else {
                mine[k]
            },
    )
}

/// The merged parent map, restricted to the links of the names in `seen`.
spec fn linked_upto(
    mine: Map<ObjectId, ObjectId>,
    theirs: Map<ObjectId, ObjectId>,
    their_root: ObjectId,
    new_root: ObjectId,
    seen: Seq<ObjectId>,
) -> Map<ObjectId, ObjectId> {
    Map::new(
        |k: ObjectId| mine.contains_key(k) || (theirs.contains_key(k) && seen.contains(k)),
        |k: ObjectId|
            if theirs.contains_key(k) && seen.contains(k) {
                if theirs[k] == their_root {
                    new_root
                } else {
                    theirs[k]
                }
            } else {
                mine[k]
            },
    )
}

/// A prefix that grows by one name holds that name and what it held.
proof fn lemma_prefix_step(s: Seq<ObjectId>, i: int)
    requires
        0 <= i < s.len(),
    ensures
        forall|k: ObjectId|
            #[trigger] s.subrange(0, i + 1).contains(k) <==> s.subrange(0, i).contains(k) || k
                == s[i],
{
    let before = s.subrange(0, i);
    let after = s.subrange(0, i + 1);
    assert(after =~= before.push(s[i]));
    lemma_push_keeps(before, s[i]);
    assert forall|k: ObjectId| after.contains(k) implies before.contains(k) || k == s[i] by {
        let j = choose|j: int| 0 <= j < after.len() && after[j] == k;
        if j < i {
            assert(before[j] == k);
        }
    }
}

impl TreeView {
    /// A tree that holds an empty root group and nothing else.
    pub open spec fn spec_new() -> TreeView {
        TreeView {
            root: 0,
            objects: Map::empty().insert(
                0usize,
                ObjectView {
                    kind: KindView::Group(Seq::empty()),
                    transform: Transform::spec_identity(),
                },
            ),
            parents: Map::empty(),
        }
    }

    /// The tree after `object` has been stored as `id`. Its children are
    /// linked to it; if `rooted`, it becomes the last child of the root
    /// group. Whatever was stored as `id` before is replaced.
    pub open spec fn spec_add(self, id: ObjectId, object: ObjectView, rooted: bool) -> Result<
        TreeView,
        Fault,
    > {
        let linked = link_children(self.parents, object.kind, id);
        if !rooted {
            Ok(TreeView { objects: self.objects.insert(id, object), parents: linked, ..self })
        } else if !self.objects.contains_key(self.root) {
            Err(Fault::MissingObject(self.root))
        } else {
            match self.objects[self.root].kind {
                KindView::Group(c) => Ok(
                    TreeView {
                        objects: self.objects.insert(
                            self.root,
                            ObjectView {
                                kind: KindView::Group(c.push(id)),
                                transform: self.objects[self.root].transform,
                            },
                        ).insert(id, object),
                        parents: linked.insert(id, self.root),
                        ..self
                    },
                ),
                KindView::Model(_) => Err(Fault::RootNotGroup),
            }
        }
    }

    /// The tree after the objects and links of `other` have been taken
    /// over, with the root of `other` stored and referred to as `new_root`.
    /// Where both trees use a name, the object and the link of `other` win,
    /// and the root of `other` wins over all.
    pub open spec fn spec_merge(self, other: TreeView, new_root: ObjectId) -> TreeView {
        TreeView {
            root: self.root,
            objects: merged_objects(self.objects, other.objects, other.root, Some(new_root)),
            parents: Map::new(
                |k: ObjectId| self.parents.contains_key(k) || other.parents.contains_key(k),
                |k: ObjectId|
                    if other.parents.contains_key(k) {
                        if other.parents[k] == other.root {
                            new_root
                        } else {
                            other.parents[k]
                        }
                    } else {
                        self.parents[k]
                    },
            ),
        }
    }

    /// The children of the root group, in order; none where the root is
    /// missing or is a model.
    pub open spec fn spec_rooted(self) -> Seq<ObjectId> {
        if self.objects.contains_key(self.root) {
            match self.objects[self.root].kind {
                KindView::Group(c) => c,
                KindView::Model(_) => Seq::empty(),
            }
        } else {
            Seq::empty()
        }
    }

    /// What a model draws: its fill first, then its stroke.
    pub open spec fn spec_model_items(id: ObjectId, m: Model, t: Transform) -> Seq<RenderObject> {
        let fill = match m.material.fill {
            Some(f) => seq![
                RenderObject {
                    id,
                    shape: m.shape,
                    color: f.color,
                    width: 0,
                    transform: t,
                    kind: RenderObjectKind::Fill,
                },
            ],
            None => Seq::empty(),
        };
        let stroke = match m.material.stroke {
            Some(s) => seq![
                RenderObject {
                    id,
                    shape: m.shape,
                    color: s.color,
                    width: s.width,
                    transform: t,
                    kind: RenderObjectKind::Stroke,
                },
            ],
            None => Seq::empty(),
        };
        fill + stroke
    }

    /// What the object stored as `id` draws inside a frame placed by
    /// `transform`, in drawing order: a group draws its children one after
    /// the other, each in the group's own frame. Groups may be nested
    /// `depth` deep.
    pub open spec fn spec_render_object(
        self,
        id: ObjectId,
        transform: Transform,
        depth: nat,
    ) -> Result<Seq<RenderObject>, Fault>
        decreases depth, 1nat, 0nat,
    {
        if !self.objects.contains_key(id) {
            Err(Fault::MissingObject(id))
        } else {
            let t = transform.spec_and_then(self.objects[id].transform);
            match self.objects[id].kind {
                KindView::Model(m) => {
                    if m.material.fill is None && m.material.stroke is None {
                        Err(Fault::Unpainted(id))
                    } else {
                        Ok(Self::spec_model_items(id, m, t))
                    }
                },
                KindView::Group(c) => self.spec_render_children(c, c.len(), t, depth),
            }
        }
    }

    /// What the first `n` of `children` draw.
    pub open spec fn spec_render_children(
        self,
        children: Seq<ObjectId>,
        n: nat,
        t: Transform,
        depth: nat,
    ) -> Result<Seq<RenderObject>, Fault>
        decreases depth, 0nat, n,
    {
        if n == 0 {
            Ok(Seq::empty())
        } else {
            match self.spec_render_children(children, (n - 1) as nat, t, depth) {
                Err(e) => Err(e),
                Ok(items) => {
                    if depth == 0 {
                        Err(Fault::TooDeep)
                    } else {
                        match self.spec_render_object(children[n - 1], t, (depth - 1) as nat) {
                            Err(e) => Err(e),
                            Ok(more) => Ok(items + more),
                        }
                    }
                },
            }
        }
    }

    /// What the whole tree draws, from the root down.
    pub open spec fn spec_render(self) -> Result<Seq<RenderObject>, Fault> {
        self.spec_render_object(self.root, Transform::spec_identity(), self.objects.len())
    }

    /// The bounds of `object` inside a frame placed by `transform`: those
    /// of a model's placed rectangle, or the union of those of a group's
    /// children. Groups may be nested `depth` deep.
    pub open spec fn spec_bounds(self, object: ObjectView, transform: Transform, depth: nat) -> Result<
        Rect,
        Fault,
    >
        decreases depth, 1nat, 0nat,
    {
        let t = transform.spec_and_then(object.transform);
        match object.kind {
            KindView::Model(m) => Ok(t.spec_map_aabb(m.bounds)),
            KindView::Group(c) => self.spec_bounds_children(c, c.len(), t, depth),
        }
    }

    /// The union of the bounds of the first `n` of `children`.
    pub open spec fn spec_bounds_children(
        self,
        children: Seq<ObjectId>,
        n: nat,
        t: Transform,
        depth: nat,
    ) -> Result<Rect, Fault>
        decreases depth, 0nat, n,
    {
        if n == 0 {
            Ok(Rect::spec_nothing())
        } else {
            match self.spec_bounds_children(children, (n - 1) as nat, t, depth) {
                Err(e) => Err(e),
                Ok(acc) => {
                    if !self.objects.contains_key(children[n - 1]) {
                        Err(Fault::MissingObject(children[n - 1]))
                    } else if depth == 0 {
                        Err(Fault::TooDeep)
                    } else {
                        match self.spec_bounds(
                            self.objects[children[n - 1]],
                            t,
                            (depth - 1) as nat,
                        ) {
                            Err(e) => Err(e),
                            Ok(b) => Ok(acc.spec_union(b)),
                        }
                    }
                },
            }
        }
    }

    /// The bounds of the object stored as `id` in its parent's frame,
    /// whatever its ancestors do to it.
    pub open spec fn spec_local_bounding_box(self, id: ObjectId) -> Result<Rect, Fault> {
        if !self.objects.contains_key(id) {
            Err(Fault::MissingObject(id))
        } else {
            self.spec_bounds(self.objects[id], Transform::spec_identity(), self.objects.len())
        }
    }

    /// The bounds of the object stored as `id` inside a frame placed by
    /// `transform`, and `boxes` with the bounds of that object and of all
    /// below it written into it.
    pub open spec fn spec_boxes(
        self,
        id: ObjectId,
        transform: Transform,
        boxes: Map<ObjectId, Rect>,
        depth: nat,
    ) -> Result<(Rect, Map<ObjectId, Rect>), Fault>
        decreases depth, 1nat, 0nat,
    {
        if !self.objects.contains_key(id) {
            Err(Fault::MissingObject(id))
        } else {
            let t = transform.spec_and_then(self.objects[id].transform);
            match self.objects[id].kind {
                KindView::Model(m) => {
                    let b = t.spec_map_aabb(m.bounds);
                    Ok((b, boxes.insert(id, b)))
                },
                KindView::Group(c) => match self.spec_boxes_children(c, c.len(), t, boxes, depth) {
                    Err(e) => Err(e),
                    Ok((b, filled)) => Ok((b, filled.insert(id, b))),
                },
            }
        }
    }

    /// The union of the bounds of the first `n` of `children`, and `boxes`
    /// with the bounds of those children and of all below them.
    pub open spec fn spec_boxes_children(
        self,
        children: Seq<ObjectId>,
        n: nat,
        t: Transform,
        boxes: Map<ObjectId, Rect>,
        depth: nat,
    ) -> Result<(Rect, Map<ObjectId, Rect>), Fault>
        decreases depth, 0nat, n,
    {
        if n == 0 {
            Ok((Rect::spec_nothing(), boxes))
        } else {
            match self.spec_boxes_children(children, (n - 1) as nat, t, boxes, depth) {
                Err(e) => Err(e),
                Ok((acc, filled)) => {
                    if depth == 0 {
                        Err(Fault::TooDeep)
                    } else {
                        match self.spec_boxes(children[n - 1], t, filled, (depth - 1) as nat) {
                            Err(e) => Err(e),
                            Ok((b, more)) => Ok((acc.spec_union(b), more)),
                        }
                    }
                },
            }
        }
    }

    /// The bounds in the root's frame of every object that the root
    /// reaches.
    pub open spec fn spec_bounding_boxes(self) -> Result<Map<ObjectId, Rect>, Fault> {
        match self.spec_boxes(
            self.root,
            Transform::spec_identity(),
            Map::empty(),
            self.objects.len(),
        ) {
            Err(e) => Err(e),
            Ok((_, boxes)) => Ok(boxes),
        }
    }

    /// The placement of the frame that the object stored as `id` lives in:
    /// the placements of its ancestors, composed from the outermost inwards.
    /// The chain of parents may be `depth` long.
    pub open spec fn spec_flattened_transform(self, id: ObjectId, depth: nat) -> Result<
        Transform,
        Fault,
    >
        decreases depth,
    {
        if !self.parents.contains_key(id) {
            Ok(Transform::spec_identity())
        } else if !self.objects.contains_key(self.parents[id]) {
            Err(Fault::MissingObject(self.parents[id]))
        } else if depth == 0 {
            Err(Fault::TooDeep)
        } else {
            match self.spec_flattened_transform(self.parents[id], (depth - 1) as nat) {
                Err(e) => Err(e),
                Ok(outer) => Ok(outer.spec_and_then(self.objects[self.parents[id]].transform)),
            }
        }
    }

    /// The tree is closed and `rank` falls along it: every child that a
    /// stored group names is stored, and has a lower rank than the group.
    /// In such a tree no chain of children runs in a circle.
    pub open spec fn spec_ranked(self, rank: spec_fn(ObjectId) -> nat) -> bool {
        forall|g: ObjectId, i: int|
            self.objects.contains_key(g) && self.objects[g].kind is Group && 0 <= i
                < self.objects[g].kind->Group_0.len() ==> self.objects.contains_key(
                #[trigger] self.objects[g].kind->Group_0[i],
            ) && rank(self.objects[g].kind->Group_0[i]) < rank(g)
    }

    /// The tree is sound: every child that a stored group names is
    /// stored, and no chain of children runs in a circle.
    pub open spec fn spec_sound(self) -> bool {
        exists|rank: spec_fn(ObjectId) -> nat| self.spec_ranked(rank)
    }

    /// Every stored model has a fill or a stroke, so it can be drawn.
    pub open spec fn spec_painted(self) -> bool {
        forall|id: ObjectId|
            #![trigger self.objects[id]]
            self.objects.contains_key(id) ==> match self.objects[id].kind {
                KindView::Model(m) => m.material.fill is Some || m.material.stroke is Some,
                KindView::Group(_) => true,
            }
    }

    /// Whether `to` is stored and can be reached from `from` by going from
    /// a group to one of its children, `steps` times at most.
    pub open spec fn spec_reaches(self, from: ObjectId, to: ObjectId, steps: nat) -> bool
        decreases steps,
    {
        ||| (from == to && self.objects.contains_key(to))
        ||| (steps > 0 && self.objects.contains_key(from) && match self.objects[from].kind {
            KindView::Group(c) => exists|i: int|
                0 <= i < c.len() && self.spec_reaches(#[trigger] c[i], to, (steps - 1) as nat),
            KindView::Model(_) => false,
        })
    }

    /// Whether the object stored as `id` can be reached from the root.
    pub open spec fn spec_reachable(self, id: ObjectId) -> bool {
        exists|steps: nat| self.spec_reaches(self.root, id, steps)
    }

    /// The placement of the object stored as `id`.
    pub open spec fn spec_transform_of(self, id: ObjectId) -> Result<Transform, Fault> {
        if self.objects.contains_key(id) {
            Ok(self.objects[id].transform)
        } else {
            Err(Fault::MissingObject(id))
        }
    }

    /// The tree with the object stored as `id` placed by `transform`.
    pub open spec fn spec_set_transform(self, id: ObjectId, transform: Transform) -> Result<
        TreeView,
        Fault,
    > {
        if self.objects.contains_key(id) {
            Ok(self.spec_with_transform(id, transform))
        } else {
            Err(Fault::MissingObject(id))
        }
    }

    /// The tree without the object stored as `id`. Links stay as they are.
    pub open spec fn spec_remove(self, id: ObjectId) -> TreeView {
        TreeView { objects: self.objects.remove(id), ..self }
    }

    /// The tree with the object stored as `id` placed by `transform`.
    pub open spec fn spec_with_transform(self, id: ObjectId, transform: Transform) -> TreeView {
        TreeView {
            objects: self.objects.insert(
                id,
                ObjectView { kind: self.objects[id].kind, transform },
            ),
            ..self
        }
    }
}

impl TreeView {
    /// Once a child has failed to draw, the group fails in the same way.
    pub proof fn lemma_render_children_err(
        self,
        children: Seq<ObjectId>,
        i: nat,
        n: nat,
        t: Transform,
        depth: nat,
    )
        requires
            i <= n,
        ensures
            self.spec_render_children(children, i, t, depth) is Err ==> self.spec_render_children(
                children,
                n,
                t,
                depth,
            ) == self.spec_render_children(children, i, t, depth),
        decreases n,
    {
        if i < n {
            self.lemma_render_children_err(children, i, (n - 1) as nat, t, depth);
        }
    }

    /// Once a child has no bounds, the group has none, for the same reason.
    pub proof fn lemma_bounds_children_err(
        self,
        children: Seq<ObjectId>,
        i: nat,
        n: nat,
        t: Transform,
        depth: nat,
    )
        requires
            i <= n,
        ensures
            self.spec_bounds_children(children, i, t, depth) is Err ==> self.spec_bounds_children(
                children,
                n,
                t,
                depth,
            ) == self.spec_bounds_children(children, i, t, depth),
        decreases n,
    {
        if i < n {
            self.lemma_bounds_children_err(children, i, (n - 1) as nat, t, depth);
        }
    }

    /// Once a child has no bounds, the walk fails, for the same reason.
    pub proof fn lemma_boxes_children_err(
        self,
        children: Seq<ObjectId>,
        i: nat,
        n: nat,
        t: Transform,
        boxes: Map<ObjectId, Rect>,
        depth: nat,
    )
        requires
            i <= n,
        ensures
            self.spec_boxes_children(children, i, t, boxes, depth) is Err
                ==> self.spec_boxes_children(children, n, t, boxes, depth)
                == self.spec_boxes_children(children, i, t, boxes, depth),
        decreases n,
    {
        if i < n {
            self.lemma_boxes_children_err(children, i, (n - 1) as nat, t, boxes, depth);
        }
    }
}

impl ObjectTree {
    /// The tree's bookkeeping is consistent. Every tree that this module
    /// hands out is well formed.
    pub closed spec fn wf(&self) -> bool {
        &&& forall|k: ObjectId| self.objects@.contains_key(k) ==> self.ids@.contains(k)
        &&& forall|k: ObjectId| self.parent_map@.contains_key(k) ==> self.links@.contains(k)
    }

    /// A tree that holds an empty root group, named 0.
    pub fn new() -> (t: ObjectTree)
        ensures
            t.wf(),
            t@ == TreeView::spec_new(),
    {
        let mut objects: HashMap<ObjectId, Object> = HashMap::new();
        objects.insert(0, Object::new_group(Vec::new()));
        let mut ids: Vec<ObjectId> = Vec::new();
        ids.push(0);
        assert(ids@[0] == 0);
        let t = ObjectTree { root: 0, objects, parent_map: HashMap::new(), ids, links: Vec::new() };
        assert(t@.objects =~= TreeView::spec_new().objects);
        t
    }

    /// The name of the root group.
    pub fn root(&self) -> (id: ObjectId)
        ensures
            id == self@.root,
    {
        self.root
    }

    /// Whether an object is stored as `id`.
    pub fn contains(&self, id: ObjectId) -> (b: bool)
        ensures
            b == self@.objects.contains_key(id),
    {
        self.objects.contains_key(&id)
    }

    /// The object stored as `id`.
    pub fn get(&self, id: ObjectId) -> (o: Option<&Object>)
        ensures
            match o {
                Some(obj) => self@.objects.contains_key(id) && obj@ == self@.objects[id],
                None => !self@.objects.contains_key(id),
            },
    {
        self.objects.get(&id)
    }

    /// The group that the object stored as `id` was last put in.
    pub fn parent(&self, id: ObjectId) -> (p: Option<ObjectId>)
        ensures
            match p {
                Some(g) => self@.parents.contains_key(id) && g == self@.parents[id],
                None => !self@.parents.contains_key(id),
            },
    {
        match self.parent_map.get(&id) {
            Some(g) => Some(*g),
            None => None,
        }
    }

    /// How many objects the tree holds.
    pub fn len(&self) -> (n: usize)
        ensures
            n == self@.objects.len(),
    {
        proof {
            lemma_map_values_len(self.objects@);
        }
        self.objects.len()
    }

    /// Takes the object stored as `id` out of the tree.
    pub fn remove(&mut self, id: ObjectId) -> (o: Option<Object>)
        requires
            old(self).wf(),
        ensures
            final(self).wf(),
            final(self)@ == old(self)@.spec_remove(id),
            match o {
                Some(obj) => old(self)@.objects.contains_key(id) && obj@ == old(self)@.objects[id],
                None => !old(self)@.objects.contains_key(id),
            },
    {
        let o = self.objects.remove(&id);
        assert(self@.objects =~= old(self)@.spec_remove(id).objects);
        o
    }

    /// Stores `object` as `id`, replacing what was stored there. The
    /// children of a group are linked to it. If `rooted`, the object also
    /// becomes the last child of the root group; where the root is missing or
    /// is a model, nothing is stored.
    pub fn try_add(&mut self, id: ObjectId, object: Object, rooted: bool) -> (r: Result<(), Fault>)
        requires
            old(self).wf(),
        ensures
            final(self).wf(),
            match old(self)@.spec_add(id, object@, rooted) {
                Ok(t) => r is Ok && final(self)@ == t,
                Err(e) => r == Err::<(), Fault>(e) && final(self)@ == old(self)@,
            },
    {
        if rooted {
            match self.objects.get(&self.root) {
                None => {
                    return Err(Fault::MissingObject(self.root));
                },
                Some(o) => {
                    match &o.object_kind {
                        ObjectKind::Model(_) => {
                            return Err(Fault::RootNotGroup);
                        },
                        ObjectKind::Group(_) => {},
                    }
                },
            }
        }
        match &object.object_kind {
            ObjectKind::Group(children) => {
                let mut i: usize = 0;
                assert(self@.parents =~= link_children(
                    old(self)@.parents,
                    KindView::Group(children@.subrange(0, 0)),
                    id,
                ));
                while i < children.len()
                    invariant
                        i <= children.len(),
                        self.wf(),
                        self@.root == old(self)@.root,
                        self@.objects == old(self)@.objects,
                        self@.parents == link_children(
                            old(self)@.parents,
                            KindView::Group(children@.subrange(0, i as int)),
                            id,
                        ),
                    decreases children.len() - i,
                {
                    proof {
                        lemma_link_step(old(self)@.parents, children@, i as int, id);
                    }
                    self.link(children[i], id);
                    i = i + 1;
                }
                assert(children@.subrange(0, i as int) =~= children@);
            },
            ObjectKind::Model(_) => {},
        }
        if rooted {
            let root: ObjectId = self.root;
            match self.objects.remove(&root) {
                Some(root_obj) => {
                    let Object { object_kind, transform } = root_obj;
                    match object_kind {
                        ObjectKind::Group(group) => {
                            let mut group = group;
                            group.push(id);
                            self.link(id, root);
                            self.put(root, Object { object_kind: ObjectKind::Group(group), transform });
                        },
                        ObjectKind::Model(m) => {
                            self.put(root, Object { object_kind: ObjectKind::Model(m), transform });
                        },
                    }
                },
                None => {},
            }
        }
        self.put(id, object);
        proof {
            let want = old(self)@.spec_add(id, object@, rooted)->Ok_0;
            assert(self@.objects =~= want.objects);
            assert(self@.parents =~= want.parents);
        }
        Ok(())
    }

    /// Splices `other` into this tree: takes over its objects and links,
    /// with the root of `other` stored and referred to as `root_id`. Returns
    /// the children of that root, in their order, for the caller to attach.
    pub fn merge(&mut self, other: ObjectTree, root_id: ObjectId) -> (rooted: Vec<ObjectId>)
        requires
            old(self).wf(),
            other.wf(),
        ensures
            final(self).wf(),
            final(self)@ == old(self)@.spec_merge(other@, root_id),
            rooted@ == other@.spec_rooted(),
    {
        self.merge_from(&other, root_id)
    }

    /// A tree that holds what this one holds.
    pub fn duplicate(&self) -> (t: ObjectTree)
        requires
            self.wf(),
        ensures
            t.wf(),
            t@ == self@,
    {
        let mut t = ObjectTree {
            root: self.root,
            objects: HashMap::new(),
            parent_map: HashMap::new(),
            ids: Vec::new(),
            links: Vec::new(),
        };
        let ghost empty = t@;
        assert(empty.objects =~= Map::empty());
        let _ = t.merge_from(self, self.root);
        assert(t@.objects =~= self@.objects);
        assert(t@.parents =~= self@.parents);
        t
    }

    /// Splices a copy of `other` into this tree, as `merge` does.
    pub fn merge_from(&mut self, other: &ObjectTree, root_id: ObjectId) -> (rooted: Vec<ObjectId>)
        requires
            old(self).wf(),
            other.wf(),
        ensures
            final(self).wf(),
            final(self)@ == old(self)@.spec_merge(other@, root_id),
            rooted@ == other@.spec_rooted(),
    {
        let ghost theirs = other@;
        let ghost mine = old(self)@;
        let rooted: Vec<ObjectId> = match other.objects.get(&other.root) {
            Some(o) => {
                match &o.object_kind {
                    ObjectKind::Group(c) => copy_ids(c),
                    ObjectKind::Model(_) => Vec::new(),
                }
            },
            None => Vec::new(),
        };
        let mut i: usize = 0;
        assert(self@.objects =~= merged_upto(
            mine.objects,
            theirs.objects,
            theirs.root,
            other.ids@.subrange(0, 0),
        ));
        while i < other.ids.len()
            invariant
                i <= other.ids.len(),
                self.wf(),
                theirs == other@,
                self@.root == mine.root,
                self@.parents == mine.parents,
                self@.objects == merged_upto(
                    mine.objects,
                    theirs.objects,
                    theirs.root,
                    other.ids@.subrange(0, i as int),
                ),
            decreases other.ids.len() - i,
        {
            let k: ObjectId = other.ids[i];
            proof {
                lemma_prefix_step(other.ids@, i as int);
            }
            if k != other.root {
                match other.objects.get(&k) {
                    Some(o) => {
                        self.put(k, o.duplicate());
                    },
                    None => {},
                }
            }
            i = i + 1;
            assert(self@.objects =~= merged_upto(
                mine.objects,
                theirs.objects,
                theirs.root,
                other.ids@.subrange(0, i as int),
            ));
        }
        assert(other.ids@.subrange(0, i as int) =~= other.ids@);
        match other.objects.get(&other.root) {
            Some(o) => {
                self.put(root_id, o.duplicate());
            },
            None => {},
        }
        assert(self@.objects =~= merged_objects(
            mine.objects,
            theirs.objects,
            theirs.root,
            Some(root_id),
        ));
        let mut j: usize = 0;
        assert(self@.parents =~= linked_upto(
            mine.parents,
            theirs.parents,
            theirs.root,
            root_id,
            other.links@.subrange(0, 0),
        ));
        while j < other.links.len()
            invariant
                j <= other.links.len(),
                self.wf(),
                theirs == other@,
                self@.root == mine.root,
                self@.objects == merged_objects(
                    mine.objects,
                    theirs.objects,
                    theirs.root,
                    Some(root_id),
                ),
                self@.parents == linked_upto(
                    mine.parents,
                    theirs.parents,
                    theirs.root,
                    root_id,
                    other.links@.subrange(0, j as int),
                ),
            decreases other.links.len() - j,
        {
            let c: ObjectId = other.links[j];
            proof {
                lemma_prefix_step(other.links@, j as int);
            }
            match other.parent_map.get(&c) {
                Some(p) => {
                    let target: ObjectId = if *p == other.root {
                        root_id
                    } else {
                        *p
                    };
                    self.link(c, target);
                },
                None => {},
            }
            j = j + 1;
            assert(self@.parents =~= linked_upto(
                mine.parents,
                theirs.parents,
                theirs.root,
                root_id,
                other.links@.subrange(0, j as int),
            ));
        }
        assert(other.links@.subrange(0, j as int) =~= other.links@);
        assert(self@.parents =~= mine.spec_merge(theirs, root_id).parents);
        rooted
    }

    /// Appends to `out` what the object stored as `id` draws inside a frame
    /// placed by `transform`. Groups may be nested `depth` deep.
    #[verifier::loop_isolation(false)]
    pub fn try_render_object(
        &self,
        id: ObjectId,
        transform: Transform,
        depth: usize,
        out: &mut Vec<RenderObject>,
    ) -> (r: Result<(), Fault>)
        ensures
            match self@.spec_render_object(id, transform, depth as nat) {
                Ok(items) => r is Ok && final(out)@ == old(out)@ + items,
                Err(e) => r == Err::<(), Fault>(e),
            },
        decreases depth,
    {
        let ghost start = out@;
        match self.objects.get(&id) {
            None => Err(Fault::MissingObject(id)),
            Some(object) => {
                let t: Transform = transform.and_then(&object.transform);
                match &object.object_kind {
                    ObjectKind::Model(m) => {
                        match (m.material.fill, m.material.stroke) {
                            (None, None) => {
                                return Err(Fault::Unpainted(id));
                            },
                            _ => {},
                        }
                        match m.material.fill {
                            Some(f) => {
                                out.push(
                                    RenderObject {
                                        id,
                                        shape: m.shape,
                                        color: f.color,
                                        width: 0,
                                        transform: t,
                                        kind: RenderObjectKind::Fill,
                                    },
                                );
                            },
                            None => {},
                        }
                        match m.material.stroke {
                            Some(st) => {
                                out.push(
                                    RenderObject {
                                        id,
                                        shape: m.shape,
                                        color: st.color,
                                        width: st.width,
                                        transform: t,
                                        kind: RenderObjectKind::Stroke,
                                    },
                                );
                            },
                            None => {},
                        }
                        assert(out@ =~= start + TreeView::spec_model_items(id, *m, t));
                        Ok(())
                    },
                    ObjectKind::Group(children) => {
                        let mut i: usize = 0;
                        let ghost mut done: Seq<RenderObject> = Seq::empty();
                        assert(out@ =~= start + done);
                        while i < children.len()
                            invariant
                                i <= children.len(),
                                self@.spec_render_children(children@, i as nat, t, depth as nat)
                                    == Ok::<Seq<RenderObject>, Fault>(done),
                                out@ == start + done,
                            decreases children.len() - i,
                        {
                            if depth == 0 {
                                proof {
                                    self@.lemma_render_children_err(
                                        children@,
                                        (i + 1) as nat,
                                        children@.len(),
                                        t,
                                        depth as nat,
                                    );
                                }
                                return Err(Fault::TooDeep);
                            }
                            let ghost before = out@;
                            match self.try_render_object(children[i], t, depth - 1, out) {
                                Err(e) => {
                                    proof {
                                        self@.lemma_render_children_err(
                                            children@,
                                            (i + 1) as nat,
                                            children@.len(),
                                            t,
                                            depth as nat,
                                        );
                                    }
                                    return Err(e);
                                },
                                Ok(()) => {},
                            }
                            proof {
                                let more = self@.spec_render_object(
                                    children@[i as int],
                                    t,
                                    (depth - 1) as nat,
                                )->Ok_0;
                                assert(out@ =~= start + (done + more));
                                done = done + more;
                            }
                            i = i + 1;
                        }
                        Ok(())
                    },
                }
            },
        }
    }

    /// What the whole tree draws, in drawing order: depth first from the
    /// root, later siblings over earlier ones. Each item carries the
    /// placements of all its ancestors, composed.
    pub fn try_render(&self) -> (r: Result<Vec<RenderObject>, Fault>)
        ensures
            match self@.spec_render() {
                Ok(items) => r is Ok && r->Ok_0@ == items,
                Err(e) => r == Err::<Vec<RenderObject>, Fault>(e),
            },
    {
        let mut out: Vec<RenderObject> = Vec::new();
        let depth: usize = self.len();
        match self.try_render_object(self.root, Transform::identity(), depth, &mut out) {
            Err(e) => Err(e),
            Ok(()) => {
                proof {
                    let items = self@.spec_render()->Ok_0;
                    assert(out@ =~= items);
                }
                Ok(out)
            },
        }
    }

    /// The bounds of `object`, which need not be stored, inside a frame
    /// placed by `transform`. Groups may be nested `depth` deep.
    #[verifier::loop_isolation(false)]
    pub fn try_bounding_box_with_transform(
        &self,
        object: &Object,
        transform: Transform,
        depth: usize,
    ) -> (r: Result<Rect, Fault>)
        ensures
            r == self@.spec_bounds(object@, transform, depth as nat),
        decreases depth,
    {
        let t: Transform = transform.and_then(&object.transform);
        match &object.object_kind {
            ObjectKind::Model(m) => Ok(t.map_aabb(m.bounds)),
            ObjectKind::Group(children) => {
                let mut acc: Rect = Rect::nothing();
                let mut i: usize = 0;
                while i < children.len()
                    invariant
                        i <= children.len(),
                        self@.spec_bounds_children(children@, i as nat, t, depth as nat) == Ok::<
                            Rect,
                            Fault,
                        >(acc),
                    decreases children.len() - i,
                {
                    proof {
                        self@.lemma_bounds_children_err(
                            children@,
                            (i + 1) as nat,
                            children@.len(),
                            t,
                            depth as nat,
                        );
                    }
                    match self.objects.get(&children[i]) {
                        None => {
                            return Err(Fault::MissingObject(children[i]));
                        },
                        Some(child) => {
                            if depth == 0 {
                                return Err(Fault::TooDeep);
                            }
                            match self.try_bounding_box_with_transform(child, t, depth - 1) {
                                Err(e) => {
                                    return Err(e);
                                },
                                Ok(b) => {
                                    acc = acc.union(&b);
                                },
                            }
                        },
                    }
                    i = i + 1;
                }
                Ok(acc)
            },
        }
    }

    /// The bounds of `object` in its parent's frame.
    pub fn try_local_bounding_box_obj(&self, object: &Object) -> (r: Result<Rect, Fault>)
        ensures
            r == self@.spec_bounds(object@, Transform::spec_identity(), self@.objects.len()),
    {
        let depth: usize = self.len();
        self.try_bounding_box_with_transform(object, Transform::identity(), depth)
    }

    /// The bounds of the object stored as `id` in its parent's frame,
    /// whatever its ancestors do to it.
    pub fn try_local_bounding_box(&self, id: ObjectId) -> (r: Result<Rect, Fault>)
        ensures
            r == self@.spec_local_bounding_box(id),
    {
        match self.objects.get(&id) {
            None => Err(Fault::MissingObject(id)),
            Some(object) => self.try_local_bounding_box_obj(object),
        }
    }

    /// Writes into `boxes` the bounds of the object stored as `id` and of
    /// all below it, inside a frame placed by `transform`, and returns the
    /// bounds of that object.
    #[verifier::loop_isolation(false)]
    pub fn try_bounding_boxes_dp(
        &self,
        id: ObjectId,
        transform: Transform,
        boxes: &mut HashMap<ObjectId, Rect>,
        depth: usize,
    ) -> (r: Result<Rect, Fault>)
        ensures
            match self@.spec_boxes(id, transform, old(boxes)@, depth as nat) {
                Ok((b, filled)) => r == Ok::<Rect, Fault>(b) && final(boxes)@ == filled,
                Err(e) => r == Err::<Rect, Fault>(e),
            },
        decreases depth,
    {
        let ghost start = boxes@;
        match self.objects.get(&id) {
            None => Err(Fault::MissingObject(id)),
            Some(object) => {
                let t: Transform = transform.and_then(&object.transform);
                match &object.object_kind {
                    ObjectKind::Model(m) => {
                        let b: Rect = t.map_aabb(m.bounds);
                        boxes.insert(id, b);
                        Ok(b)
                    },
                    ObjectKind::Group(children) => {
                        let mut acc: Rect = Rect::nothing();
                        let mut i: usize = 0;
                        while i < children.len()
                            invariant
                                i <= children.len(),
                                self@.spec_boxes_children(
                                    children@,
                                    i as nat,
                                    t,
                                    start,
                                    depth as nat,
                                ) == Ok::<(Rect, Map<ObjectId, Rect>), Fault>((acc, boxes@)),
                            decreases children.len() - i,
                        {
                            proof {
                                self@.lemma_boxes_children_err(
                                    children@,
                                    (i + 1) as nat,
                                    children@.len(),
                                    t,
                                    start,
                                    depth as nat,
                                );
                            }
                            if depth == 0 {
                                return Err(Fault::TooDeep);
                            }
                            match self.try_bounding_boxes_dp(children[i], t, boxes, depth - 1) {
                                Err(e) => {
                                    return Err(e);
                                },
                                Ok(b) => {
                                    acc = acc.union(&b);
                                },
                            }
                            i = i + 1;
                        }
                        boxes.insert(id, acc);
                        Ok(acc)
                    },
                }
            },
        }
    }

    /// The bounds in the root's frame of every object that the root
    /// reaches, found in one walk from the leaves up.
    pub fn try_bounding_boxes(&self) -> (r: Result<HashMap<ObjectId, Rect>, Fault>)
        ensures
            match self@.spec_bounding_boxes() {
                Ok(boxes) => r is Ok && r->Ok_0@ == boxes,
                Err(e) => r is Err && r->Err_0 == e,
            },
    {
        let mut boxes: HashMap<ObjectId, Rect> = HashMap::new();
        let depth: usize = self.len();
        match self.try_bounding_boxes_dp(self.root, Transform::identity(), &mut boxes, depth) {
            Err(e) => Err(e),
            Ok(_) => Ok(boxes),
        }
    }

    /// The placement of the frame that the object stored as `id` lives in:
    /// the placements of its ancestors, composed from the outermost inwards.
    /// The chain of parents may be `depth` long.
    pub fn try_flattened_transform(&self, id: ObjectId, depth: usize) -> (r: Result<Transform, Fault>)
        ensures
            r == self@.spec_flattened_transform(id, depth as nat),
        decreases depth,
    {
        match self.parent_map.get(&id) {
            None => Ok(Transform::identity()),
            Some(parent_id) => {
                match self.objects.get(parent_id) {
                    None => Err(Fault::MissingObject(*parent_id)),
                    Some(parent) => {
                        if depth == 0 {
                            return Err(Fault::TooDeep);
                        }
                        match self.try_flattened_transform(*parent_id, depth - 1) {
                            Err(e) => Err(e),
                            Ok(outer) => Ok(outer.and_then(&parent.transform)),
                        }
                    },
                }
            },
        }
    }

    /// The placement of the object stored as `id`.
    pub fn try_transform_of(&self, id: ObjectId) -> (r: Result<Transform, Fault>)
        ensures
            r == self@.spec_transform_of(id),
    {
        match self.objects.get(&id) {
            None => Err(Fault::MissingObject(id)),
            Some(o) => Ok(o.transform),
        }
    }

    /// Places the object stored as `id` by `transform`. A tree that holds
    /// no such object stays as it is.
    pub fn try_set_transform(&mut self, id: ObjectId, transform: Transform) -> (r: Result<(), Fault>)
        requires
            old(self).wf(),
        ensures
            final(self).wf(),
            match old(self)@.spec_set_transform(id, transform) {
                Ok(t) => r is Ok && final(self)@ == t,
                Err(e) => r == Err::<(), Fault>(e) && final(self)@ == old(self)@,
            },
    {
        match self.objects.remove(&id) {
            None => {
                assert(self@.objects =~= old(self)@.objects);
                Err(Fault::MissingObject(id))
            },
            Some(o) => {
                let mut o = o;
                o.transform = transform;
                assert(self@.objects =~= old(self)@.objects.remove(id));
                self.put(id, o);
                assert(self@.objects =~= old(self)@.spec_with_transform(id, transform).objects);
                Ok(())
            },
        }
    }

    /// Stores `object` as `id`, as `try_add` does. Putting an object under
    /// a root that is missing or is a model is a fault of the caller.
    pub fn add(&mut self, id: ObjectId, object: Object, rooted: bool)
        requires
            old(self).wf(),
            old(self)@.spec_add(id, object@, rooted) is Ok,
        ensures
            final(self).wf(),
            old(self)@.spec_add(id, object@, rooted) == Ok::<TreeView, Fault>(final(self)@),
    {
        match self.try_add(id, object, rooted) {
            Ok(()) => {},
            Err(_) => unreached(),
        }
    }

    /// Appends to `out` what the object stored as `id` draws inside a frame
    /// placed by `transform`, in drawing order. Drawing what is not
    /// stored, or a model without paint, is a fault of the caller.
    pub fn render_object(&self, id: ObjectId, transform: Transform, out: &mut Vec<RenderObject>)
        requires
            self@.spec_render_object(id, transform, self@.objects.len()) is Ok,
        ensures
            self@.spec_render_object(id, transform, self@.objects.len()) matches Ok(items) && final(out)@ == old(out)@ + items,
    {
        let depth: usize = self.len();
        match self.try_render_object(id, transform, depth, out) {
            Ok(()) => {},
            Err(_) => unreached(),
        }
    }

    /// What the whole tree draws, in drawing order: depth first from the
    /// root, later siblings over earlier ones.
    pub fn render(&self) -> (items: Vec<RenderObject>)
        requires
            self@.spec_render() is Ok,
        ensures
            self@.spec_render() == Ok::<Seq<RenderObject>, Fault>(items@),
    {
        match self.try_render() {
            Ok(items) => items,
            Err(_) => unreached(),
        }
    }

    /// The bounds of `object`, which need not be stored, inside a frame
    /// placed by `transform`. A child that is not stored is a fault of the
    /// caller.
    pub fn bounding_box_with_transform(&self, object: &Object, transform: Transform) -> (bb: Rect)
        requires
            self@.spec_bounds(object@, transform, self@.objects.len()) is Ok,
        ensures
            self@.spec_bounds(object@, transform, self@.objects.len()) == Ok::<Rect, Fault>(bb),
    {
        let depth: usize = self.len();
        match self.try_bounding_box_with_transform(object, transform, depth) {
            Ok(bb) => bb,
            Err(_) => unreached(),
        }
    }

    /// The bounds of `object` in its parent's frame.
    pub fn local_bounding_box_obj(&self, object: &Object) -> (bb: Rect)
        requires
            self@.spec_bounds(object@, Transform::spec_identity(), self@.objects.len()) is Ok,
        ensures
            self@.spec_bounds(object@, Transform::spec_identity(), self@.objects.len()) == Ok::<
                Rect,
                Fault,
            >(bb),
    {
        match self.try_local_bounding_box_obj(object) {
            Ok(bb) => bb,
            Err(_) => unreached(),
        }
    }

    /// The bounds of the object stored as `id` in its parent's frame,
    /// whatever its ancestors do to it. Asking for the bounds of what is
    /// not stored is a fault of the caller.
    pub fn local_bounding_box(&self, id: ObjectId) -> (bb: Rect)
        requires
            self@.spec_local_bounding_box(id) is Ok,
        ensures
            self@.spec_local_bounding_box(id) == Ok::<Rect, Fault>(bb),
    {
        match self.try_local_bounding_box(id) {
            Ok(bb) => bb,
            Err(_) => unreached(),
        }
    }

    /// Writes into `boxes` the bounds of the object stored as `id` and of
    /// all below it, inside a frame placed by `transform`, and returns the
    /// bounds of that object. Walking into what is not stored is a fault of
    /// the caller.
    pub fn bounding_boxes_dp(
        &self,
        id: ObjectId,
        transform: Transform,
        boxes: &mut HashMap<ObjectId, Rect>,
    ) -> (bb: Rect)
        requires
            self@.spec_boxes(id, transform, old(boxes)@, self@.objects.len()) is Ok,
        ensures
            self@.spec_boxes(id, transform, old(boxes)@, self@.objects.len()) == Ok::<
                (Rect, Map<ObjectId, Rect>),
                Fault,
            >((bb, final(boxes)@)),
    {
        let depth: usize = self.len();
        match self.try_bounding_boxes_dp(id, transform, boxes, depth) {
            Ok(bb) => bb,
            Err(_) => unreached(),
        }
    }

    /// The bounds in the root's frame of every object that the root
    /// reaches.
    pub fn bounding_boxes(&self) -> (boxes: HashMap<ObjectId, Rect>)
        requires
            self@.spec_bounding_boxes() is Ok,
        ensures
            self@.spec_bounding_boxes() == Ok::<Map<ObjectId, Rect>, Fault>(boxes@),
    {
        match self.try_bounding_boxes() {
            Ok(boxes) => boxes,
            Err(_) => unreached(),
        }
    }

    /// The placement of the frame that the object stored as `id` lives in.
    pub fn flattened_transform(&self, id: ObjectId) -> (t: Transform)
        requires
            self@.spec_flattened_transform(id, self@.objects.len()) is Ok,
        ensures
            self@.spec_flattened_transform(id, self@.objects.len()) == Ok::<Transform, Fault>(t),
    {
        let depth: usize = self.len();
        match self.try_flattened_transform(id, depth) {
            Ok(t) => t,
            Err(_) => unreached(),
        }
    }

    /// The placement of the object stored as `id`.
    pub fn transform_of(&self, id: ObjectId) -> (t: Transform)
        requires
            self@.objects.contains_key(id),
        ensures
            t == self@.objects[id].transform,
    {
        match self.try_transform_of(id) {
            Ok(t) => t,
            Err(_) => unreached(),
        }
    }

    /// Places the object stored as `id` by `transform`.
    pub fn set_transform(&mut self, id: ObjectId, transform: Transform)
        requires
            old(self).wf(),
            old(self)@.objects.contains_key(id),
        ensures
            final(self).wf(),
            final(self)@ == old(self)@.spec_with_transform(id, transform),
    {
        match self.try_set_transform(id, transform) {
            Ok(()) => {},
            Err(_) => unreached(),
        }
    }

    fn put(&mut self, id: ObjectId, object: Object)
        requires
            old(self).wf(),
        ensures
            final(self).wf(),
            final(self)@ == (TreeView {
                objects: old(self)@.objects.insert(id, object@),
                ..old(self)@
            }),
    {
        if !self.objects.contains_key(&id) {
            self.ids.push(id);
            proof {
                lemma_push_keeps(old(self).ids@, id);
            }
        }
        self.objects.insert(id, object);
        assert(self@.objects =~= old(self)@.objects.insert(id, object@));
    }

    fn link(&mut self, child: ObjectId, parent: ObjectId)
        requires
            old(self).wf(),
        ensures
            final(self).wf(),
            final(self)@ == (TreeView {
                parents: old(self)@.parents.insert(child, parent),
                ..old(self)@
            }),
    {
        if !self.parent_map.contains_key(&child) {
            self.links.push(child);
            proof {
                lemma_push_keeps(old(self).links@, child);
            }
        }
        self.parent_map.insert(child, parent);
    }
}

/// Linking one more child is one more entry in the parent map.
proof fn lemma_link_step(
    parents: Map<ObjectId, ObjectId>,
    children: Seq<ObjectId>,
    i: int,
    id: ObjectId,
)
    requires
        0 <= i < children.len(),
    ensures
        link_children(parents, KindView::Group(children.subrange(0, i + 1)), id)
            == link_children(parents, KindView::Group(children.subrange(0, i)), id).insert(
            children[i],
            id,
        ),
{
    let before = children.subrange(0, i);
    let after = children.subrange(0, i + 1);
    assert(after =~= before.push(children[i]));
    lemma_push_keeps(before, children[i]);
    assert forall|k: ObjectId| after.contains(k) implies before.contains(k) || k == children[i] by {
        let j = choose|j: int| 0 <= j < after.len() && after[j] == k;
        if j < i {
            assert(before[j] == k);
        }
    }
    assert(link_children(parents, KindView::Group(after), id) =~= link_children(
        parents,
        KindView::Group(before),
        id,
    ).insert(children[i], id));
}

/// A list that grows by one name holds that name and all it held before.
proof fn lemma_push_keeps(s: Seq<ObjectId>, v: ObjectId)
    ensures
        s.push(v).contains(v),
        forall|k: ObjectId| s.contains(k) ==> #[trigger] s.push(v).contains(k),
{
    assert(s.push(v)[s.len() as int] == v);
    assert forall|k: ObjectId| s.contains(k) implies #[trigger] s.push(v).contains(k) by {
        let j = choose|j: int| 0 <= j < s.len() && s[j] == k;
        assert(s.push(v)[j] == k);
    }
}

/// Taking the view of every value keeps the number of entries.
proof fn lemma_map_values_len(m: Map<ObjectId, Object>)
    requires
        m.dom().finite(),
    ensures
        m.map_values(|o: Object| o@).len() == m.len(),
{
    assert(m.map_values(|o: Object| o@).dom() =~= m.dom());
}

} // verus!
