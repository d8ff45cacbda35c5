//! A median-split tree over bounded objects, for nearest-hit queries.

use vstd::prelude::*;
use vstd::seq_lib::to_multiset_build;
use crate::bounds::{ray_meets_box, Bounds};
use crate::hit::Hit;
use crate::median::{ints_of, lemma_median_is_element, median, median_spec};
use crate::pyramid::Pyramid;
use crate::ray::Ray;
use crate::scalar::Scalar;
use crate::vector3::{Axis, Vector3};

verus! {

/// An object with an axis-aligned box around it.
pub trait Bounded {
    spec fn bounds_spec(&self) -> Bounds;

    fn get_bounds(&self) -> (b: Bounds)
        ensures
            b == self.bounds_spec(),
    ;
}

/// An object with a representative point, by which the tree sorts it.
pub trait Pivotable {
    spec fn pivot_spec(&self) -> Vector3;

    fn get_pivot(&self) -> (p: Vector3)
        ensures
            p == self.pivot_spec(),
    ;

    fn get_pivot_component(&self, axis: &Axis) -> (c: Scalar)
        ensures
            c == self.pivot_spec().spec_component(*axis),
    ;
}

/// An object that a ray can hit.
pub trait Intersectable {
    spec fn hit_spec(&self, ray: Ray) -> Option<Hit>;

    fn ray_intersects(&self, ray: &Ray) -> (h: Option<Hit>)
        ensures
            h == self.hit_spec(*ray),
    ;
}

/// What the tree asks of its objects.
pub trait NodeObject: Bounded + Pivotable + Intersectable + Copy {
    /// A ray that hits the object passes through the object's box. The tree
    /// relies on this when it skips the objects of a box that a ray misses.
    proof fn lemma_hit_in_bounds(&self, ray: Ray)
        requires
            self.hit_spec(ray) is Some,
        ensures
            ray_meets_box(self.bounds_spec(), ray),
    ;
}

} // verus!

verus! {

/// A node of the tree: the objects whose pivot lies on the splitting plane,
/// and the subtrees of the objects on either side of it.
pub struct Node<T: NodeObject> {
    pub left: Option<Box<Node<T>>>,
    pub right: Option<Box<Node<T>>>,
    pub contents: Vec<T>,
    pub axis: Axis,
    pub pivot: Scalar,
    pub bounds: Bounds,
    pub depth: u32,
}

/// What a node is, as a mathematical value.
pub struct NodeModel<T> {
    pub left: Option<Box<NodeModel<T>>>,
    pub right: Option<Box<NodeModel<T>>>,
    pub contents: Seq<T>,
    pub axis: Axis,
    pub pivot: Scalar,
    pub bounds: Bounds,
}

impl<T: NodeObject> Node<T> {
    /// The node as a mathematical value.
    pub open spec fn model(self) -> NodeModel<T>
        decreases self,
    {
        NodeModel {
            left: match self.left {
                Some(l) => Some(Box::new(l.model())),
                None => None,
            },
            right: match self.right {
                Some(r) => Some(Box::new(r.model())),
                None => None,
            },
            contents: self.contents@,
            axis: self.axis,
            pivot: self.pivot,
            bounds: self.bounds,
        }
    }
}

/// The hits of a ray on a list of objects, in the order of the list.
pub open spec fn hits_of<T: NodeObject>(objects: Seq<T>, ray: Ray) -> Seq<Hit>
    decreases objects.len(),
{
    if objects.len() == 0 {
        Seq::empty()
    } else {
        let before = hits_of(objects.drop_last(), ray);
        match objects.last().hit_spec(ray) {
            Some(h) => before.push(h),
            None => before,
        }
    }
}

/// The first among the hits at the least distance, if there is any hit.
pub open spec fn nearest(hits: Seq<Hit>) -> Option<Hit>
    decreases hits.len(),
{
    if hits.len() == 0 {
        None
    } else {
        match nearest(hits.drop_last()) {
            None => Some(hits.last()),
            Some(best) => if hits.last().distance@ < best.distance@ {
                Some(hits.last())
            } else {
                Some(best)
            },
        }
    }
}

/// The box `start` widened to take in the boxes of all the objects.
pub open spec fn merge_all<T: NodeObject>(start: Bounds, objects: Seq<T>) -> Bounds
    decreases objects.len(),
{
    if objects.len() == 0 {
        start
    } else {
        merge_all(start, objects.drop_last()).spec_merge(objects.last().bounds_spec())
    }
}

/// The smallest box around all the objects of a list that is not empty.
pub open spec fn cover<T: NodeObject>(objects: Seq<T>) -> Bounds {
    merge_all(objects[0].bounds_spec(), objects)
}

/// The pivot coordinates of the objects along one axis.
pub open spec fn pivot_values<T: NodeObject>(objects: Seq<T>, axis: Axis) -> Seq<int> {
    objects.map_values(|o: T| o.pivot_spec().spec_component(axis)@)
}

/// The test for an object's side of the splitting plane: below it for a
/// negative `side`, above it for a positive one, on it for zero.
pub open spec fn on_side<T: NodeObject>(axis: Axis, pivot: Scalar, side: int) -> spec_fn(T) -> bool {
    |o: T|
        {
            let c = o.pivot_spec().spec_component(axis)@;
            if side < 0 {
                c < pivot@
            } else if side > 0 {
                c > pivot@
            } else {
                c == pivot@
            }
        }
}

/// The test for an object's pivot to lie in a pyramid.
pub open spec fn pivot_within<T: NodeObject>(pyramid: Pyramid) -> spec_fn(T) -> bool {
    |o: T| pyramid.spec_contains_point(o.pivot_spec())
}

/// The box has an extent of more than one millionth along the axis.
pub open spec fn has_extent(bounds: Bounds, axis: Axis) -> bool {
    bounds.spec_limits(axis).max@ - bounds.spec_limits(axis).min@ > 1
}

/// The axis to split on: the suggested one if the box has an extent along
/// it, else the first of the following two that has, else the suggested one.
pub open spec fn split_axis(bounds: Bounds, axis: Axis) -> Axis {
    if has_extent(bounds, axis) {
        axis
    } else if has_extent(bounds, axis.spec_next()) {
        axis.spec_next()
    } else if has_extent(bounds, axis.spec_next().spec_next()) {
        axis.spec_next().spec_next()
    } else {
        axis
    }
}

impl<T: NodeObject> NodeModel<T> {
    /// The node without objects or children.
    pub open spec fn empty() -> NodeModel<T> {
        NodeModel {
            left: None,
            right: None,
            contents: Seq::empty(),
            axis: Axis::X,
            pivot: Scalar::of(0),
            bounds: Bounds {
                x: crate::limits::Limits { min: Scalar::of(0), max: Scalar::of(0) },
                y: crate::limits::Limits { min: Scalar::of(0), max: Scalar::of(0) },
                z: crate::limits::Limits { min: Scalar::of(0), max: Scalar::of(0) },
            },
        }
    }

    /// All objects of the subtree: this node's, then the left subtree's, then the right one's.
    pub open spec fn objects(self) -> Seq<T>
        decreases self,
    {
        self.contents + (match self.left {
            Some(l) => l.objects(),
            None => Seq::empty(),
        }) + (match self.right {
            Some(r) => r.objects(),
            None => Seq::empty(),
        })
    }

    /// The hits that a traversal collects: nothing where the ray misses the
    /// node's box, else the hits on the node's own objects, then those of
    /// the left subtree, then those of the right one.
    pub open spec fn cast(self, ray: Ray) -> Seq<Hit>
        decreases self,
    {
        if ray_meets_box(self.bounds, ray) {
            hits_of(self.contents, ray) + (match self.left {
                Some(l) => l.cast(ray),
                None => Seq::empty(),
            }) + (match self.right {
                Some(r) => r.cast(ray),
                None => Seq::empty(),
            })
        } else {
            Seq::empty()
        }
    }

    /// The objects that a query for a pyramid collects: nothing where the
    /// pyramid misses the node's box, else those of the node's own objects
    /// whose pivot lies in the pyramid, then those of the left subtree, then
    /// those of the right one.
    pub open spec fn fetch(self, pyramid: Pyramid) -> Seq<T>
        decreases self,
    {
        if pyramid.spec_intersects_bounds(self.bounds) {
            self.contents.filter(pivot_within(pyramid)) + (match self.left {
                Some(l) => l.fetch(pyramid),
                None => Seq::empty(),
            }) + (match self.right {
                Some(r) => r.fetch(pyramid),
                None => Seq::empty(),
            })
        } else {
            Seq::empty()
        }
    }

    /// In every node of the subtree, the node's box covers the boxes of all
    /// objects below it.
    pub open spec fn covered(self) -> bool
        decreases self,
    {
        &&& forall|i: int|
            0 <= i < self.objects().len() ==> self.bounds.covers(
                #[trigger] self.objects()[i].bounds_spec(),
            )
        &&& match self.left {
            Some(l) => l.covered(),
            None => true,
        }
        &&& match self.right {
            Some(r) => r.covered(),
            None => true,
        }
    }

    /// How many nodes the subtree has.
    pub open spec fn count(self) -> nat
        decreases self,
    {
        1 + (match self.left {
            Some(l) => l.count(),
            None => 0,
        }) + (match self.right {
            Some(r) => r.count(),
            None => 0,
        })
    }

    /// How many nodes lie on the longest way down from this node.
    pub open spec fn height(self) -> nat
        decreases self,
    {
        let l: nat = match self.left {
            Some(l) => l.height() + 1,
            None => 0,
        };
        let r: nat = match self.right {
            Some(r) => r.height() + 1,
            None => 0,
        };
        if l >= r && l >= 1 {
            l
        } else if r >= 1 {
            r
        } else {
            1
        }
    }
}

/// The tree that `generate` builds of a list of objects.
///
/// No objects give the empty node. At most `page_size` objects give a leaf
/// that holds them all. More are split at the median of their pivots along
/// the splitting axis: the objects below the median form the left subtree,
/// those above it the right one, and those at the median stay in the node.
/// The subtrees are built in the same way, with the splitting axis as their
/// suggested axis.
pub open spec fn spec_generate<T: NodeObject>(objects: Seq<T>, axis: Axis, page_size: nat)
    -> NodeModel<T>
    decreases objects.len(),
{
    if objects.len() == 0 {
        NodeModel::empty()
    } else {
        let bounds = cover(objects);
        if objects.len() <= page_size {
            NodeModel { left: None, right: None, contents: objects, axis, pivot: Scalar::of(0), bounds }
        } else {
            let split = split_axis(bounds, axis);
            let pivot = Scalar::of(crate::median::median_spec(pivot_values(objects, split)));
            let less = objects.filter(on_side(split, pivot, -1));
            let more = objects.filter(on_side(split, pivot, 1));
            NodeModel {
                left: if 0 < less.len() < objects.len() {
                    Some(Box::new(spec_generate(less, split, page_size)))
                } else {
                    None
                },
                right: if 0 < more.len() < objects.len() {
                    Some(Box::new(spec_generate(more, split, page_size)))
                } else {
                    None
                },
                contents: objects.filter(on_side(split, pivot, 0)),
                axis: split,
                pivot,
                bounds,
            }
        }
    }
}

} // verus!

verus! {

/// The three sides of a splitting plane take every object exactly once.
pub proof fn lemma_partition<T: NodeObject>(objects: Seq<T>, axis: Axis, pivot: Scalar)
    ensures
        objects.filter(on_side(axis, pivot, -1)).len() + objects.filter(
            on_side(axis, pivot, 0),
        ).len() + objects.filter(on_side(axis, pivot, 1)).len() == objects.len(),
        objects.to_multiset() =~= objects.filter(on_side(axis, pivot, 0)).to_multiset().add(
            objects.filter(on_side(axis, pivot, -1)).to_multiset(),
        ).add(objects.filter(on_side(axis, pivot, 1)).to_multiset()),
    decreases objects.len(),
{
    broadcast use vstd::multiset::group_multiset_axioms;

    let less = on_side::<T>(axis, pivot, -1);
    let same = on_side::<T>(axis, pivot, 0);
    let more = on_side::<T>(axis, pivot, 1);
    if objects.len() == 0 {
        reveal(Seq::filter);
        assert(objects.filter(less) =~= objects);
        assert(objects.filter(same) =~= objects);
        assert(objects.filter(more) =~= objects);
        objects.to_multiset_ensures();
        assert(objects.to_multiset().len() == 0);
        assert(objects.to_multiset() =~= objects.to_multiset().add(objects.to_multiset()).add(
            objects.to_multiset(),
        ));
    } else {
        let rest = objects.drop_last();
        let o = objects.last();
        lemma_partition(rest, axis, pivot);
        assert(objects =~= rest.push(o));
        rest.lemma_filter_push(o, less);
        rest.lemma_filter_push(o, same);
        rest.lemma_filter_push(o, more);
        to_multiset_build(rest, o);
        let l = rest.filter(less).to_multiset();
        let s = rest.filter(same).to_multiset();
        let m = rest.filter(more).to_multiset();
        assert(rest.to_multiset() =~= s.add(l).add(m));
        if same(o) {
            to_multiset_build(rest.filter(same), o);
            assert(s.add(l).add(m).insert(o) =~= s.insert(o).add(l).add(m));
        } else if less(o) {
            to_multiset_build(rest.filter(less), o);
            assert(s.add(l).add(m).insert(o) =~= s.add(l.insert(o)).add(m));
        } else {
            assert(more(o));
            to_multiset_build(rest.filter(more), o);
            assert(s.add(l).add(m).insert(o) =~= s.add(l).add(m.insert(o)));
        }
    }
}

/// Splitting at a pivot that is the coordinate of one of the objects leaves
/// fewer objects on either side than there were.
pub proof fn lemma_sides_are_smaller<T: NodeObject>(objects: Seq<T>, axis: Axis, pivot: Scalar)
    requires
        pivot_values(objects, axis).contains(pivot@),
    ensures
        objects.filter(on_side(axis, pivot, 0)).len() > 0,
        objects.filter(on_side(axis, pivot, -1)).len() < objects.len(),
        objects.filter(on_side(axis, pivot, 1)).len() < objects.len(),
{
    lemma_partition(objects, axis, pivot);
    let values = pivot_values(objects, axis);
    let i = choose|i: int| 0 <= i < values.len() && values[i] == pivot@;
    assert(on_side::<T>(axis, pivot, 0)(objects[i]));
    objects.lemma_filter_contains(on_side(axis, pivot, 0), i);
}

/// A box widened by the boxes of some objects covers where it started and each of them.
pub proof fn lemma_merge_all_covers<T: NodeObject>(start: Bounds, objects: Seq<T>)
    ensures
        merge_all(start, objects).covers(start),
        forall|i: int|
            0 <= i < objects.len() ==> merge_all(start, objects).covers(
                #[trigger] objects[i].bounds_spec(),
            ),
    decreases objects.len(),
{
    if objects.len() > 0 {
        lemma_merge_all_covers(start, objects.drop_last());
        let all = merge_all(start, objects);
        assert forall|i: int| 0 <= i < objects.len() implies all.covers(
            #[trigger] objects[i].bounds_spec(),
        ) by {
            if i < objects.len() - 1 {
                assert(objects.drop_last()[i] == objects[i]);
            }
        }
    }
}

impl<T: NodeObject> Default for Node<T> {
    fn default() -> (node: Node<T>)
        ensures
            node.model() == NodeModel::<T>::empty(),
            node.depth == 0,
    {
        Node {
            left: None,
            right: None,
            contents: Vec::<T>::new(),
            axis: Axis::X,
            pivot: Scalar::zero(),
            bounds: Bounds::default(),
            depth: 0,
        }
    }
}

fn capped_sum(a: usize, b: usize) -> (r: usize)
    ensures
        r == if a + b > usize::MAX {
            usize::MAX as int
        } else {
            a + b
        },
{
    if a > usize::MAX - b {
        usize::MAX
    } else {
        a + b
    }
}

/// `n` as a machine number, or the greatest machine number if `n` is greater.
pub open spec fn capped(n: nat) -> usize {
    if n > usize::MAX {
        usize::MAX
    } else {
        n as usize
    }
}

impl<T: NodeObject> Node<T> {
    /// The number of nodes in the subtree, as far as a `usize` can count.
    pub fn count(&self) -> (n: usize)
        ensures
            n == capped(self.model().count()),
        decreases self,
    {
        let l: usize = match &self.left {
            Some(l) => l.count(),
            None => 0,
        };
        let r: usize = match &self.right {
            Some(r) => r.count(),
            None => 0,
        };
        capped_sum(capped_sum(1, l), r)
    }

    /// The number of nodes on the longest way down, as far as a `usize` can count.
    pub fn depth(&self) -> (n: usize)
        ensures
            n == capped(self.model().height()),
        decreases self,
    {
        let mut depth: usize = 1;
        match &self.left {
            Some(l) => {
                let d: usize = capped_sum(l.depth(), 1);
                if d > depth {
                    depth = d;
                }
            },
            None => {},
        }
        match &self.right {
            Some(r) => {
                let d: usize = capped_sum(r.depth(), 1);
                if d > depth {
                    depth = d;
                }
            },
            None => {},
        }
        depth
    }
}

/// A tree over objects, built once and then only queried.
pub struct Tree<T: NodeObject> {
    pub root: Node<T>,
    pub m_page_size: usize,
}

impl<T: NodeObject> Tree<T> {
    /// The tree of the objects with leaves of a single object.
    pub fn new(objects: Vec<T>) -> (tree: Tree<T>)
        ensures
            tree.root.model() == spec_generate(objects@, Axis::X, 1),
            tree.m_page_size == 1,
    {
        Tree::new_with_page_size(objects, 1)
    }

    /// The tree of the objects with leaves of at most `page_size` objects.
    pub fn new_with_page_size(objects: Vec<T>, page_size: usize) -> (tree: Tree<T>)
        ensures
            tree.root.model() == spec_generate(objects@, Axis::X, page_size as nat),
            tree.m_page_size == page_size,
    {
        Tree { root: Tree::generate(objects, &Axis::X, &page_size), m_page_size: page_size }
    }

    /// Builds the node for a list of objects; see `spec_generate`.
    pub fn generate(objects: Vec<T>, axis: &Axis, page_size: &usize) -> (node: Node<T>)
        ensures
            node.model() == spec_generate(objects@, *axis, *page_size as nat),
        decreases objects.len(),
    {
        if objects.len() == 0 {
            return Node::default();
        }
        let start: Bounds = objects[0].get_bounds();
        let mut bounds: Bounds = start;
        let mut i: usize = 0;
        while i < objects.len()
            invariant
                i <= objects.len(),
                bounds == merge_all(start, objects@.take(i as int)),
            decreases objects.len() - i,
        {
            proof {
                assert(objects@.take(i + 1).drop_last() =~= objects@.take(i as int));
            }
            bounds.add_assign(objects[i].get_bounds());
            i += 1;
        }
        proof {
            assert(objects@.take(objects.len() as int) =~= objects@);
        }
        if objects.len() <= *page_size {
            Node {
                left: None,
                right: None,
                contents: objects,
                axis: *axis,
                pivot: Scalar::zero(),
                bounds,
                depth: 0,
            }
        } else {
            let split: Axis = Tree::<T>::next_non_zero_axis(&bounds, axis);
            let pivot: Scalar = Tree::<T>::median_pivot_component(&objects, &split);
            let mut left_objects: Vec<T> = Vec::new();
            let mut middle_objects: Vec<T> = Vec::new();
            let mut right_objects: Vec<T> = Vec::new();
            let ghost less = on_side::<T>(split, pivot, -1);
            let ghost same = on_side::<T>(split, pivot, 0);
            let ghost more = on_side::<T>(split, pivot, 1);
            let mut k: usize = 0;
            proof {
                reveal(Seq::filter);
                assert(objects@.take(0).filter(less) =~= Seq::<T>::empty());
                assert(objects@.take(0).filter(same) =~= Seq::<T>::empty());
                assert(objects@.take(0).filter(more) =~= Seq::<T>::empty());
            }
            while k < objects.len()
                invariant
                    k <= objects.len(),
                    less == on_side::<T>(split, pivot, -1),
                    same == on_side::<T>(split, pivot, 0),
                    more == on_side::<T>(split, pivot, 1),
                    left_objects@ == objects@.take(k as int).filter(less),
                    middle_objects@ == objects@.take(k as int).filter(same),
                    right_objects@ == objects@.take(k as int).filter(more),
                decreases objects.len() - k,
            {
                let object: T = objects[k];
                proof {
                    let before = objects@.take(k as int);
                    assert(objects@.take(k + 1) =~= before.push(object));
                    before.lemma_filter_push(object, less);
                    before.lemma_filter_push(object, same);
                    before.lemma_filter_push(object, more);
                }
                let pivot_component: Scalar = object.get_pivot_component(&split);
                if pivot_component.lt(pivot) {
                    left_objects.push(object);
                } else if pivot_component.gt(pivot) {
                    right_objects.push(object);
                } else {
                    middle_objects.push(object);
                }
                k += 1;
            }
            proof {
                assert(objects@.take(objects.len() as int) =~= objects@);
                lemma_median_is_element(pivot_values(objects@, split));
                lemma_sides_are_smaller(objects@, split, pivot);
            }
            let left: Option<Box<Node<T>>> = if left_objects.len() > 0 {
                Some(Box::new(Tree::<T>::generate(left_objects, &split, page_size)))
            } else {
                None
            };
            let right: Option<Box<Node<T>>> = if right_objects.len() > 0 {
                Some(Box::new(Tree::<T>::generate(right_objects, &split, page_size)))
            } else {
                None
            };
            Node { left, right, contents: middle_objects, axis: split, pivot, bounds, depth: 0 }
        }
    }

    /// The axis to split on; see `split_axis`.
    pub fn next_non_zero_axis(bounds: &Bounds, axis: &Axis) -> (valid_axis: Axis)
        ensures
            valid_axis == split_axis(*bounds, *axis),
    {
        let first: Axis = *axis;
        let second: Axis = first.next();
        let third: Axis = second.next();
        if Tree::<T>::extends_along(bounds, &first) {
            first
        } else if Tree::<T>::extends_along(bounds, &second) {
            second
        } else if Tree::<T>::extends_along(bounds, &third) {
            third
        } else {
            first
        }
    }

    fn extends_along(bounds: &Bounds, axis: &Axis) -> (b: bool)
        ensures
            b == has_extent(*bounds, *axis),
    {
        let limits: crate::limits::Limits = bounds.get_limits(axis);
        limits.max.raw as i64 - limits.min.raw as i64 > 1
    }

    /// The median of the objects' pivot coordinates along an axis.
    pub fn median_pivot_component(objects: &Vec<T>, axis: &Axis) -> (m: Scalar)
        requires
            objects.len() > 0,
        ensures
            m@ == median_spec(pivot_values(objects@, *axis)),
    {
        let mut values: Vec<i32> = Vec::new();
        let mut i: usize = 0;
        while i < objects.len()
            invariant
                i <= objects.len(),
                values.len() == i,
                forall|j: int|
                    0 <= j < i ==> values[j] as int == objects[j].pivot_spec().spec_component(
                        *axis,
                    )@,
            decreases objects.len() - i,
        {
            values.push(objects[i].get_pivot_component(axis).raw);
            i += 1;
        }
        proof {
            assert(ints_of(values@) =~= pivot_values(objects@, *axis));
        }
        Scalar::from_raw(median(&values))
    }

    /// The nearest of the hits of a ray on the objects that a traversal of
    /// the tree reaches; `cast_buffer` is left holding all of those hits.
    pub fn cast_ray(&self, ray: &Ray, cast_buffer: &mut Vec<Hit>) -> (hit: Option<Hit>)
        ensures
            final(cast_buffer)@ == self.root.model().cast(*ray),
            hit == nearest(self.root.model().cast(*ray)),
    {
        cast_buffer.clear();
        Self::cast_ray_into_node(ray, &self.root, cast_buffer);
        nearest_of(cast_buffer)
    }

    /// The objects of the tree whose pivot lies in the pyramid, as far as a
    /// traversal reaches them: a subtree is passed over where the pyramid
    /// misses its box.
    pub fn fetch_within_pyramid(&self, pyramid: &Pyramid) -> (objects: Vec<T>)
        ensures
            objects@ == self.root.model().fetch(*pyramid),
    {
        let mut objects: Vec<T> = Vec::new();
        Self::fetch_within_pyramid_from_node(pyramid, &self.root, &mut objects);
        proof {
            assert(Seq::<T>::empty() + self.root.model().fetch(*pyramid) =~= self.root.model().fetch(
                *pyramid,
            ));
        }
        objects
    }

    /// Appends to `objects` the objects of a subtree whose pivot lies in the pyramid.
    pub fn fetch_within_pyramid_from_node(pyramid: &Pyramid, node: &Node<T>, objects: &mut Vec<T>)
        ensures
            final(objects)@ == old(objects)@ + node.model().fetch(*pyramid),
        decreases node,
    {
        if pyramid.intersects_bounds(&node.bounds) {
            let mut i: usize = 0;
            let ghost within = pivot_within::<T>(*pyramid);
            proof {
                reveal(Seq::filter);
                assert(node.contents@.take(0).filter(within) =~= Seq::<T>::empty());
                assert(objects@ =~= old(objects)@ + node.contents@.take(0).filter(within));
            }
            while i < node.contents.len()
                invariant
                    i <= node.contents.len(),
                    within == pivot_within::<T>(*pyramid),
                    objects@ == old(objects)@ + node.contents@.take(i as int).filter(within),
                decreases node.contents.len() - i,
            {
                let content: T = node.contents[i];
                proof {
                    let before = node.contents@.take(i as int);
                    assert(node.contents@.take(i + 1) =~= before.push(content));
                    before.lemma_filter_push(content, within);
                }
                if pyramid.contains_point(&content.get_pivot()) {
                    objects.push(content);
                }
                proof {
                    assert(objects@ =~= old(objects)@ + node.contents@.take(i + 1).filter(within));
                }
                i += 1;
            }
            proof {
                assert(node.contents@.take(node.contents.len() as int) =~= node.contents@);
            }
            if let Some(left) = &node.left {
                Self::fetch_within_pyramid_from_node(pyramid, left, objects);
            }
            if let Some(right) = &node.right {
                Self::fetch_within_pyramid_from_node(pyramid, right, objects);
            }
            proof {
                assert(objects@ =~= old(objects)@ + node.model().fetch(*pyramid));
            }
        } else {
            proof {
                assert(objects@ =~= old(objects)@ + node.model().fetch(*pyramid));
            }
        }
    }

    /// Appends to `hits` the hits of a ray on the objects of a subtree.
    pub fn cast_ray_into_node(ray: &Ray, node: &Node<T>, hits: &mut Vec<Hit>)
        ensures
            final(hits)@ == old(hits)@ + node.model().cast(*ray),
        decreases node,
    {
        if node.bounds.ray_intersects(ray) {
            let mut i: usize = 0;
            proof {
                assert(node.contents@.take(0) =~= Seq::<T>::empty());
                assert(hits@ =~= old(hits)@ + hits_of(node.contents@.take(0), *ray));
            }
            while i < node.contents.len()
                invariant
                    i <= node.contents.len(),
                    hits@ == old(hits)@ + hits_of(node.contents@.take(i as int), *ray),
                decreases node.contents.len() - i,
            {
                proof {
                    assert(node.contents@.take(i + 1).drop_last() =~= node.contents@.take(
                        i as int,
                    ));
                }
                if let Some(hit) = node.contents[i].ray_intersects(ray) {
                    hits.push(hit);
                }
                proof {
                    assert(hits@ =~= old(hits)@ + hits_of(node.contents@.take(i + 1), *ray));
                }
                i += 1;
            }
            proof {
                assert(node.contents@.take(node.contents.len() as int) =~= node.contents@);
            }
            let ghost own = hits@;
            if let Some(left) = &node.left {
                Self::cast_ray_into_node(ray, left, hits);
            }
            let ghost with_left = hits@;
            if let Some(right) = &node.right {
                Self::cast_ray_into_node(ray, right, hits);
            }
            proof {
                assert(hits@ =~= old(hits)@ + node.model().cast(*ray));
            }
        } else {
            proof {
                assert(hits@ =~= old(hits)@ + node.model().cast(*ray));
            }
        }
    }
}

/// The first among the hits at the least distance, if there is any hit.
pub fn nearest_of(hits: &Vec<Hit>) -> (best: Option<Hit>)
    ensures
        best == nearest(hits@),
{
    let mut best: Option<Hit> = None;
    let mut i: usize = 0;
    proof {
        assert(hits@.take(0) =~= Seq::<Hit>::empty());
    }
    while i < hits.len()
        invariant
            i <= hits.len(),
            best == nearest(hits@.take(i as int)),
        decreases hits.len() - i,
    {
        proof {
            assert(hits@.take(i + 1).drop_last() =~= hits@.take(i as int));
        }
        let hit: Hit = hits[i];
        best = match best {
            None => Some(hit),
            Some(b) => if hit.distance.lt(b.distance) {
                Some(hit)
            } else {
                Some(b)
            },
        };
        i += 1;
    }
    proof {
        assert(hits@.take(hits.len() as int) =~= hits@);
    }
    best
}

} // verus!
