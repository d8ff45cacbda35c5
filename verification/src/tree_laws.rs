//! What holds of every tree that `generate` builds.

use vstd::prelude::*;
use vstd::seq_lib::{lemma_multiset_commutative, to_multiset_contains};
use crate::bounds::{axis_holds, point_in_box, ray_meets_box, Bounds};
use crate::hit::Hit;
use crate::limits::Limits;
use crate::median::lemma_median_is_element;
use crate::ray::Ray;
use crate::tree::{
    cover, hits_of, lemma_merge_all_covers, lemma_partition, lemma_sides_are_smaller, nearest,
    on_side, pivot_values, spec_generate, NodeModel, NodeObject,
};
use crate::vector3::Axis;

verus! {

/// The hits on two lists joined are the hits on the first, then those on the second.
pub proof fn lemma_hits_of_concat<T: NodeObject>(a: Seq<T>, b: Seq<T>, ray: Ray)
    ensures
        hits_of(a + b, ray) == hits_of(a, ray) + hits_of(b, ray),
    decreases b.len(),
{
    if b.len() == 0 {
        assert(a + b =~= a);
        assert(hits_of(a, ray) + hits_of(b, ray) =~= hits_of(a, ray));
    } else {
        lemma_hits_of_concat(a, b.drop_last(), ray);
        assert((a + b).drop_last() =~= a + b.drop_last());
        assert((a + b).last() == b.last());
        match b.last().hit_spec(ray) {
            Some(h) => {
                assert((hits_of(a, ray) + hits_of(b.drop_last(), ray)).push(h) =~= hits_of(a, ray)
                    + hits_of(b.drop_last(), ray).push(h));
            },
            None => {},
        }
    }
}

/// Every hit in the list of hits is the hit of one of the objects, and the
/// hit of every object that is hit is in the list.
pub proof fn lemma_hits_are_of_objects<T: NodeObject>(objects: Seq<T>, ray: Ray, h: Hit)
    ensures
        hits_of(objects, ray).contains(h) <==> exists|i: int|
            0 <= i < objects.len() && #[trigger] objects[i].hit_spec(ray) == Some(h),
    decreases objects.len(),
{
    if objects.len() == 0 {
    } else {
        let rest = objects.drop_last();
        lemma_hits_are_of_objects(rest, ray, h);
        let before = hits_of(rest, ray);
        let all = hits_of(objects, ray);
        if all.contains(h) {
            let j = choose|j: int| 0 <= j < all.len() && all[j] == h;
            if j < before.len() {
                assert(before[j] == h);
                assert(before.contains(h));
                let i = choose|i: int| 0 <= i < rest.len() && #[trigger] rest[i].hit_spec(ray)
                    == Some(h);
                assert(objects[i].hit_spec(ray) == Some(h));
            } else {
                assert(objects[objects.len() - 1].hit_spec(ray) == Some(h));
            }
        }
        if exists|i: int| 0 <= i < objects.len() && #[trigger] objects[i].hit_spec(ray) == Some(h) {
            let i = choose|i: int| 0 <= i < objects.len() && #[trigger] objects[i].hit_spec(ray)
                == Some(h);
            if i < rest.len() {
                assert(rest[i].hit_spec(ray) == Some(h));
                assert(before.contains(h));
                let j = choose|j: int| 0 <= j < before.len() && before[j] == h;
                assert(all[j] == h);
            } else {
                assert(all[all.len() - 1] == h);
            }
        }
    }
}

/// The nearest hit is one of the hits, and none of them is nearer; there is
/// one as soon as there is any hit.
pub proof fn lemma_nearest_is_least(hits: Seq<Hit>)
    ensures
        nearest(hits) is None <==> hits.len() == 0,
        nearest(hits) matches Some(best) ==> hits.contains(best) && forall|i: int|
            0 <= i < hits.len() ==> best.distance@ <= (#[trigger] hits[i]).distance@,
    decreases hits.len(),
{
    if hits.len() > 0 {
        let rest = hits.drop_last();
        lemma_nearest_is_least(rest);
        let best = nearest(hits)->0;
        match nearest(rest) {
            None => {
                assert(hits[hits.len() - 1] == best);
            },
            Some(b) => {
                if hits.last().distance@ < b.distance@ {
                    assert(hits[hits.len() - 1] == best);
                } else {
                    let j = choose|j: int| 0 <= j < rest.len() && rest[j] == b;
                    assert(hits[j] == best);
                }
            },
        }
        assert forall|i: int| 0 <= i < hits.len() implies best.distance@ <= (
        #[trigger] hits[i]).distance@ by {
            if i < rest.len() {
                assert(rest[i] == hits[i]);
            }
        }
    }
}

/// A ray that meets a box meets every box that covers it.
pub proof fn lemma_meets_covering_box(outer: Bounds, inner: Bounds, ray: Ray)
    requires
        outer.covers(inner),
        ray_meets_box(inner, ray),
    ensures
        ray_meets_box(outer, ray),
{
    let (n, d) = choose|n: int, d: int| n >= 0 && d > 0 && #[trigger] point_in_box(inner, ray, n, d);
    lemma_axis_widens(outer.x, inner.x, ray.origin.x@, ray.direction.x@, n, d);
    lemma_axis_widens(outer.y, inner.y, ray.origin.y@, ray.direction.y@, n, d);
    lemma_axis_widens(outer.z, inner.z, ray.origin.z@, ray.direction.z@, n, d);
    assert(point_in_box(outer, ray, n, d));
}

proof fn lemma_axis_widens(outer: Limits, inner: Limits, o: int, dir: int, n: int, d: int)
    requires
        d > 0,
        outer.covers(inner),
        axis_holds(inner, o, dir, n, d),
    ensures
        axis_holds(outer, o, dir, n, d),
{
    let (a, b, c, e) = (outer.min@, inner.min@, inner.max@, outer.max@);
    assert(d * a <= d * b && d * c <= d * e) by (nonlinear_arith)
        requires
            d > 0,
            a <= b,
            c <= e,
    ;
}

/// A ray that misses a box hits none of the objects whose boxes it covers.
pub proof fn lemma_missed_box_hides_nothing<T: NodeObject>(
    objects: Seq<T>,
    bounds: Bounds,
    ray: Ray,
)
    requires
        !ray_meets_box(bounds, ray),
        forall|i: int| 0 <= i < objects.len() ==> bounds.covers(#[trigger] objects[i].bounds_spec()),
    ensures
        hits_of(objects, ray) == Seq::<Hit>::empty(),
    decreases objects.len(),
{
    if objects.len() > 0 {
        let rest = objects.drop_last();
        assert forall|i: int| 0 <= i < rest.len() implies bounds.covers(
            #[trigger] rest[i].bounds_spec(),
        ) by {
            assert(rest[i] == objects[i]);
        }
        lemma_missed_box_hides_nothing(rest, bounds, ray);
        let o = objects.last();
        assert(o == objects[objects.len() - 1]);
        if o.hit_spec(ray) is Some {
            o.lemma_hit_in_bounds(ray);
            lemma_meets_covering_box(bounds, o.bounds_spec(), ray);
        }
    }
}

/// In a tree whose boxes cover their objects, a traversal collects exactly
/// the hits of a scan over all objects of the tree: skipping a box loses nothing.
pub proof fn lemma_cast_is_scan<T: NodeObject>(node: NodeModel<T>, ray: Ray)
    requires
        node.covered(),
    ensures
        node.cast(ray) == hits_of(node.objects(), ray),
    decreases node,
{
    let l = match node.left {
        Some(l) => l.objects(),
        None => Seq::empty(),
    };
    let r = match node.right {
        Some(r) => r.objects(),
        None => Seq::empty(),
    };
    if ray_meets_box(node.bounds, ray) {
        match node.left {
            Some(left) => {
                lemma_cast_is_scan(*left, ray);
            },
            None => {},
        }
        match node.right {
            Some(right) => {
                lemma_cast_is_scan(*right, ray);
            },
            None => {},
        }
        lemma_hits_of_concat(node.contents, l, ray);
        lemma_hits_of_concat(node.contents + l, r, ray);
    } else {
        lemma_missed_box_hides_nothing(node.objects(), node.bounds, ray);
    }
}

/// A built tree holds each of the objects it was built of exactly as often
/// as the list does, and each of its boxes covers the objects below it.
pub proof fn lemma_generate_keeps_objects<T: NodeObject>(
    objects: Seq<T>,
    axis: Axis,
    page_size: nat,
)
    ensures
        spec_generate(objects, axis, page_size).objects().to_multiset() =~= objects.to_multiset(),
        spec_generate(objects, axis, page_size).covered(),
    decreases objects.len(),
{
    broadcast use vstd::multiset::group_multiset_axioms;

    let node = spec_generate(objects, axis, page_size);
    let none = Seq::<T>::empty();
    if objects.len() == 0 {
        assert(node.objects() =~= objects);
    } else if objects.len() <= page_size {
        assert(node.objects() =~= objects);
        lemma_merge_all_covers(objects[0].bounds_spec(), objects);
    } else {
        let split = node.axis;
        let pivot = node.pivot;
        let less = objects.filter(on_side(split, pivot, -1));
        let more = objects.filter(on_side(split, pivot, 1));
        let same = objects.filter(on_side(split, pivot, 0));
        lemma_median_is_element(pivot_values(objects, split));
        lemma_sides_are_smaller(objects, split, pivot);
        lemma_partition(objects, split, pivot);
        let l = match node.left {
            Some(l) => l.objects(),
            None => none,
        };
        let r = match node.right {
            Some(r) => r.objects(),
            None => none,
        };
        if less.len() > 0 {
            lemma_generate_keeps_objects(less, split, page_size);
        } else {
            less.to_multiset_ensures();
            l.to_multiset_ensures();
            assert(l.to_multiset() =~= less.to_multiset());
        }
        if more.len() > 0 {
            lemma_generate_keeps_objects(more, split, page_size);
        } else {
            more.to_multiset_ensures();
            r.to_multiset_ensures();
            assert(r.to_multiset() =~= more.to_multiset());
        }
        lemma_multiset_commutative(same, l);
        lemma_multiset_commutative(same + l, r);
        assert(node.objects() =~= same + l + r);
        assert(node.objects().to_multiset() =~= objects.to_multiset());
        lemma_merge_all_covers(objects[0].bounds_spec(), objects);
        assert forall|i: int| 0 <= i < node.objects().len() implies node.bounds.covers(
            #[trigger] node.objects()[i].bounds_spec(),
        ) by {
            let o = node.objects()[i];
            assert(node.objects().contains(o));
            to_multiset_contains(node.objects(), o);
            to_multiset_contains(objects, o);
            let j = choose|j: int| 0 <= j < objects.len() && objects[j] == o;
            assert(cover(objects).covers(objects[j].bounds_spec()));
        }
    }
}

/// Casting a ray against a built tree finds a hit exactly when a scan over
/// the list of objects does, and the two nearest hits are equally far. The
/// hit that the tree returns is the hit of one of the objects.
pub proof fn lemma_tree_matches_scan<T: NodeObject>(objects: Seq<T>, page_size: nat, ray: Ray)
    ensures
        ({
            let tree = nearest(spec_generate(objects, Axis::X, page_size).cast(ray));
            let scan = nearest(hits_of(objects, ray));
            &&& tree is None <==> scan is None
            &&& tree is Some ==> tree->0.distance == scan->0.distance
            &&& tree is Some ==> hits_of(objects, ray).contains(tree->0)
        }),
{
    let node = spec_generate(objects, Axis::X, page_size);
    lemma_generate_keeps_objects(objects, Axis::X, page_size);
    lemma_cast_is_scan(node, ray);
    let in_tree = hits_of(node.objects(), ray);
    let in_list = hits_of(objects, ray);
    lemma_nearest_is_least(in_tree);
    lemma_nearest_is_least(in_list);
    assert forall|h: Hit| in_tree.contains(h) <==> in_list.contains(h) by {
        lemma_hits_are_of_objects(node.objects(), ray, h);
        lemma_hits_are_of_objects(objects, ray, h);
        if in_tree.contains(h) {
            let i = choose|i: int|
                0 <= i < node.objects().len() && #[trigger] node.objects()[i].hit_spec(ray)
                    == Some(h);
            let o = node.objects()[i];
            assert(node.objects().contains(o));
            to_multiset_contains(node.objects(), o);
            to_multiset_contains(objects, o);
            let j = choose|j: int| 0 <= j < objects.len() && objects[j] == o;
            assert(objects[j].hit_spec(ray) == Some(h));
        }
        if in_list.contains(h) {
            let i = choose|i: int|
                0 <= i < objects.len() && #[trigger] objects[i].hit_spec(ray) == Some(h);
            let o = objects[i];
            assert(objects.contains(o));
            to_multiset_contains(node.objects(), o);
            to_multiset_contains(objects, o);
            let j = choose|j: int| 0 <= j < node.objects().len() && node.objects()[j] == o;
            assert(node.objects()[j].hit_spec(ray) == Some(h));
        }
    }
    if in_tree.len() > 0 {
        assert(in_tree.contains(in_tree[0]));
        assert(in_list.contains(in_tree[0]));
    }
    if in_list.len() > 0 {
        assert(in_list.contains(in_list[0]));
        assert(in_tree.contains(in_list[0]));
    }
    if nearest(in_tree) is Some {
        let t = nearest(in_tree)->0;
        let s = nearest(in_list)->0;
        assert(in_list.contains(t));
        assert(in_tree.contains(s));
        let i = choose|i: int| 0 <= i < in_list.len() && in_list[i] == t;
        let j = choose|j: int| 0 <= j < in_tree.len() && in_tree[j] == s;
        assert(s.distance@ <= in_list[i].distance@);
        assert(t.distance@ <= in_tree[j].distance@);
    }
}

} // verus!
