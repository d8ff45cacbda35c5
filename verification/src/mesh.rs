//! A named set of triangles behind a tree.

use vstd::prelude::*;
use crate::hit::Hit;
use crate::ray::Ray;
use crate::tree::{nearest, spec_generate, Tree};
use crate::triangle::Triangle;
use crate::vector3::Axis;

verus! {

pub struct Mesh {
    pub m_name: String,
    pub m_tree: Tree<Triangle>,
}

impl Mesh {
    /// The nearest of the hits of a ray on the triangles that a traversal of the tree reaches.
    pub open spec fn spec_cast_ray(self, ray: Ray) -> Option<Hit> {
        nearest(self.m_tree.root.model().cast(ray))
    }

    pub fn new(name: &str, triangles: Vec<Triangle>) -> (m: Mesh)
        ensures
            m.m_name@ == name@,
            m.m_tree.root.model() == spec_generate(triangles@, Axis::X, 1),
    {
        Mesh { m_name: name.to_owned(), m_tree: Tree::new(triangles) }
    }

    /// `cast_buffer` is left holding all hits that were found.
    pub fn cast_ray(&self, ray: &Ray, cast_buffer: &mut Vec<Hit>) -> (h: Option<Hit>)
        ensures
            h == self.spec_cast_ray(*ray),
            final(cast_buffer)@ == self.m_tree.root.model().cast(*ray),
    {
        self.m_tree.cast_ray(ray, cast_buffer)
    }
}

} // verus!
