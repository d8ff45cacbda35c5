//! Objects in space, alone or attached to one another.

use vstd::prelude::*;
use crate::quaternion::Quaternion;
use crate::transform::{spec_unit_z, Transform};
use crate::vector3::Vector3;

verus! {

/// Something that has a place in space.
pub trait ObjectTrait {
    fn object(&self) -> &Object;
}

/// A named frame of reference.
pub struct Object {
    pub transform: Transform,
    pub m_name: String,
}

impl Object {
    /// An object without a name in the frame of `Transform::new`.
    pub fn new() -> (o: Object)
        ensures
            o.transform.position.x@ == 0 && o.transform.position.y@ == 0
                && o.transform.position.z@ == 0,
            o.transform.rotation == Quaternion::spec_identity(),
            o.m_name@.len() == 0,
    {
        Object { transform: Transform::new(), m_name: String::new() }
    }

    /// Where the object stands. An object on its own stands where its transform says.
    pub fn position(&self) -> (p: Vector3)
        ensures
            p == self.transform.position,
    {
        self.transform.position
    }

    /// How the object is turned.
    pub fn rotation(&self) -> (q: Quaternion)
        ensures
            q == self.transform.rotation,
    {
        self.transform.rotation
    }

    /// The direction that the object faces.
    pub fn forward(&self) -> (v: Vector3)
        ensures
            v == self.transform.rotation.spec_mul_vector(spec_unit_z()),
    {
        self.rotation().mul_vector(Vector3::unit_z())
    }
}

/// Objects that may be attached to one another, each known by its handle:
/// its place in the order of creation.
///
/// An object may be attached only to an object made before it. So no chain
/// of parents can return to where it began, and every walk towards the root
/// comes to an end.
pub struct ObjectArena {
    m_objects: Vec<Object>,
    m_parents: Vec<Option<usize>>,
}

impl ObjectArena {
    /// How many objects there are.
    pub closed spec fn count(self) -> nat {
        self.m_objects@.len()
    }

    /// The transform of the object with handle `h`, within its parent's frame.
    pub closed spec fn transform_of(self, h: int) -> Transform {
        self.m_objects@[h].transform
    }

    /// The name of the object with handle `h`.
    pub closed spec fn name_of(self, h: int) -> Seq<char> {
        self.m_objects@[h].m_name@
    }

    /// The handle of the parent of the object with handle `h`, if it has one.
    pub closed spec fn parent_of(self, h: int) -> Option<usize> {
        self.m_parents@[h]
    }

    /// Every object has its parent, if any, among the objects made before it.
    pub closed spec fn wf(self) -> bool {
        &&& self.m_parents@.len() == self.m_objects@.len()
        &&& forall|h: int|
            0 <= h < self.m_parents@.len() ==> match #[trigger] self.m_parents@[h] {
                Some(p) => p < h,
                None => true,
            }
    }

    /// How the object with handle `h` is turned in the world: the rotations
    /// of its ancestors, from the root down, times its own.
    pub open spec fn world_rotation(self, h: int) -> Quaternion
        decreases h,
    {
        if h < 0 {
            Quaternion::spec_identity()
        } else {
            match self.parent_of(h) {
                Some(p) => if p < h {
                    self.world_rotation(p as int).spec_mul(self.transform_of(h).rotation)
                } else {
                    self.transform_of(h).rotation
                },
                None => self.transform_of(h).rotation,
            }
        }
    }

    /// Where the object with handle `h` stands in the world: its parent's
    /// place plus its own position turned by its parent's rotation.
    pub open spec fn world_position(self, h: int) -> Vector3
        decreases h,
    {
        if h < 0 {
            self.transform_of(h).position
        } else {
            match self.parent_of(h) {
                Some(p) => if p < h {
                    self.world_position(p as int).spec_add(
                        self.world_rotation(p as int).spec_mul_vector(self.transform_of(h).position),
                    )
                } else {
                    self.transform_of(h).position
                },
                None => self.transform_of(h).position,
            }
        }
    }

    pub fn new() -> (arena: ObjectArena)
        ensures
            arena.wf(),
            arena.count() == 0,
    {
        ObjectArena { m_objects: Vec::new(), m_parents: Vec::new() }
    }

    /// Takes in an object, unattached, and returns its handle.
    pub fn insert(&mut self, object: Object) -> (h: usize)
        requires
            old(self).wf(),
        ensures
            final(self).wf(),
            h == old(self).count(),
            final(self).count() == old(self).count() + 1,
            final(self).parent_of(h as int) is None,
            final(self).transform_of(h as int) == object.transform,
            final(self).name_of(h as int) == object.m_name@,
            forall|k: int|
                0 <= k < old(self).count() ==> final(self).parent_of(k) == old(self).parent_of(k)
                    && final(self).transform_of(k) == old(self).transform_of(k) && final(self).name_of(k) == old(self).name_of(k),
    {
        self.m_objects.push(object);
        self.m_parents.push(None);
        self.m_objects.len() - 1
    }

    pub fn len(&self) -> (n: usize)
        ensures
            n == self.count(),
    {
        self.m_objects.len()
    }

    /// Where the object stands in the world.
    pub fn position(&self, h: usize) -> (p: Vector3)
        requires
            self.wf(),
            h < self.count(),
        ensures
            p == self.world_position(h as int),
        decreases h,
    {
        match self.m_parents[h] {
            Some(parent) => self.position(parent).add(
                self.rotation(parent).mul_vector(self.m_objects[h].transform.position),
            ),
            None => self.m_objects[h].transform.position,
        }
    }

    /// How the object is turned in the world.
    pub fn rotation(&self, h: usize) -> (q: Quaternion)
        requires
            self.wf(),
            h < self.count(),
        ensures
            q == self.world_rotation(h as int),
        decreases h,
    {
        match self.m_parents[h] {
            Some(parent) => self.rotation(parent).mul(self.m_objects[h].transform.rotation),
            None => self.m_objects[h].transform.rotation,
        }
    }

    /// The direction that the object faces in the world.
    pub fn forward(&self, h: usize) -> (v: Vector3)
        requires
            self.wf(),
            h < self.count(),
        ensures
            v == self.world_rotation(h as int).spec_mul_vector(spec_unit_z()),
    {
        self.rotation(h).mul_vector(Vector3::unit_z())
    }

    /// Attaches `child` to `parent`, leaving whatever parent it had. An
    /// object can be attached only to one made before it; otherwise nothing
    /// changes and the answer is `false`.
    pub fn set_parent(&mut self, child: usize, parent: usize) -> (attached: bool)
        requires
            old(self).wf(),
            child < old(self).count(),
        ensures
            final(self).wf(),
            final(self).count() == old(self).count(),
            attached == (parent < child),
            attached ==> final(self).parent_of(child as int) == Some(parent),
            !attached ==> final(self).parent_of(child as int) == old(self).parent_of(child as int),
            forall|k: int|
                0 <= k < old(self).count() ==> final(self).transform_of(k) == old(self).transform_of(k) && final(self).name_of(k) == old(self).name_of(k) && (k != child
                    ==> final(self).parent_of(k) == old(self).parent_of(k)),
    {
        if parent < child {
            self.m_parents.set(child, Some(parent));
            true
        } else {
            false
        }
    }

    /// Attaches `child` to `parent`; see `set_parent`.
    pub fn add_child(&mut self, parent: usize, child: usize) -> (attached: bool)
        requires
            old(self).wf(),
            child < old(self).count(),
        ensures
            final(self).wf(),
            final(self).count() == old(self).count(),
            attached == (parent < child),
            attached ==> final(self).parent_of(child as int) == Some(parent),
            !attached ==> final(self).parent_of(child as int) == old(self).parent_of(child as int),
    {
        self.set_parent(child, parent)
    }

    /// Detaches `child` if it is attached to `parent`.
    pub fn remove_child(&mut self, parent: usize, child: usize)
        requires
            old(self).wf(),
            child < old(self).count(),
        ensures
            final(self).wf(),
            final(self).count() == old(self).count(),
            final(self).parent_of(child as int) == if old(self).parent_of(child as int) == Some(
                parent,
            ) {
                None
            } else {
                old(self).parent_of(child as int)
            },
            forall|k: int|
                0 <= k < old(self).count() && k != child ==> final(self).parent_of(k) == old(self).parent_of(k),
    {
        let attached: bool = match self.m_parents[child] {
            Some(p) => p == parent,
            None => false,
        };
        if attached {
            self.m_parents.set(child, None);
        }
    }

    /// The first child of `parent` that bears the name, if there is one.
    pub fn get_child(&self, parent: usize, name: &str) -> (r: Option<usize>)
        requires
            self.wf(),
        ensures
            match r {
                Some(c) => c < self.count() && self.parent_of(c as int) == Some(parent)
                    && self.name_of(c as int) == name@ && forall|k: int|
                    0 <= k < c ==> !(self.parent_of(k) == Some(parent) && self.name_of(k) == name@),
                None => forall|k: int|
                    0 <= k < self.count() ==> !(self.parent_of(k) == Some(parent) && self.name_of(
                        k,
                    ) == name@),
            },
    {
        let wanted: String = name.to_owned();
        let mut i: usize = 0;
        while i < self.m_objects.len()
            invariant
                self.wf(),
                i <= self.m_objects.len(),
                wanted@ == name@,
                forall|k: int|
                    0 <= k < i ==> !(self.parent_of(k) == Some(parent) && self.name_of(k) == name@),
            decreases self.m_objects.len() - i,
        {
            let attached: bool = match self.m_parents[i] {
                Some(p) => p == parent,
                None => false,
            };
            if attached && self.m_objects[i].m_name == wanted {
                return Some(i);
            }
            i += 1;
        }
        None
    }
}

} // verus!
