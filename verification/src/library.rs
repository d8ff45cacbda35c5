//! A registry of items under names.

use vstd::prelude::*;

verus! {

/// Items in the order in which they were added, each under a name of its own.
pub struct Library<T> {
    m_contents: Vec<T>,
    m_names: Vec<String>,
}

impl<T> Library<T> {
    /// The items, in the order in which they were added.
    pub closed spec fn contents(self) -> Seq<T> {
        self.m_contents@
    }

    /// The names of the items, in the same order.
    pub closed spec fn names(self) -> Seq<Seq<char>> {
        self.m_names@.map_values(|s: String| s@)
    }

    /// Every item has a name, and no name is used twice.
    pub open spec fn wf(self) -> bool {
        &&& self.names().len() == self.contents().len()
        &&& forall|i: int, j: int|
            0 <= i < j < self.names().len() ==> self.names()[i] != self.names()[j]
    }

    pub open spec fn has_name(self, name: Seq<char>) -> bool {
        self.names().contains(name)
    }

    pub fn new() -> (l: Library<T>)
        ensures
            l.wf(),
            l.contents().len() == 0,
            l.names().len() == 0,
    {
        Library { m_contents: Vec::new(), m_names: Vec::new() }
    }

    /// The place of the item of that name, if there is one.
    pub fn find(&self, name: &str) -> (r: Option<usize>)
        ensures
            match r {
                Some(i) => i < self.names().len() && self.names()[i as int] == name@,
                None => !self.has_name(name@),
            },
    {
        let wanted: String = name.to_owned();
        let mut i: usize = 0;
        while i < self.m_names.len()
            invariant
                i <= self.m_names.len(),
                wanted@ == name@,
                forall|j: int| 0 <= j < i ==> self.names()[j] != name@,
            decreases self.m_names.len() - i,
        {
            if self.m_names[i] == wanted {
                return Some(i);
            }
            i += 1;
        }
        None
    }

    /// Adds an item under a name that is not in use.
    pub fn add(&mut self, name: &str, item: T)
        requires
            old(self).wf(),
            !old(self).has_name(name@),
        ensures
            final(self).wf(),
            final(self).contents() == old(self).contents().push(item),
            final(self).names() == old(self).names().push(name@),
    {
        self.m_contents.push(item);
        self.m_names.push(name.to_owned());
        proof {
            assert(self.names() =~= old(self).names().push(name@));
            assert forall|i: int, j: int| 0 <= i < j < self.names().len() implies self.names()[i]
                != self.names()[j] by {
                if j == self.names().len() - 1 {
                    assert(old(self).names()[i] == self.names()[i]);
                } else {
                    assert(old(self).names()[i] == self.names()[i]);
                    assert(old(self).names()[j] == self.names()[j]);
                }
            }
        }
    }

    /// Adds an item under a name unless the name is in use; says whether it did.
    pub fn try_add(&mut self, name: &str, item: T) -> (added: bool)
        requires
            old(self).wf(),
        ensures
            final(self).wf(),
            added == !old(self).has_name(name@),
            added ==> final(self).contents() == old(self).contents().push(item),
            added ==> final(self).names() == old(self).names().push(name@),
            !added ==> final(self).contents() == old(self).contents() && final(self).names()
                == old(self).names(),
    {
        match self.find(name) {
            Some(_) => false,
            None => {
                self.add(name, item);
                true
            },
        }
    }

    /// The place of the item of that name, which must be in the library.
    pub fn index_for_name(&self, name: &str) -> (i: usize)
        requires
            self.has_name(name@),
        ensures
            i < self.names().len(),
            self.names()[i as int] == name@,
    {
        match self.find(name) {
            Some(i) => i,
            None => {
                proof {
                    assert(false);
                }
                0
            },
        }
    }

    /// The item of that name, which must be in the library.
    pub fn fetch(&self, name: &str) -> (item: &T)
        requires
            self.wf(),
            self.has_name(name@),
        ensures
            exists|i: int|
                0 <= i < self.names().len() && self.names()[i] == name@ && *item
                    == self.contents()[i],
    {
        let i: usize = self.index_for_name(name);
        &self.m_contents[i]
    }

    /// The item of that name, which must be in the library, to be changed in place.
    pub fn fetch_mut(&mut self, name: &str) -> (item: &mut T)
        requires
            old(self).wf(),
            old(self).has_name(name@),
        ensures
            final(self).names() == old(self).names(),
            exists|i: int|
                0 <= i < old(self).names().len() && old(self).names()[i] == name@ && *item == old(self).contents()[i] && final(self).contents() == old(self).contents().update(
                    i,
                    *final(item),
                ),
    {
        let index: usize = self.index_for_name(name);
        &mut self.m_contents[index]
    }

    /// The item at a place, which must be less than the number of items.
    pub fn fetch_by_index(&self, index: usize) -> (item: &T)
        requires
            index < self.contents().len(),
        ensures
            *item == self.contents()[index as int],
    {
        &self.m_contents[index]
    }

    /// The item at a place, or `None` where the place is not in the library.
    pub fn get(&self, index: usize) -> (item: Option<&T>)
        ensures
            index < self.contents().len() ==> item == Some(&self.contents()[index as int]),
            index >= self.contents().len() ==> item is None,
    {
        if index < self.m_contents.len() {
            Some(&self.m_contents[index])
        } else {
            None
        }
    }

    pub fn len(&self) -> (n: usize)
        ensures
            n == self.contents().len(),
    {
        self.m_contents.len()
    }
}

} // verus!
