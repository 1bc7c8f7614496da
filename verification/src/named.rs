//! Values by name, in the order in which the names came.

use vstd::prelude::*;

verus! {

/// No two entries have the same name.
pub open spec fn unique_names<T>(entries: Seq<(String, T)>) -> bool {
    forall|i: int, j: int|
        0 <= i < j < entries.len() ==> (#[trigger] entries[i]).0@ != (#[trigger] entries[j]).0@
}

/// Values by name. No name occurs twice.
#[derive(Debug)]
pub struct Named<T> {
    entries: Vec<(String, T)>,
}

impl<T> View for Named<T> {
    type V = Seq<(String, T)>;

    closed spec fn view(&self) -> Seq<(String, T)> {
        self.entries@
    }
}

impl<T> Default for Named<T> {
    fn default() -> (r: Self)
        ensures
            r@ == Seq::<(String, T)>::empty(),
    {
        Named::new()
    }
}

impl<T> Named<T> {
    #[verifier::type_invariant]
    spec fn inv(&self) -> bool {
        unique_names(self.entries@)
    }

    pub fn new() -> (r: Self)
        ensures
            r@ == Seq::<(String, T)>::empty(),
    {
        Named { entries: Vec::new() }
    }

    pub fn len(&self) -> (r: usize)
        ensures
            r == self@.len(),
    {
        self.entries.len()
    }

    pub fn as_slice(&self) -> (r: &[(String, T)])
        ensures
            r@ == self@,
            unique_names(r@),
    {
        proof {
            use_type_invariant(self);
        }
        self.entries.as_slice()
    }

    /// Gives a name a value. A value that the name had before is handed out; else the name
    /// comes last.
    pub fn insert(&mut self, name: String, value: T) -> (r: Option<T>)
        ensures
            match r {
                Some(before) => exists|i: int|
                    {
                        &&& 0 <= i < old(self)@.len()
                        &&& (#[trigger] old(self)@[i]).0@ == name@
                        &&& before == old(self)@[i].1
                        &&& final(self)@ == old(self)@.update(i, (old(self)@[i].0, value))
                    },
                None => {
                    &&& forall|i: int|
                        0 <= i < old(self)@.len() ==> (#[trigger] old(self)@[i]).0@ != name@
                    &&& final(self)@ == old(self)@.push((name, value))
                },
            },
    {
        proof {
            use_type_invariant(&*self);
        }
        let ghost was = self.entries@;
        let mut entries: Vec<(String, T)> = Vec::new();
        std::mem::swap(&mut entries, &mut self.entries);
        let mut i: usize = 0;
        while i < entries.len()
            invariant
                entries@ == was,
                was == old(self)@,
                unique_names(was),
                i <= entries@.len(),
                forall|j: int| 0 <= j < i ==> (#[trigger] was[j]).0@ != name@,
            decreases entries@.len() - i,
        {
            if entries[i].0 == name {
                let (key, before) = entries.remove(i);
                entries.insert(i, (key, value));
                assert(entries@ =~= was.update(i as int, (was[i as int].0, value)));
                self.entries = entries;
                assert(old(self)@[i as int].0@ == name@);
                return Some(before);
            }
            i += 1;
        }
        entries.push((name, value));
        self.entries = entries;
        None
    }
}

} // verus!
