//! Buffers that stages use beside the data that flows through the pipeline.

use vstd::prelude::*;

verus! {

/// Side inputs by name, in the order in which their names first came.
#[derive(Debug)]
pub struct SideInputs<B> {
    entries: Vec<(String, B)>,
}

impl<B> View for SideInputs<B> {
    type V = Seq<(Seq<char>, B)>;

    closed spec fn view(&self) -> Seq<(Seq<char>, B)> {
        self.entries@.map_values(|e: (String, B)| (e.0@, e.1))
    }
}

/// Where a name stands among side inputs.
pub open spec fn position<B>(entries: Seq<(Seq<char>, B)>, name: Seq<char>) -> Option<int> {
    if exists|i: int| 0 <= i < entries.len() && (#[trigger] entries[i]).0 == name {
        Some(choose|i: int| 0 <= i < entries.len() && (#[trigger] entries[i]).0 == name)
    } else {
        None
    }
}

/// Whether no name occurs twice.
pub open spec fn names_distinct<B>(entries: Seq<(Seq<char>, B)>) -> bool {
    forall|i: int, j: int|
        0 <= i < j < entries.len() ==> (#[trigger] entries[i]).0 != (#[trigger] entries[j]).0
}

/// Where a side input with this name stands once it is there: where one with
/// the name stands already, or else at the end.
pub open spec fn place<B>(entries: Seq<(Seq<char>, B)>, name: Seq<char>) -> int {
    match position(entries, name) {
        Some(i) => i,
        None => entries.len() as int,
    }
}

/// Side inputs after `buffer` was put under `name`: in the place of the
/// buffer that was there, or at the end.
pub open spec fn inserted<B>(entries: Seq<(Seq<char>, B)>, name: Seq<char>, buffer: B) -> Seq<
    (Seq<char>, B),
> {
    match position(entries, name) {
        Some(i) => entries.update(i, (name, buffer)),
        None => entries.push((name, buffer)),
    }
}

impl<B> SideInputs<B> {
    /// No name occurs twice.
    pub open spec fn wf(&self) -> bool {
        names_distinct(self@)
    }

    /// No side inputs.
    pub fn new() -> (inputs: Self)
        ensures
            inputs.wf(),
            inputs@ == Seq::<(Seq<char>, B)>::empty(),
    {
        let inputs = SideInputs { entries: Vec::new() };
        assert(inputs@ =~= Seq::<(Seq<char>, B)>::empty());
        inputs
    }

    /// How many side inputs there are.
    pub fn len(&self) -> (len: usize)
        ensures
            len == self@.len(),
    {
        self.entries.len()
    }

    /// The index of the side input under `name`.
    pub fn index_of(&self, name: &str) -> (index: Option<usize>)
        requires
            self.wf(),
        ensures
            index is Some <==> position(self@, name@) is Some,
            index matches Some(i) ==> i == position(self@, name@)->0 && i < self@.len()
                && self@[i as int].0 == name@,
    {
        let key = String::from(name);
        let mut i: usize = 0;
        while i < self.entries.len()
            invariant
                self.wf(),
                key@ == name@,
                i <= self.entries@.len(),
                forall|j: int| 0 <= j < i ==> (#[trigger] self@[j]).0 != name@,
            decreases self.entries@.len() - i,
        {
            assert(self@[i as int].0 == self.entries@[i as int].0@);
            if self.entries[i].0 == key {
                return Some(i);
            }
            i = i + 1;
        }
        None
    }

    /// The side input under `name`.
    pub fn get(&self, name: &str) -> (buffer: Option<&B>)
        requires
            self.wf(),
        ensures
            buffer is Some <==> position(self@, name@) is Some,
            buffer matches Some(b) ==> *b == self@[position(self@, name@)->0].1,
    {
        match self.index_of(name) {
            Some(i) => Some(&self.entries[i].1),
            None => None,
        }
    }

    /// Puts `buffer` under `name`, in the place of a buffer that was there, and
    /// returns the index that it has from then on.
    pub fn insert(&mut self, name: String, buffer: B) -> (index: usize)
        requires
            old(self).wf(),
        ensures
            final(self).wf(),
            final(self)@ == inserted(old(self)@, name@, buffer),
            index == place(old(self)@, name@),
    {
        let found = self.index_of(name.as_str());
        match found {
            Some(i) => {
                let ghost before = self@;
                self.entries.set(i, (name, buffer));
                assert(self@ =~= before.update(i as int, (name@, buffer)));
                i
            },
            None => {
                let ghost before = self@;
                let index: usize = self.entries.len();
                self.entries.push((name, buffer));
                assert(self@ =~= before.push((name@, buffer)));
                assert forall|i: int, j: int| 0 <= i < j < self@.len() implies (
                #[trigger] self@[i]).0 != (#[trigger] self@[j]).0 by {
                    assert(before[i].0 != name@);
                }
                index
            },
        }
    }
}

} // verus!
