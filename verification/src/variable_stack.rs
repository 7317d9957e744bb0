//! Local-variable slots.
//!
//! Each declared variable gets the next free slot of the method's frame.
//! A later declaration of the same name shadows the earlier one, and a
//! dropped name leaves its slot unused: no slot is handed out twice.

use crate::jvm_type::JvmType;
use vstd::prelude::*;

verus! {

/// One variable: its name, its slot and the type of what the slot holds.
struct Binding {
    name: String,
    index: u8,
    jvm_type: JvmType,
}

/// The variables in scope, and the next free slot.
pub struct VariableStack {
    indices: Vec<Binding>,
    next_index: u8,
}

/// Whether the binding at `i` is the one for `name`.
spec fn binds(bindings: Seq<Binding>, i: int, name: Seq<char>) -> bool {
    0 <= i < bindings.len() && bindings[i].name@ == name
}

impl View for VariableStack {
    type V = Map<Seq<char>, (u8, JvmType)>;

    /// Each name in scope with its slot and type.
    closed spec fn view(&self) -> Map<Seq<char>, (u8, JvmType)> {
        Map::new(
            |name: Seq<char>| exists|i: int| binds(self.indices@, i, name),
            |name: Seq<char>|
                {
                    let i = choose|i: int| binds(self.indices@, i, name);
                    (self.indices@[i].index, self.indices@[i].jvm_type)
                },
        )
    }
}

impl VariableStack {
    /// The slot that the next declaration gets.
    pub closed spec fn next_index(&self) -> nat {
        self.next_index as nat
    }

    /// No name is bound twice.
    closed spec fn distinct(&self) -> bool {
        forall|i: int, j: int|
            0 <= i < self.indices@.len() && 0 <= j < self.indices@.len() && i != j
                ==> self.indices@[i].name@ != self.indices@[j].name@
    }

    /// The invariant that every operation keeps: no name is bound twice, and
    /// every slot in use was handed out before the next free one.
    pub closed spec fn wf(&self) -> bool {
        &&& self.distinct()
        &&& forall|i: int|
            0 <= i < self.indices@.len() ==> (#[trigger] self.indices@[i]).index < self.next_index
    }

    /// In a well-formed table every slot in use is below the next free one.
    pub proof fn lemma_slots_below_next(&self, name: Seq<char>)
        requires
            self.wf(),
            self@.contains_key(name),
        ensures
            self@[name].0 < self.next_index(),
    {
        let i = choose|i: int| binds(self.indices@, i, name);
        assert(binds(self.indices@, i, name));
    }

    /// No variable, and slot 0 free.
    pub fn new() -> (stack: Self)
        ensures
            stack.wf(),
            stack@ == Map::<Seq<char>, (u8, JvmType)>::empty(),
            stack.next_index() == 0,
    {
        let stack = VariableStack { indices: Vec::new(), next_index: 0 };
        assert(stack@ =~= Map::<Seq<char>, (u8, JvmType)>::empty());
        stack
    }

    /// Where the binding of `name` stands, if there is one.
    fn position(&self, name: &String) -> (found: Option<usize>)
        ensures
            match found {
                Some(i) => binds(self.indices@, i as int, name@),
                None => forall|i: int| !binds(self.indices@, i, name@),
            },
    {
        let mut i: usize = 0;
        while i < self.indices.len()
            invariant
                i <= self.indices.len(),
                forall|k: int| 0 <= k < i ==> !binds(self.indices@, k, name@),
            decreases self.indices.len() - i,
        {
            proof {
                assert((self.indices@[i as int].name@ == name@) == (self.indices@[i as int].name@
                    =~= name@));
            }
            if self.indices[i].name == *name {
                return Some(i);
            }
            i += 1;
        }
        None
    }

    /// The slot and type of `name`, if it is in scope.
    pub fn get(&mut self, name: &String) -> (found: Option<(u8, JvmType)>)
        requires
            old(self).wf(),
        ensures
            *final(self) == *old(self),
            found == if old(self)@.contains_key(name@) {
                Some(old(self)@[name@])
            } else {
                None::<(u8, JvmType)>
            },
    {
        match self.position(name) {
            Some(i) => {
                proof {
                    let chosen = choose|k: int| binds(self.indices@, k, name@);
                    assert(binds(self.indices@, chosen, name@));
                    assert(chosen == i);
                }
                Some((self.indices[i].index, self.indices[i].jvm_type))
            },
            None => None,
        }
    }

    /// The number of slots handed out so far, which is the slot that the
    /// next declaration gets.
    pub fn slots(&self) -> (count: u8)
        ensures
            count == self.next_index(),
    {
        self.next_index
    }

    /// Whether every slot has been handed out.
    pub fn is_full(&self) -> (full: bool)
        ensures
            full == (self.next_index() >= u8::MAX),
            self.next_index() <= u8::MAX,
    {
        self.next_index == u8::MAX
    }

    /// Declares `name` with the given type in the next free slot, and
    /// returns that slot. An earlier variable of that name is shadowed.
    pub fn create(&mut self, name: String, jvm_type: JvmType) -> (index: u8)
        requires
            old(self).wf(),
            old(self).next_index() < u8::MAX,
        ensures
            final(self).wf(),
            index == old(self).next_index(),
            final(self).next_index() == old(self).next_index() + 1,
            final(self)@ == old(self)@.insert(name@, (index, jvm_type)),
    {
        let index = self.next_index;
        self.remove(&name);
        let ghost kept = self.indices@;
        let ghost without = self@;
        self.indices.push(Binding { name, index, jvm_type });
        self.next_index += 1;
        proof {
            let after = self.indices@;
            let last = kept.len() as int;
            assert(binds(after, last, name@));
            assert forall|i: int, j: int|
                0 <= i < after.len() && 0 <= j < after.len() && i != j implies after[i].name@
                != after[j].name@ by {
                if i < last && j < last {
                    assert(kept[i].name@ != kept[j].name@);
                } else if i < last {
                    assert(!binds(kept, i, name@));
                } else {
                    assert(!binds(kept, j, name@));
                }
            }
            assert forall|i: int| 0 <= i < after.len() implies (#[trigger] after[i]).index
                < self.next_index by {
                if i < last {
                    assert(after[i] == kept[i]);
                }
            }
            assert forall|n: Seq<char>| #[trigger]
                self@.contains_key(n) == without.insert(name@, (index, jvm_type)).contains_key(
                    n,
                ) by {
                if n == name@ {
                } else {
                    if exists|i: int| binds(kept, i, n) {
                        let i = choose|i: int| binds(kept, i, n);
                        assert(binds(after, i, n));
                    }
                    if exists|i: int| binds(after, i, n) {
                        let i = choose|i: int| binds(after, i, n);
                        assert(binds(kept, i, n));
                    }
                }
            }
            assert forall|n: Seq<char>| #[trigger] self@.contains_key(n) implies self@[n]
                == without.insert(name@, (index, jvm_type))[n] by {
                let i = choose|i: int| binds(after, i, n);
                assert(binds(after, i, n));
                if n == name@ {
                    if i != last {
                        assert(binds(kept, i, name@));
                    }
                } else {
                    assert(binds(kept, i, n));
                    let k = choose|k: int| binds(kept, k, n);
                    assert(binds(kept, k, n));
                    assert(k == i);
                }
            }
            assert(self@ =~= without.insert(name@, (index, jvm_type)));
            assert(without.insert(name@, (index, jvm_type)) =~= old(self)@.insert(
                name@,
                (index, jvm_type),
            ));
        }
        index
    }

    /// Takes `name` out of scope. Its slot stays taken.
    pub fn drop(&mut self, name: &str)
        requires
            old(self).wf(),
        ensures
            final(self).wf(),
            final(self).next_index() == old(self).next_index(),
            final(self)@ == old(self)@.remove(name@),
    {
        let owned = name.to_owned();
        self.remove(&owned);
    }

    /// Removes the binding of `name`, if there is one.
    fn remove(&mut self, name: &String)
        requires
            old(self).wf(),
        ensures
            final(self).wf(),
            final(self).next_index == old(self).next_index,
            final(self)@ == old(self)@.remove(name@),
            forall|i: int| !binds(final(self).indices@, i, name@),
    {
        match self.position(name) {
            Some(at) => {
                let ghost before = self.indices@;
                self.indices.remove(at);
                proof {
                    let after = self.indices@;
                    assert forall|i: int| 0 <= i < after.len() implies after[i] == before[if i
                        < at {
                        i
                    } else {
                        i + 1
                    }] by {}
                    assert forall|n: Seq<char>| #[trigger]
                        self@.contains_key(n) == old(self)@.remove(name@).contains_key(n) by {
                        if exists|i: int| binds(after, i, n) {
                            let i = choose|i: int| binds(after, i, n);
                            assert(binds(before, if i < at { i } else { i + 1 }, n));
                        }
                        if n != name@ && exists|i: int| binds(before, i, n) {
                            let i = choose|i: int| binds(before, i, n);
                            assert(binds(after, if i < at { i } else { i - 1 }, n));
                        }
                    }
                    assert forall|n: Seq<char>| #[trigger] self@.contains_key(n) implies self@[n]
                        == old(self)@.remove(name@)[n] by {
                        let i = choose|i: int| binds(after, i, n);
                        assert(binds(after, i, n));
                        let j = if i < at { i } else { i + 1 };
                        assert(binds(before, j, n));
                        let k = choose|k: int| binds(before, k, n);
                        assert(binds(before, k, n));
                        assert(k == j);
                    }
                    assert(self@ =~= old(self)@.remove(name@));
                }
            },
            None => {
                assert(self@ =~= old(self)@.remove(name@));
            },
        }
    }
}

} // verus!
