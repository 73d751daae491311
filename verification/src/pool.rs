//! The pool of token identifiers that are still to be handed out.

use vstd::prelude::*;
use vstd::set_lib::*;

verus! {

/// The error of [`MintablePool::remove`]: the identifier is not in the pool.
#[derive(Debug, PartialEq, Eq, Structural, Clone, Copy)]
pub struct AlreadyAllocated;

/// The identifiers that a row of presence flags marks as available: flag
/// `i` stands for identifier `i + 1`.
spec fn available_ids(flags: Seq<bool>) -> Set<int> {
    Set::new(|id: int| 1 <= id <= flags.len() && flags[id - 1])
}

/// Whether `id` is the smallest member of `ids`.
pub open spec fn is_lowest(ids: Set<int>, id: int) -> bool {
    ids.contains(id) && forall|other: int| ids.contains(other) ==> id <= other
}

/// The available identifiers are finite in number and lie in `1..=len`.
proof fn lemma_available_ids_bounded(flags: Seq<bool>)
    ensures
        available_ids(flags).subset_of(set_int_range(1, flags.len() as int + 1)),
        available_ids(flags).finite(),
        available_ids(flags).len() <= flags.len(),
{
    lemma_int_range(1, flags.len() as int + 1);
    lemma_len_subset(available_ids(flags), set_int_range(1, flags.len() as int + 1));
}

proof fn lemma_clear_flag(flags: Seq<bool>, id: int)
    requires
        1 <= id <= flags.len(),
        flags[id - 1],
    ensures
        available_ids(flags.update(id - 1, false)) == available_ids(flags).remove(id),
        available_ids(flags.update(id - 1, false)).len() == available_ids(flags).len() - 1,
        available_ids(flags).len() >= 1,
{
    lemma_available_ids_bounded(flags);
    assert(available_ids(flags).contains(id));
    assert(available_ids(flags.update(id - 1, false)) =~= available_ids(flags).remove(id));
}

proof fn lemma_set_flag(flags: Seq<bool>, id: int)
    requires
        1 <= id <= flags.len(),
        !flags[id - 1],
    ensures
        available_ids(flags.update(id - 1, true)) == available_ids(flags).insert(id),
        available_ids(flags.update(id - 1, true)).len() == available_ids(flags).len() + 1,
        available_ids(flags).len() < flags.len(),
{
    lemma_available_ids_bounded(flags);
    lemma_available_ids_bounded(flags.update(id - 1, true));
    assert(!available_ids(flags).contains(id));
    assert(available_ids(flags.update(id - 1, true)) =~= available_ids(flags).insert(id));
}

proof fn lemma_push_flag(flags: Seq<bool>, flag: bool)
    ensures
        flag ==> available_ids(flags.push(flag)) == available_ids(flags).insert(
            flags.len() as int + 1,
        ),
        !flag ==> available_ids(flags.push(flag)) == available_ids(flags),
        available_ids(flags.push(flag)).len() == available_ids(flags).len() + if flag {
            1int
        } else {
            0int
        },
{
    lemma_available_ids_bounded(flags);
    let next = flags.len() as int + 1;
    assert(!available_ids(flags).contains(next));
    if flag {
        assert(available_ids(flags.push(flag)) =~= available_ids(flags).insert(next));
    } else {
        assert(available_ids(flags.push(flag)) =~= available_ids(flags));
    }
}

/// The identifiers in `1..=capacity` that have not been handed out, with
/// their number.
///
/// The view is the set of available identifiers. The count that the pool
/// keeps beside its flags equals the size of that set in every pool.
#[derive(Debug)]
pub struct MintablePool {
    present: Vec<bool>,
    remaining: u32,
}

impl View for MintablePool {
    type V = Set<int>;

    closed spec fn view(&self) -> Set<int> {
        available_ids(self.present@)
    }
}

impl MintablePool {
    #[verifier::type_invariant]
    spec fn consistent(self) -> bool {
        &&& self.present@.len() <= u32::MAX
        &&& self.remaining as nat == available_ids(self.present@).len()
    }

    /// The largest identifier the pool was made for.
    pub closed spec fn capacity(&self) -> nat {
        self.present@.len()
    }

    /// The available identifiers of any pool are finite in number and lie in
    /// `1..=capacity`.
    pub proof fn lemma_bounded(&self)
        ensures
            self@.finite(),
            self@.len() <= self.capacity(),
            forall|id: int| self@.contains(id) ==> 1 <= id <= self.capacity(),
    {
        lemma_available_ids_bounded(self.present@);
    }

    /// A pool in which every identifier of `1..=capacity` is available.
    pub fn initialize(capacity: u32) -> (pool: MintablePool)
        ensures
            pool@ == set_int_range(1, capacity + 1),
            pool.capacity() == capacity,
            pool@.len() == capacity,
    {
        let mut present: Vec<bool> = Vec::new();
        let mut filled: u32 = 0;
        proof {
            assert(available_ids(present@) =~= set_int_range(1, 1));
        }
        while filled < capacity
            invariant
                filled <= capacity,
                present@.len() == filled,
                available_ids(present@) == set_int_range(1, filled + 1),
            decreases capacity - filled,
        {
            proof {
                lemma_push_flag(present@, true);
                assert(set_int_range(1, filled + 1).insert(filled + 1) =~= set_int_range(
                    1,
                    filled + 2,
                ));
            }
            present.push(true);
            filled = filled + 1;
        }
        proof {
            lemma_int_range(1, capacity + 1);
        }
        MintablePool { present, remaining: capacity }
    }

    /// An empty pool for identifiers `1..=capacity`.
    fn exhausted(capacity: u32) -> (pool: MintablePool)
        ensures
            pool@ == Set::<int>::empty(),
            pool.capacity() == capacity,
    {
        let mut present: Vec<bool> = Vec::new();
        let mut filled: u32 = 0;
        proof {
            assert(available_ids(present@) =~= Set::<int>::empty());
        }
        while filled < capacity
            invariant
                filled <= capacity,
                present@.len() == filled,
                available_ids(present@) == Set::<int>::empty(),
            decreases capacity - filled,
        {
            proof {
                lemma_push_flag(present@, false);
            }
            present.push(false);
            filled = filled + 1;
        }
        MintablePool { present, remaining: 0 }
    }

    /// The pool for identifiers `1..=capacity` in which exactly the members
    /// of `available` are available; `None` where a member lies outside
    /// `1..=capacity` or occurs twice.
    pub fn restore(capacity: u32, available: &Vec<u32>) -> (r: Option<MintablePool>)
        ensures
            r is Some <==> (forall|i: int|
                0 <= i < available@.len() ==> 1 <= #[trigger] available@[i] <= capacity)
                && available@.no_duplicates(),
            r matches Some(pool) ==> pool.capacity() == capacity && forall|id: int|
                pool@.contains(id) <==> exists|i: int|
                    0 <= i < available@.len() && #[trigger] available@[i] == id,
    {
        let mut pool = MintablePool::exhausted(capacity);
        let mut done: usize = 0;
        while done < available.len()
            invariant
                done <= available@.len(),
                pool.capacity() == capacity,
                forall|i: int| 0 <= i < done ==> 1 <= #[trigger] available@[i] <= capacity,
                forall|i: int, j: int|
                    0 <= i < j < done ==> #[trigger] available@[i] != #[trigger] available@[j],
                forall|id: int|
                    pool@.contains(id) <==> exists|i: int|
                        0 <= i < done && #[trigger] available@[i] == id,
            decreases available@.len() - done,
        {
            let id = available[done];
            if id == 0 || id > capacity || pool.contains(id) {
                proof {
                    if pool@.contains(id as int) {
                        let i = choose|i: int| 0 <= i < done && #[trigger] available@[i] == id;
                        assert(available@[i] == available@[done as int]);
                    }
                }
                return None;
            }
            let ghost before = pool@;
            pool.put_back(id);
            proof {
                assert forall|x: int| pool@.contains(x) <==> exists|i: int|
                    0 <= i < done + 1 && #[trigger] available@[i] == x by {
                    if x == id {
                        assert(available@[done as int] == x);
                    } else if before.contains(x) {
                        let i = choose|i: int| 0 <= i < done && #[trigger] available@[i] == x;
                        assert(0 <= i < done + 1 && available@[i] == x);
                    }
                }
            }
            done = done + 1;
        }
        Some(pool)
    }

    /// Whether `id` is available.
    pub fn contains(&self, id: u32) -> (present: bool)
        ensures
            present == self@.contains(id as int),
    {
        if id == 0 || id as usize > self.present.len() {
            false
        } else {
            self.present[(id - 1) as usize]
        }
    }

    /// How many identifiers are available.
    pub fn remaining(&self) -> (count: u32)
        ensures
            count == self@.len(),
    {
        proof {
            use_type_invariant(self);
        }
        self.remaining
    }

    /// The largest identifier the pool was made for.
    pub fn max_id(&self) -> (capacity: u32)
        ensures
            capacity == self.capacity(),
    {
        proof {
            use_type_invariant(self);
        }
        self.present.len() as u32
    }

    /// The smallest available identifier, if there is one.
    pub fn lowest_available(&self) -> (lowest: Option<u32>)
        ensures
            match lowest {
                Some(id) => is_lowest(self@, id as int),
                None => self@ == Set::<int>::empty(),
            },
    {
        proof {
            use_type_invariant(self);
        }
        let mut index: usize = 0;
        while index < self.present.len()
            invariant
                index <= self.present@.len(),
                self.present@.len() <= u32::MAX,
                forall|i: int| 0 <= i < index ==> !self.present@[i],
            decreases self.present@.len() - index,
        {
            if self.present[index] {
                assert(is_lowest(self@, index + 1));
                return Some((index + 1) as u32);
            }
            index = index + 1;
        }
        assert(self@ =~= Set::<int>::empty());
        None
    }

    /// Takes `id` out of the pool; fails, and changes nothing, where `id` is
    /// not available.
    pub fn remove(&mut self, id: u32) -> (r: Result<(), AlreadyAllocated>)
        ensures
            r is Ok <==> old(self)@.contains(id as int),
            r is Ok ==> final(self)@ == old(self)@.remove(id as int),
            r is Ok ==> final(self)@.len() == old(self)@.len() - 1,
            r is Err ==> *final(self) == *old(self),
            final(self).capacity() == old(self).capacity(),
    {
        if !self.contains(id) {
            return Err(AlreadyAllocated);
        }
        proof {
            use_type_invariant(&*self);
            assert(available_ids(Seq::<bool>::empty()) =~= Set::<int>::empty());
        }
        let mut taken = MintablePool { present: Vec::new(), remaining: 0 };
        core::mem::swap(self, &mut taken);
        let MintablePool { present: mut present, remaining } = taken;
        proof {
            lemma_clear_flag(present@, id as int);
        }
        present.set((id - 1) as usize, false);
        *self = MintablePool { present, remaining: remaining - 1 };
        Ok(())
    }

    /// Makes `id` available again.
    pub(crate) fn put_back(&mut self, id: u32)
        requires
            1 <= id <= old(self).capacity(),
            !old(self)@.contains(id as int),
        ensures
            final(self)@ == old(self)@.insert(id as int),
            final(self)@.len() == old(self)@.len() + 1,
            final(self).capacity() == old(self).capacity(),
    {
        proof {
            use_type_invariant(&*self);
            assert(available_ids(Seq::<bool>::empty()) =~= Set::<int>::empty());
        }
        let mut taken = MintablePool { present: Vec::new(), remaining: 0 };
        core::mem::swap(self, &mut taken);
        let MintablePool { present: mut present, remaining } = taken;
        proof {
            lemma_set_flag(present@, id as int);
        }
        present.set((id - 1) as usize, true);
        *self = MintablePool { present, remaining: remaining + 1 };
    }
}

} // verus!
