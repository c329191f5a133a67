//! The component registry: the durable, capacity-bounded list of component
//! ids the application processor trusts to boot.
//!
//! The registry persists into a single flash cell. That cell is modeled here
//! as a value owned by the registry, so that the contract of every operation
//! can say exactly how the durable copy and the in-memory copy relate: after
//! `init` and after every successful `swap_component` the two are identical
//! (a write is always read back before it is trusted).

use vstd::prelude::*;
use crate::error::ErrorKind;

verus! {

/// Number of id slots in a registry record.
pub const REGISTRY_CAPACITY: usize = 32;

/// One persisted registry record: a magic tag that distinguishes a formatted
/// registry from blank storage, the live count, and the id slots.
pub struct FlashEntry {
    pub magic: u32,
    pub count: u32,
    pub ids: Vec<u32>,
}

impl FlashEntry {
    /// A well-formed record: full capacity allocated, count within it.
    pub open spec fn wf(self) -> bool {
        self.ids@.len() == REGISTRY_CAPACITY && self.count <= REGISTRY_CAPACITY
    }

    /// The live entries: the first `count` slots, in insertion order.
    pub open spec fn live(self) -> Seq<u32> {
        self.ids@.subrange(0, self.count as int)
    }

    /// Field-wise equality of two records.
    pub open spec fn same_as(self, other: FlashEntry) -> bool {
        self.magic == other.magic && self.count == other.count && self.ids@ == other.ids@
    }
}

/// Replacing the first occurrence of `old_id` with `new_id`; the list is
/// unchanged when `old_id` is absent.
pub open spec fn spec_swap(ids: Seq<u32>, old_id: u32, new_id: u32) -> Seq<u32>
    decreases ids.len(),
{
    if ids.len() == 0 {
        ids
    } else if ids.first() == old_id {
        seq![new_id] + ids.drop_first()
    } else {
        seq![ids.first()] + spec_swap(ids.drop_first(), old_id, new_id)
    }
}

/// A sequence of swap operations, applied in order; each operation is a pair
/// of the id to replace and the id that takes its place.
pub open spec fn apply_swaps(ids: Seq<u32>, ops: Seq<(u32, u32)>) -> Seq<u32>
    decreases ops.len(),
{
    if ops.len() == 0 {
        ids
    } else {
        apply_swaps(spec_swap(ids, ops.first().0, ops.first().1), ops.drop_first())
    }
}

/// When `j` is the first index holding `old_id`, the swap is exactly an
/// update of slot `j`.
pub proof fn lemma_spec_swap_at_first(ids: Seq<u32>, old_id: u32, new_id: u32, j: int)
    requires
        0 <= j < ids.len(),
        ids[j] == old_id,
        forall|i: int| 0 <= i < j ==> ids[i] != old_id,
    ensures
        spec_swap(ids, old_id, new_id) == ids.update(j, new_id),
    decreases ids.len(),
{
    if j == 0 {
        assert(seq![new_id] + ids.drop_first() =~= ids.update(0, new_id));
    } else {
        lemma_spec_swap_at_first(ids.drop_first(), old_id, new_id, j - 1);
        assert(seq![ids.first()] + ids.drop_first().update(j - 1, new_id) =~= ids.update(
            j,
            new_id,
        ));
    }
}

/// When `old_id` is absent, the swap changes nothing.
pub proof fn lemma_spec_swap_absent(ids: Seq<u32>, old_id: u32, new_id: u32)
    requires
        forall|i: int| 0 <= i < ids.len() ==> ids[i] != old_id,
    ensures
        spec_swap(ids, old_id, new_id) == ids,
    decreases ids.len(),
{
    if ids.len() > 0 {
        lemma_spec_swap_absent(ids.drop_first(), old_id, new_id);
        assert(seq![ids.first()] + ids.drop_first() =~= ids);
    }
}

/// A swap never changes the number of live entries.
pub proof fn lemma_spec_swap_preserves_len(ids: Seq<u32>, old_id: u32, new_id: u32)
    ensures
        spec_swap(ids, old_id, new_id).len() == ids.len(),
    decreases ids.len(),
{
    if ids.len() > 0 && ids.first() != old_id {
        lemma_spec_swap_preserves_len(ids.drop_first(), old_id, new_id);
    }
}

/// Registry round-trip law: however many swaps are applied in order, the
/// number of live entries never changes.
pub proof fn lemma_apply_swaps_preserves_len(ids: Seq<u32>, ops: Seq<(u32, u32)>)
    ensures
        apply_swaps(ids, ops).len() == ids.len(),
    decreases ops.len(),
{
    if ops.len() > 0 {
        lemma_spec_swap_preserves_len(ids, ops.first().0, ops.first().1);
        lemma_apply_swaps_preserves_len(
            spec_swap(ids, ops.first().0, ops.first().1),
            ops.drop_first(),
        );
    }
}

/// Registry round-trip law, step form: extending an operation sequence by
/// one swap applies that swap to the list the earlier operations produced.
/// Together with `swap_component`'s contract this says the registry after
/// any run of successful swaps reads exactly as the fold of those swaps over
/// the initial list.
pub proof fn lemma_apply_swaps_snoc(ids: Seq<u32>, ops: Seq<(u32, u32)>, op: (u32, u32))
    ensures
        apply_swaps(ids, ops.push(op)) == spec_swap(apply_swaps(ids, ops), op.0, op.1),
    decreases ops.len(),
{
    if ops.len() == 0 {
        assert(ops.push(op).drop_first() =~= Seq::<(u32, u32)>::empty());
        assert(ops.push(op).first() == op);
        assert(apply_swaps(ids, ops.push(op)) == apply_swaps(
            spec_swap(ids, op.0, op.1),
            Seq::<(u32, u32)>::empty(),
        ));
        assert(apply_swaps(spec_swap(ids, op.0, op.1), Seq::<(u32, u32)>::empty()) == spec_swap(
            ids,
            op.0,
            op.1,
        ));
        assert(apply_swaps(ids, ops) == ids);
    } else {
        let x = spec_swap(ids, ops.first().0, ops.first().1);
        lemma_apply_swaps_snoc(x, ops.drop_first(), op);
        assert(ops.push(op).drop_first() =~= ops.drop_first().push(op));
        assert(ops.push(op).first() == ops.first());
        assert(apply_swaps(ids, ops.push(op)) == apply_swaps(x, ops.drop_first().push(op)));
        assert(apply_swaps(ids, ops) == apply_swaps(x, ops.drop_first()));
    }
}

/// The component registry. `durable` models the flash cell it persists into
/// (`None` is blank or erased storage); `entry` is the in-memory copy that is
/// re-read from the cell after every write.
pub struct Registry {
    /// Model of the flash cell; `None` is blank or erased storage.
    pub durable: Option<FlashEntry>,
    /// Whether `init` has validated or formatted the backing store.
    pub initialized: bool,
    /// The in-memory copy, re-read from the cell after every write.
    pub entry: FlashEntry,
}

/// Copies an id vector; the model of a flash read or write moving a record.
fn copy_ids(v: &Vec<u32>) -> (r: Vec<u32>)
    ensures
        r@ == v@,
{
    let mut r: Vec<u32> = Vec::new();
    let mut k: usize = 0;
    while k < v.len()
        invariant
            0 <= k <= v@.len(),
            r@ == v@.subrange(0, k as int),
        decreases v@.len() - k,
    {
        let ghost prev: Seq<u32> = r@;
        r.push(v[k]);
        proof {
            assert(prev.push(v@[k as int]) =~= v@.subrange(0, k + 1));
        }
        k = k + 1;
    }
    proof {
        assert(v@.subrange(0, v@.len() as int) =~= v@);
    }
    r
}

impl Registry {
    /// Whether `init` has validated or formatted the backing store.
    pub open spec fn is_initialized(self) -> bool {
        self.initialized
    }

    /// What the modeled flash cell holds.
    pub open spec fn spec_durable(self) -> Option<FlashEntry> {
        self.durable
    }

    /// The live entries as the registry reads them.
    pub open spec fn live(self) -> Seq<u32> {
        self.entry.live()
    }

    /// Well-formedness: the in-memory record is in bounds and, once
    /// initialized, the durable copy holds exactly the same record.
    pub open spec fn wf(self) -> bool {
        &&& self.entry.wf()
        &&& (self.initialized ==> match self.durable {
            Some(e) => e.same_as(self.entry),
            None => false,
        })
    }

    /// True when the store holds a formatted registry tagged with `magic`.
    pub open spec fn storage_valid(self, magic: u32) -> bool {
        match self.durable {
            Some(e) => e.magic == magic && e.wf(),
            None => false,
        }
    }

    /// The live entries of the stored record (meaningful when the storage is
    /// valid).
    pub open spec fn storage_live(self) -> Seq<u32> {
        match self.durable {
            Some(e) => e.live(),
            None => Seq::empty(),
        }
    }

    /// Powers up a registry over the given flash contents. Nothing may be
    /// read or swapped before `init`.
    pub fn from_storage(durable: Option<FlashEntry>) -> (r: Registry)
        ensures
            r.wf(),
            !r.is_initialized(),
            r.spec_durable() == durable,
    {
        let mut blank: Vec<u32> = Vec::new();
        let mut k: usize = 0;
        while k < REGISTRY_CAPACITY
            invariant
                0 <= k <= REGISTRY_CAPACITY,
                blank@.len() == k,
            decreases REGISTRY_CAPACITY - k,
        {
            blank.push(0);
            k = k + 1;
        }
        Registry {
            durable,
            initialized: false,
            entry: FlashEntry { magic: 0, count: 0, ids: blank },
        }
    }

    /// Initializes the registry: a valid store tagged `magic` is adopted as
    /// it is; anything else is formatted fresh with the provisioned ids.
    /// Must be called once, before any read or swap.
    pub fn init(&mut self, magic: u32, provisioned: &Vec<u32>) -> (r: Result<(), ErrorKind>)
        requires
            old(self).wf(),
            !old(self).is_initialized(),
            provisioned@.len() <= REGISTRY_CAPACITY,
        ensures
            final(self).wf(),
            final(self).is_initialized(),
            r == Ok::<(), ErrorKind>(()),
            old(self).storage_valid(magic) ==> final(self).live() == old(self).storage_live()
                && final(self).spec_durable() == old(self).spec_durable(),
            !old(self).storage_valid(magic) ==> final(self).live() == provisioned@,
    {
        let valid: bool = match &self.durable {
            Some(e) => e.magic == magic && e.count as usize <= REGISTRY_CAPACITY && e.ids.len()
                == REGISTRY_CAPACITY,
            None => false,
        };
        if valid {
            match &self.durable {
                Some(e) => {
                    self.entry = FlashEntry { magic: e.magic, count: e.count, ids: copy_ids(&e.ids) };
                },
                None => {},
            }
            self.initialized = true;
            proof {
                assert(self.entry.live() =~= old(self).storage_live());
            }
        } else {
            let mut ids = copy_ids(provisioned);
            while ids.len() < REGISTRY_CAPACITY
                invariant
                    provisioned@.len() <= ids@.len() <= REGISTRY_CAPACITY,
                    ids@.subrange(0, provisioned@.len() as int) == provisioned@,
                decreases REGISTRY_CAPACITY - ids@.len(),
            {
                let ghost prev: Seq<u32> = ids@;
                ids.push(0);
                proof {
                    assert(ids@.subrange(0, provisioned@.len() as int) =~= prev.subrange(
                        0,
                        provisioned@.len() as int,
                    ));
                }
            }
            let count: u32 = provisioned.len() as u32;
            self.entry = FlashEntry { magic, count, ids };
            self.durable = Some(
                FlashEntry {
                    magic: self.entry.magic,
                    count: self.entry.count,
                    ids: copy_ids(&self.entry.ids),
                },
            );
            self.initialized = true;
            proof {
                assert(self.entry.live() =~= provisioned@);
            }
        }
        Ok(())
    }

    /// A fresh snapshot of the live entries; fails only before `init`.
    pub fn get_component_ids(&self) -> (r: Result<Vec<u32>, ErrorKind>)
        requires
            self.wf(),
        ensures
            match r {
                Ok(ids) => self.is_initialized() && ids@ == self.live(),
                Err(e) => !self.is_initialized() && e == ErrorKind::Uninitialized,
            },
    {
        if !self.initialized {
            return Err(ErrorKind::Uninitialized);
        }
        let count: usize = self.entry.count as usize;
        let mut r: Vec<u32> = Vec::new();
        let mut k: usize = 0;
        while k < count
            invariant
                0 <= k <= count,
                count <= self.entry.ids@.len(),
                count == self.entry.count,
                r@ == self.entry.ids@.subrange(0, k as int),
            decreases count - k,
    {
            let ghost prev: Seq<u32> = r@;
            r.push(self.entry.ids[k]);
            proof {
                assert(prev.push(self.entry.ids@[k as int]) =~= self.entry.ids@.subrange(
                    0,
                    k + 1,
                ));
            }
            k = k + 1;
        }
        Ok(r)
    }

    /// Replaces the first live occurrence of `id_old` with `id_new`, writes
    /// the updated record to the store and reads it back. The count never
    /// changes; `NotFound` (with the registry untouched) exactly when
    /// `id_old` is not live; never a storage fault in this model.
    pub fn swap_component(&mut self, id_old: u32, id_new: u32) -> (r: Result<(), ErrorKind>)
        requires
            old(self).wf(),
        ensures
            final(self).wf(),
            match r {
                Ok(()) => old(self).is_initialized() && old(self).live().contains(id_old)
                    && final(self).is_initialized()
                    && final(self).live() == spec_swap(old(self).live(), id_old, id_new)
                    && final(self).live().len() == old(self).live().len(),
                Err(e) => *final(self) == *old(self) && match e {
                    ErrorKind::Uninitialized => !old(self).is_initialized(),
                    ErrorKind::NotFound => old(self).is_initialized() && !old(self).live().contains(
                        id_old,
                    ),
                    _ => false,
                },
            },
    {
        if !self.initialized {
            return Err(ErrorKind::Uninitialized);
        }
        let count: usize = self.entry.count as usize;
        let mut j: usize = 0;
        while j < count && self.entry.ids[j] != id_old
            invariant
                0 <= j <= count,
                count <= self.entry.ids@.len(),
                count == self.entry.count,
                forall|i: int| 0 <= i < j ==> self.entry.ids@[i] != id_old,
            decreases count - j,
        {
            j = j + 1;
        }
        if j == count {
            proof {
                assert(forall|i: int|
                    0 <= i < old(self).live().len() ==> old(self).live()[i] != id_old);
            }
            return Err(ErrorKind::NotFound);
        }
        proof {
            assert(old(self).live()[j as int] == id_old);
        }
        self.entry.ids.set(j, id_new);
        self.durable = Some(
            FlashEntry {
                magic: self.entry.magic,
                count: self.entry.count,
                ids: copy_ids(&self.entry.ids),
            },
        );
        let read_back = match &self.durable {
            Some(e) => FlashEntry { magic: e.magic, count: e.count, ids: copy_ids(&e.ids) },
            None => FlashEntry { magic: 0, count: 0, ids: Vec::new() },
        };
        self.entry = read_back;
        proof {
            lemma_spec_swap_at_first(old(self).live(), id_old, id_new, j as int);
            assert(self.entry.live() =~= old(self).live().update(j as int, id_new));
        }
        Ok(())
    }
}

} // verus!
