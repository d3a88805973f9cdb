use vstd::prelude::*;

use std::collections::HashSet;

use crate::codec::{encode_record, lemma_record_round_trip, record_bytes, RECORD_SIZE};
use crate::reading::CT;

verus! {

broadcast use vstd::std_specs::hash::group_hash_axioms;

/// Largest size, in bytes, that a shard may reach by an append.
pub const MAX_SHARD_SIZE: u64 = 65536;

/// Why a storage call failed.
#[derive(Clone, Copy, Debug, PartialEq, Eq, Structural)]
pub enum StoreError {
    /// The entry at this position of the storage root's listing is not a
    /// shard id: the root is not used by this store alone.
    InvalidShardName { index: usize },
    /// The active shard already has the largest id there is; no shard can
    /// follow it.
    ShardIdsExhausted,
}

/// What the store knows: the id of the shard that is appended to and the
/// ids of the shards it has seen.
pub struct ShardIndex {
    pub active: i32,
    pub known: Set<i32>,
}

impl ShardIndex {
    /// Ids start at one, and no known shard is newer than the active one.
    pub open spec fn wf(self) -> bool {
        &&& self.active >= 1
        &&& forall|s: i32| #[trigger] self.known.contains(s) ==> 1 <= s <= self.active
    }
}

/// The byte is an ASCII decimal digit.
pub open spec fn is_digit(c: u8) -> bool {
    48 <= c <= 57
}

/// The number written by the decimal digits `s`, the most significant first.
pub open spec fn digits_value(s: Seq<u8>) -> nat
    decreases s.len(),
{
    if s.len() == 0 {
        0
    } else {
        digits_value(s.drop_last()) * 10 + (s.last() - 48) as nat
    }
}

/// A shard's file name: decimal digits that write a positive `i32`.
pub open spec fn is_shard_name(s: Seq<u8>) -> bool {
    &&& s.len() > 0
    &&& forall|i: int| 0 <= i < s.len() ==> is_digit(#[trigger] s[i])
    &&& 1 <= digits_value(s) <= i32::MAX
}

/// Every name of the listing is a shard name.
pub open spec fn all_shard_names(names: Seq<Vec<u8>>) -> bool {
    forall|i: int| 0 <= i < names.len() ==> is_shard_name(#[trigger] names[i]@)
}

/// The shard ids that the listing `names` writes.
pub open spec fn listed_ids(names: Seq<Vec<u8>>) -> Set<i32> {
    Set::new(|x: i32| exists|i: int| 0 <= i < names.len() && digits_value(#[trigger] names[i]@) == x)
}

proof fn lemma_digits_prefix_le(s: Seq<u8>, j: int)
    requires
        0 <= j <= s.len(),
        forall|i: int| 0 <= i < s.len() ==> is_digit(#[trigger] s[i]),
    ensures
        digits_value(s.subrange(0, j)) <= digits_value(s),
    decreases s.len(),
{
    if j < s.len() {
        let t = s.drop_last();
        assert(t.subrange(0, j) =~= s.subrange(0, j));
        lemma_digits_prefix_le(t, j);
    } else {
        assert(s.subrange(0, j) =~= s);
    }
}

/// The id that the file name `name` writes, or `None` where it is no shard
/// name.
pub fn parse_shard_id(name: &[u8]) -> (r: Option<i32>)
    ensures
        r is Some <==> is_shard_name(name@),
        r matches Some(v) ==> v as int == digits_value(name@),
{
    if name.len() == 0 {
        return None;
    }
    let mut acc: u64 = 0;
    let mut i: usize = 0;
    while i < name.len()
        invariant
            i <= name@.len(),
            forall|k: int| 0 <= k < i ==> is_digit(#[trigger] name@[k]),
            acc as nat == digits_value(name@.subrange(0, i as int)),
            acc <= i32::MAX,
        decreases name@.len() - i,
    {
        let c = name[i];
        if c < 48 || c > 57 {
            return None;
        }
        assert(name@.subrange(0, i + 1).drop_last() =~= name@.subrange(0, i as int));
        acc = acc * 10 + (c - 48) as u64;
        i = i + 1;
        if acc > 2147483647 {
            proof {
                if forall|k: int| 0 <= k < name@.len() ==> is_digit(#[trigger] name@[k]) {
                    lemma_digits_prefix_le(name@, i as int);
                }
            }
            return None;
        }
    }
    assert(name@.subrange(0, i as int) =~= name@);
    if acc == 0 {
        return None;
    }
    Some(acc as i32)
}

/// The records of every phase unit of `cts`, back to back, in order.
pub open spec fn records_bytes(cts: Seq<CT>) -> Seq<u8>
    decreases cts.len(),
{
    if cts.len() == 0 {
        Seq::empty()
    } else {
        records_bytes(cts.drop_last()) + record_bytes(cts.last().spec_id(), cts.last().spec_reading())
    }
}

/// Appending `len` bytes to a shard of `size` bytes would take it past the
/// maximum shard size.
pub open spec fn overflows_shard(size: u64, len: nat) -> bool {
    size + len > MAX_SHARD_SIZE
}

/// The index after a save that appends `len` bytes to an active shard of
/// `size` bytes: the next id becomes active, and known, where the active
/// shard has no room.
pub open spec fn index_after_save(ix: ShardIndex, size: u64, len: nat) -> ShardIndex {
    if overflows_shard(size, len) {
        ShardIndex { active: (ix.active + 1) as i32, known: ix.known.insert((ix.active + 1) as i32) }
    } else {
        ix
    }
}

/// The largest shard id of the listing, or one for an empty listing.
pub open spec fn is_newest_id(v: i32, names: Seq<Vec<u8>>) -> bool {
    &&& v >= 1
    &&& forall|i: int| 0 <= i < names.len() ==> digits_value(#[trigger] names[i]@) <= v
    &&& (v == 1 || exists|i: int| 0 <= i < names.len() && digits_value(#[trigger] names[i]@) == v)
}

/// One save's instruction: append `bytes` to the shard `shard`, creating it
/// where it does not exist, and flush.
pub struct ShardWrite {
    pub shard: i32,
    pub bytes: Vec<u8>,
}

/// The shard store: the active shard's id and the set of known shard ids.
/// Shard files are named by the decimal string of their id.
pub struct CTStorage {
    readings_shard_counter: i32,
    readings_shards: HashSet<i32>,
}

impl View for CTStorage {
    type V = ShardIndex;

    closed spec fn view(&self) -> ShardIndex {
        ShardIndex { active: self.readings_shard_counter, known: self.readings_shards@ }
    }
}

impl CTStorage {
    #[verifier::type_invariant]
    spec fn index_is_wf(self) -> bool {
        self@.wf()
    }

    /// A store with no known shard, whose first write goes to shard one.
    pub fn new() -> (r: CTStorage)
        ensures
            r@.wf(),
            r@.active == 1,
            r@.known == Set::<i32>::empty(),
    {
        CTStorage { readings_shard_counter: 1, readings_shards: HashSet::new() }
    }

    /// The id of the shard that the next save appends to, unless it rotates.
    pub fn active_shard(&self) -> (r: i32)
        ensures
            r == self@.active,
    {
        self.readings_shard_counter
    }

    /// Whether `id` is a known shard.
    pub fn is_known(&self, id: i32) -> (r: bool)
        ensures
            r == self@.known.contains(id),
    {
        self.readings_shards.contains(&id)
    }

    /// Rebuilds the index from the listing of the storage root: every name
    /// must be a shard id (the first that is not is reported); the known set becomes the listed ids and the
    /// active shard the newest of them (one for an empty listing). On a bad
    /// name nothing changes.
    pub fn find_newest_readings_shard_num(&mut self, names: &[Vec<u8>]) -> (r: Result<(), StoreError>)
        ensures
            r is Ok <==> all_shard_names(names@),
            r matches Err(e) ==> {
                &&& e matches StoreError::InvalidShardName { index }
                &&& index < names@.len()
                &&& !is_shard_name(names@[index as int]@)
                &&& all_shard_names(names@.subrange(0, index as int))
                &&& final(self)@ == old(self)@
            },
            r is Ok ==> {
                &&& final(self)@.known == listed_ids(names@)
                &&& is_newest_id(final(self)@.active, names@)
                &&& final(self)@.wf()
            },
    {
        let mut max_num: i32 = 1;
        let mut found: HashSet<i32> = HashSet::new();
        let mut i: usize = 0;
        while i < names.len()
            invariant
                i <= names@.len(),
                all_shard_names(names@.subrange(0, i as int)),
                found@ == listed_ids(names@.subrange(0, i as int)),
                is_newest_id(max_num, names@.subrange(0, i as int)),
            decreases names@.len() - i,
        {
            let ghost before = names@.subrange(0, i as int);
            let ghost after = names@.subrange(0, i + 1);
            let name = names[i].as_slice();
            assert(name@ == after[i as int]@);
            match parse_shard_id(name) {
                None => {
                    return Err(StoreError::InvalidShardName { index: i });
                },
                Some(num) => {
                    assert(digits_value(after[i as int]@) == num as int);
                    assert forall|k: int| 0 <= k < after.len() implies is_shard_name(#[trigger] after[k]@) by {
                        if k < i {
                            assert(after[k] == before[k]);
                        } else {
                            assert(after[k] == names@[i as int]);
                        }
                    }
                    let ghost ids_after = listed_ids(after);
                    assert forall|x: i32| ids_after.contains(x) implies found@.insert(num).contains(x) by {
                        let k = choose|k: int| 0 <= k < after.len() && digits_value(#[trigger] after[k]@) == x;
                        if k < i {
                            assert(after[k] == before[k]);
                            assert(listed_ids(before).contains(x));
                        } else {
                            assert(after[k] == names@[i as int]);
                        }
                    }
                    assert(ids_after.contains(num));
                    assert forall|x: i32| found@.insert(num).contains(x) implies ids_after.contains(x) by {
                        if x != num {
                            let k = choose|k: int| 0 <= k < before.len() && digits_value(#[trigger] before[k]@) == x;
                            assert(after[k] == before[k]);
                        }
                    }
                    assert(found@.insert(num) =~= ids_after);
                    found.insert(num);
                    let old_max = max_num;
                    if num > max_num {
                        max_num = num;
                    }
                    assert forall|k: int| 0 <= k < after.len() implies digits_value(#[trigger] after[k]@) <= max_num by {
                        if k < i {
                            assert(after[k] == before[k]);
                        } else {
                            assert(after[k] == names@[i as int]);
                        }
                    }
                    proof {
                        if max_num != 1 && max_num == old_max {
                            let k = choose|k: int|
                                0 <= k < before.len() && digits_value(#[trigger] before[k]@) == old_max;
                            assert(after[k] == before[k]);
                        }
                        if max_num == num {
                            assert(after[i as int] == names@[i as int]);
                            assert(digits_value(after[i as int]@) == max_num);
                        }
                    }
                },
            }
            i = i + 1;
        }
        assert(names@.subrange(0, i as int) =~= names@);
        assert forall|s: i32| #[trigger] found@.contains(s) implies 1 <= s <= max_num by {
            let k = choose|k: int| 0 <= k < names@.len() && digits_value(#[trigger] names@[k]@) == s;
            assert(is_shard_name(names@[k]@));
        }
        *self = CTStorage { readings_shard_counter: max_num, readings_shards: found };
        Ok(())
    }

    /// Plans one save of the readings of `cts`, given the active shard's
    /// current size in bytes (zero for a shard not written yet). Where the
    /// records would take the active shard past `MAX_SHARD_SIZE`, the next id
    /// becomes active and known first. The result names the shard to append
    /// to and holds every phase unit's record, in order.
    pub fn save_to_storage(&mut self, cts: &[CT], active_size: u64) -> (r: Result<ShardWrite, StoreError>)
        ensures
            final(self)@.wf(),
            r is Err <==> overflows_shard(active_size, (RECORD_SIZE * cts@.len()) as nat)
                && old(self)@.active == i32::MAX,
            r matches Err(e) ==> e == StoreError::ShardIdsExhausted && final(self)@ == old(self)@,
            r matches Ok(w) ==> {
                &&& w.bytes@ == records_bytes(cts@)
                &&& w.bytes@.len() == RECORD_SIZE * cts@.len()
                &&& final(self)@ == index_after_save(old(self)@, active_size, w.bytes@.len())
                &&& w.shard == final(self)@.active
            },
    {
        proof {
            use_type_invariant(&*self);
        }
        let mut bytes: Vec<u8> = Vec::new();
        for i in 0..cts.len()
            invariant
                bytes@ == records_bytes(cts@.subrange(0, i as int)),
                bytes@.len() == RECORD_SIZE * i,
        {
            proof {
                lemma_record_round_trip(cts@[i as int].spec_id(), cts@[i as int].spec_reading());
                assert(cts@.subrange(0, i + 1).drop_last() =~= cts@.subrange(0, i as int));
            }
            encode_record(cts[i].id(), &cts[i].reading(), &mut bytes);
        }
        assert(cts@.subrange(0, cts@.len() as int) =~= cts@);
        let len = bytes.len() as u64;
        if active_size > MAX_SHARD_SIZE || len > MAX_SHARD_SIZE - active_size {
            if self.readings_shard_counter == i32::MAX {
                return Err(StoreError::ShardIdsExhausted);
            }
            let next = self.readings_shard_counter + 1;
            let mut known: HashSet<i32> = HashSet::new();
            std::mem::swap(&mut known, &mut self.readings_shards);
            known.insert(next);
            assert forall|s: i32| #[trigger] known@.contains(s) implies 1 <= s <= next by {
                if s != next {
                    assert(old(self)@.known.contains(s));
                }
            }
            *self = CTStorage { readings_shard_counter: next, readings_shards: known };
        }
        Ok(ShardWrite { shard: self.readings_shard_counter, bytes })
    }
}

/// A save appends to the active shard only where the shard stays within
/// `MAX_SHARD_SIZE` after the append. Otherwise it moves to an id greater
/// than the active one and than every known one, so a fresh shard takes the
/// records and no shard grows past the bound by more than one save's
/// records.
pub proof fn lemma_save_keeps_shards_bounded(ix: ShardIndex, active_size: u64, len: nat)
    requires
        ix.wf(),
        ix.active < i32::MAX,
    ensures
        index_after_save(ix, active_size, len).wf(),
        index_after_save(ix, active_size, len).active == ix.active ==> active_size + len <= MAX_SHARD_SIZE,
        index_after_save(ix, active_size, len).active != ix.active ==> {
            &&& index_after_save(ix, active_size, len).active == ix.active + 1
            &&& forall|s: i32| #[trigger] ix.known.contains(s) ==> s < index_after_save(ix, active_size, len).active
        },
{
}

} // verus!