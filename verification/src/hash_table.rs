//! Lossy transposition cache: a fixed array of 8-byte slots mapping position
//! keys to cached evaluations. Indexing uses the low 32 key bits, verification
//! the high 32; collisions always replace. The cache is advisory: a wrong or
//! missing answer never affects correctness of the search, only its speed.

use vstd::prelude::*;
use vstd::arithmetic::div_mod::{lemma_multiply_divide_lt, lemma_mod_bound, lemma_div_pos_is_pos};
use vstd::arithmetic::power2::lemma2_to64;
use vstd::bits::{lemma_low_bits_mask_values, lemma_u64_low_bits_mask_is_mod, lemma_u64_shr_is_div};
use crate::score::Score;

verus! {

/// One cache slot: the high 32 bits of the position key it was last written
/// for, and the cached score.
pub struct HashTableEntry {
    pub key: u32,
    pub score: Score,
}

impl HashTableEntry {
    /// An empty slot: key and score zeroed.
    pub fn new() -> (e: HashTableEntry)
        ensures
            e.key == 0,
            e.score == (Score { win: 0u16, draw: 0u16 }),
    {
        HashTableEntry { key: 0, score: Score { win: 0, draw: 0 } }
    }

    /// Overwrite the slot for `key`, keeping only its high 32 bits as the
    /// verification tag.
    pub fn replace(&mut self, key: u64, score: Score)
        ensures
            final(self).key == (key >> 32) as u32,
            final(self).score == score,
    {
        self.key = (key >> 32) as u32;
        self.score = score;
    }
}

/// The transposition cache. Entry count is fixed at construction; there is no
/// collision resolution beyond always-replace.
pub struct HashTable {
    pub entries: Vec<HashTableEntry>,
}

/// Every slot of `entries` is zeroed: the state a fresh cache starts in.
pub open spec fn all_slots_zeroed(entries: Seq<HashTableEntry>) -> bool {
    forall|i: int|
        0 <= i < entries.len() ==> entries[i].key == 0 && entries[i].score == (Score {
            win: 0u16,
            draw: 0u16,
        })
}

impl HashTable {
    /// Entry counts stay below 2^32 so that slot arithmetic cannot overflow;
    /// this bounds the table at 32 GiB.
    pub open spec fn wf(self) -> bool {
        self.entries.len() < 0x1_0000_0000
    }

    /// The slot a key maps to: `(low_32_bits(key) * len) / 2^32`, a lossy
    /// spread of the low key bits over the whole table.
    pub open spec fn spec_slot(key: u64, len: int) -> int {
        ((key as int) % 0x1_0000_0000) * len / 0x1_0000_0000
    }

    /// What a probe of `key` answers: the cached score if the slot's
    /// verification tag matches the high key bits, else nothing.
    pub open spec fn spec_probe(self, key: u64) -> Option<Score> {
        if self.entries[Self::spec_slot(key, self.entries.len() as int)].key == (key >> 32) as u32 {
            Some(self.entries[Self::spec_slot(key, self.entries.len() as int)].score)
        } else {
            None
        }
    }

    /// Build a cache of `size_in_bytes / 8` zeroed slots.
    pub fn new(size_in_bytes: usize) -> (t: HashTable)
        requires
            size_in_bytes < 0x8_0000_0000,
        ensures
            t.entries.len() == size_in_bytes / 8,
            all_slots_zeroed(t.entries@),
            t.wf(),
    {
        let size = size_in_bytes / 8;
        let mut entries: Vec<HashTableEntry> = Vec::with_capacity(size);
        for i in 0..size
            invariant
                entries.len() == i,
                forall|j: int|
                    0 <= j < i ==> entries[j].key == 0 && entries[j].score == (Score {
                        win: 0u16,
                        draw: 0u16,
                    }),
        {
            entries.push(HashTableEntry::new());
        }
        HashTable { entries }
    }

    /// Throw the cache away and rebuild it at the new size.
    pub fn resize(&mut self, size_in_bytes: usize)
        requires
            size_in_bytes < 0x8_0000_0000,
        ensures
            final(self).entries.len() == size_in_bytes / 8,
            all_slots_zeroed(final(self).entries@),
            final(self).wf(),
    {
        *self = HashTable::new(size_in_bytes)
    }

    /// Zero every slot, keeping the size.
    pub fn clear(&mut self)
        ensures
            final(self).entries.len() == old(self).entries.len(),
            all_slots_zeroed(final(self).entries@),
            old(self).wf() ==> final(self).wf(),
    {
        let size = self.entries.len();
        let mut entries: Vec<HashTableEntry> = Vec::with_capacity(size);
        for i in 0..size
            invariant
                entries.len() == i,
                forall|j: int|
                    0 <= j < i ==> entries[j].key == 0 && entries[j].score == (Score {
                        win: 0u16,
                        draw: 0u16,
                    }),
        {
            entries.push(HashTableEntry::new());
        }
        *self = HashTable { entries };
    }

    /// Compute the slot index of `key` and show it is in bounds.
    fn slot_of(&self, key: u64) -> (idx: usize)
        requires
            self.wf(),
            self.entries.len() > 0,
        ensures
            idx == Self::spec_slot(key, self.entries.len() as int),
            idx < self.entries.len(),
    {
        let key_lo: u64 = key & 0xFFFF_FFFFu64;
        let len: u64 = self.entries.len() as u64;
        proof {
            lemma_low_bits_mask_values();
            lemma2_to64();
            lemma_u64_low_bits_mask_is_mod(key, 32);
            lemma_mod_bound(key as int, 0x1_0000_0000);
            assert(key_lo * len <= 0xFFFF_FFFFu64 * 0xFFFF_FFFFu64) by (nonlinear_arith)
                requires
                    key_lo <= 0xFFFF_FFFFu64,
                    len <= 0xFFFF_FFFFu64,
            ;
        }
        let prod: u64 = key_lo * len;
        let idx: u64 = prod >> 32u64;
        proof {
            lemma_u64_shr_is_div(prod, 32);
            assert(prod < 0x1_0000_0000 * (len as int)) by (nonlinear_arith)
                requires
                    key_lo < 0x1_0000_0000u64,
                    len >= 1u64,
                    prod == key_lo * len,
            ;
            lemma_multiply_divide_lt(prod as int, 0x1_0000_0000, len as int);
        }
        idx as usize
    }

    /// Look `key` up. A hit requires the verification tag to match; a stale
    /// or colliding slot answers `None` or a wrong-but-well-formed score, and
    /// the caller must treat any answer as advisory.
    pub fn probe(&self, key: u64) -> (r: Option<Score>)
        requires
            self.wf(),
            self.entries.len() > 0,
        ensures
            r == self.spec_probe(key),
    {
        let idx = self.slot_of(key);
        let entry = &self.entries[idx];
        if entry.key != (key >> 32) as u32 {
            return None;
        }
        Some(entry.score)
    }

    /// Write `score` for `key`, displacing whatever occupied the slot.
    pub fn store(&mut self, key: u64, score: Score)
        requires
            old(self).wf(),
            old(self).entries.len() > 0,
        ensures
            final(self).entries@ == old(self).entries@.update(
                Self::spec_slot(key, old(self).entries.len() as int),
                HashTableEntry { key: (key >> 32) as u32, score },
            ),
            final(self).wf(),
    {
        let idx = self.slot_of(key);
        let entry = HashTableEntry { key: (key >> 32) as u32, score };
        self.entries[idx] = entry;
    }
}

/// The slot of any key lies inside a table of `len >= 1` entries.
pub proof fn lemma_slot_in_bounds(key: u64, len: int)
    requires
        1 <= len,
    ensures
        0 <= HashTable::spec_slot(key, len) < len,
{
    let lo = (key as int) % 0x1_0000_0000;
    lemma_mod_bound(key as int, 0x1_0000_0000);
    assert(0 <= lo * len < 0x1_0000_0000 * len) by (nonlinear_arith)
        requires
            0 <= lo < 0x1_0000_0000,
            len >= 1,
    ;
    lemma_multiply_divide_lt(lo * len, 0x1_0000_0000, len);
    lemma_div_pos_is_pos(lo * len, 0x1_0000_0000);
}

/// Law: under single-threaded access, a probe directly after a store of the
/// same key answers exactly the stored score.
pub proof fn lemma_store_then_probe(pre: HashTable, post: HashTable, key: u64, score: Score)
    requires
        pre.wf(),
        pre.entries.len() > 0,
        post.entries@ == pre.entries@.update(
            HashTable::spec_slot(key, pre.entries.len() as int),
            HashTableEntry { key: (key >> 32) as u32, score },
        ),
    ensures
        post.spec_probe(key) == Some(score),
{
    let len = pre.entries.len() as int;
    let lo = (key as int) % 0x1_0000_0000;
    lemma_mod_bound(key as int, 0x1_0000_0000);
    assert(0 <= lo * len < 0x1_0000_0000 * len) by (nonlinear_arith)
        requires
            0 <= lo < 0x1_0000_0000,
            len >= 1,
    ;
    lemma_multiply_divide_lt(lo * len, 0x1_0000_0000, len);
    lemma_div_pos_is_pos(lo * len, 0x1_0000_0000);
}

} // verus!
