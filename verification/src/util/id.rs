use vstd::prelude::*;

verus! {

/// An opaque identifier. Identifiers are handed out in increasing order.
#[derive(PartialEq, Eq, Structural, Hash, Copy, Clone, PartialOrd, Ord, Debug)]
pub struct Id {
    id: usize,
}

impl View for Id {
    type V = nat;

    closed spec fn view(&self) -> nat {
        self.id as nat
    }
}

impl Id {
    /// The identifier with the number `id`.
    pub fn new(id: usize) -> (r: Id)
        ensures
            r@ == id,
    {
        Id { id }
    }

    /// The number of the identifier.
    pub fn value(&self) -> (r: usize)
        ensures
            r == self@,
    {
        self.id
    }
}

/// Hands out identifiers, each larger than all before it.
pub struct IdGenerator {
    next_id: usize,
}

impl IdGenerator {
    /// The number of the identifier that is handed out next.
    pub closed spec fn next(&self) -> nat {
        self.next_id as nat
    }

    /// A generator that starts at 0.
    pub fn new() -> (r: IdGenerator)
        ensures
            r.next() == 0,
    {
        IdGenerator { next_id: 0 }
    }

    /// Whether another identifier can be handed out: the numbers are not
    /// used up.
    pub fn has_next(&self) -> (r: bool)
        ensures
            r == (self.next() < usize::MAX),
    {
        self.next_id < usize::MAX
    }

    /// Hands out the next identifier.
    pub fn gen(&mut self) -> (r: Id)
        requires
            old(self).next() < usize::MAX,
        ensures
            r@ == old(self).next(),
            final(self).next() == old(self).next() + 1,
    {
        let id = Id { id: self.next_id };
        self.next_id += 1;
        id
    }
}

impl Default for IdGenerator {
    fn default() -> (r: IdGenerator)
        ensures
            r.next() == 0,
    {
        IdGenerator { next_id: 0 }
    }
}

/// Whether bit `j` of `b` is set.
pub open spec fn bit(b: u32, j: nat) -> bool {
    j < 32 && (b >> (j as u32)) & 1u32 == 1u32
}

/// Whether the blocks hold the number `i`: bit `i % 32` of block `i / 32`.
pub open spec fn holds(blocks: Seq<u32>, i: nat) -> bool {
    i / 32 < blocks.len() && bit(blocks[(i / 32) as int], i % 32)
}

/// The numbers that the blocks hold.
pub open spec fn members(blocks: Seq<u32>) -> Set<nat> {
    Set::new(|i: nat| holds(blocks, i))
}

/// The number of set bits among the lowest `m` bits of `b`.
pub open spec fn ones(b: u32, m: nat) -> nat
    decreases m,
{
    if m == 0 {
        0
    } else {
        ones(b, (m - 1) as nat) + if bit(b, (m - 1) as nat) {
            1nat
        } else {
            0nat
        }
    }
}

/// The number of set bits in the first `n` blocks.
pub open spec fn total_ones(blocks: Seq<u32>, n: nat) -> nat
    decreases n,
{
    if n == 0 {
        0
    } else {
        total_ones(blocks, (n - 1) as nat) + ones(blocks[n - 1], 32)
    }
}

/// Specifies `u32::count_ones` of the standard library.
///
/// Trusted: the result is the number of ones in the binary representation of
/// the argument, that is, of set bits among its 32 bits.
pub assume_specification[ u32::count_ones ](i: u32) -> (r: u32)
    ensures
        r == ones(i, 32),
;

/// The members that the lowest `m` bits of block `k`, holding `b`, stand for.
spec fn block_members(k: nat, b: u32, m: nat) -> Set<nat> {
    Set::new(|i: nat| i / 32 == k && i % 32 < m && bit(b, i % 32))
}

/// The members that the first `n` blocks hold.
spec fn members_upto(blocks: Seq<u32>, n: nat) -> Set<nat> {
    Set::new(|i: nat| i / 32 < n && holds(blocks, i))
}

proof fn lemma_block_count(k: nat, b: u32, m: nat)
    requires
        m <= 32,
    ensures
        block_members(k, b, m).finite(),
        block_members(k, b, m).len() == ones(b, m),
    decreases m,
{
    if m == 0 {
        assert(block_members(k, b, m) =~= Set::<nat>::empty());
    } else {
        let low = (m - 1) as nat;
        lemma_block_count(k, b, low);
        let i = 32 * k + low;
        assert(i / 32 == k && i % 32 == low);
        if bit(b, low) {
            assert(block_members(k, b, m) =~= block_members(k, b, low).insert(i));
            assert(!block_members(k, b, low).contains(i));
        } else {
            assert(block_members(k, b, m) =~= block_members(k, b, low));
        }
    }
}

proof fn lemma_count(blocks: Seq<u32>, n: nat)
    requires
        n <= blocks.len(),
    ensures
        members_upto(blocks, n).finite(),
        members_upto(blocks, n).len() == total_ones(blocks, n),
    decreases n,
{
    if n == 0 {
        assert(members_upto(blocks, n) =~= Set::<nat>::empty());
    } else {
        let k = (n - 1) as nat;
        lemma_count(blocks, k);
        lemma_block_count(k, blocks[k as int], 32);
        let a = members_upto(blocks, k);
        let b = block_members(k, blocks[k as int], 32);
        assert(members_upto(blocks, n) =~= a + b);
        assert(a.disjoint(b));
        vstd::set_lib::lemma_set_disjoint_lens(a, b);
    }
}

proof fn lemma_total_monotone(blocks: Seq<u32>, n: nat, m: nat)
    requires
        n <= m,
    ensures
        total_ones(blocks, n) <= total_ones(blocks, m),
    decreases m - n,
{
    if n < m {
        lemma_total_monotone(blocks, n, (m - 1) as nat);
    }
}

proof fn lemma_bit_zero(j: u32)
    by (bit_vector)
    requires
        j < 32,
    ensures
        (0u32 >> j) & 1u32 != 1u32,
{
}

proof fn lemma_bit_or_one(b: u32, k: u32, j: u32)
    by (bit_vector)
    requires
        k < 32,
        j < 32,
    ensures
        (((b | (1u32 << k)) >> j) & 1u32 == 1u32) == (((b >> j) & 1u32 == 1u32) || j == k),
        (b | (1u32 << k)) != b <==> (b >> k) & 1u32 != 1u32,
{
}

proof fn lemma_bit_xor_one(b: u32, k: u32, j: u32)
    by (bit_vector)
    requires
        k < 32,
        j < 32,
    ensures
        (((b ^ (1u32 << k)) >> j) & 1u32 == 1u32) == (((b >> j) & 1u32 == 1u32) != (j == k)),
{
}

proof fn lemma_bit_or(a: u32, b: u32, j: u32)
    by (bit_vector)
    requires
        j < 32,
    ensures
        (((a | b) >> j) & 1u32 == 1u32) == (((a >> j) & 1u32 == 1u32) || ((b >> j) & 1u32
            == 1u32)),
{
}

proof fn lemma_bit_test(b: u32, k: u32)
    by (bit_vector)
    requires
        k < 32,
    ensures
        ((b & (1u32 << k)) != 0) == ((b >> k) & 1u32 == 1u32),
{
}

proof fn lemma_split(id: usize)
    by (bit_vector)
    ensures
        id >> 5 == id / 32,
        id & 31 == id % 32,
        (id & 31) < 32,
{
}

proof fn lemma_nonzero_has_bit(b: u32)
    requires
        b != 0,
    ensures
        exists|j: nat| bit(b, j),
{
    vstd::std_specs::bits::axiom_u32_trailing_zeros(b);
    let t = vstd::std_specs::bits::u32_trailing_zeros(b);
    assert(bit(b, t as nat));
}

/// `ids` with `id` put in where it was missing, and taken out where it was in.
pub open spec fn toggled(ids: Set<nat>, id: nat) -> Set<nat> {
    if ids.contains(id) {
        ids.remove(id)
    } else {
        ids.insert(id)
    }
}

/// What has been inserted is a member.
pub proof fn lemma_insert_then_contains(ids: Set<nat>, id: nat)
    ensures
        ids.insert(id).contains(id),
{
}

/// Toggling twice gives the set one started with.
pub proof fn lemma_toggle_twice(ids: Set<nat>, id: nat)
    ensures
        toggled(toggled(ids, id), id) == ids,
{
    assert(toggled(toggled(ids, id), id) =~= ids);
}

/// Removing what is no member changes nothing.
pub proof fn lemma_remove_absent(ids: Set<nat>, id: nat)
    requires
        !ids.contains(id),
    ensures
        ids.remove(id) == ids,
{
    assert(ids.remove(id) =~= ids);
}

/// The union does not depend on the order of its two sets, and the union of
/// a set with itself is that set.
pub proof fn lemma_union_laws(a: Set<nat>, b: Set<nat>)
    ensures
        a.union(b) == b.union(a),
        a.union(a) == a,
{
    assert(a.union(b) =~= b.union(a));
    assert(a.union(a) =~= a);
}

/// Bitset of Id.
#[derive(Debug, Eq, PartialEq)]
pub struct IdSet {
    blocks: Vec<u32>,
    is_empty: bool,
}

impl View for IdSet {
    type V = Set<nat>;

    closed spec fn view(&self) -> Set<nat> {
        members(self.blocks@)
    }
}

impl IdSet {
    /// The emptiness flag is right, and every number that the blocks can
    /// hold fits `usize`.
    pub closed spec fn wf(&self) -> bool {
        &&& self.is_empty <==> self@ == Set::<nat>::empty()
        &&& 32 * self.blocks@.len() <= usize::MAX + 1
    }

    /// The empty set.
    pub fn new() -> (r: IdSet)
        ensures
            r.wf(),
            r@ == Set::<nat>::empty(),
    {
        let r = IdSet { blocks: Vec::new(), is_empty: true };
        assert(r@ =~= Set::<nat>::empty());
        r
    }

    fn extend(&mut self, num_blocks: usize)
        ensures
            final(self)@ == old(self)@,
            final(self).is_empty == old(self).is_empty,
            final(self).blocks@.len() == if num_blocks > old(self).blocks@.len() {
                num_blocks as nat
            } else {
                old(self).blocks@.len()
            },
            forall|k: int|
                0 <= k < old(self).blocks@.len() ==> final(self).blocks@[k] == old(self).blocks@[k],
            forall|k: int|
                old(self).blocks@.len() <= k < final(self).blocks@.len() ==> final(self).blocks@[k]
                    == 0,
    {
        while self.blocks.len() < num_blocks
            invariant
                self.is_empty == old(self).is_empty,
                old(self).blocks@.len() <= self.blocks@.len(),
                self.blocks@.len() <= num_blocks || self.blocks@.len() == old(self).blocks@.len(),
                forall|k: int|
                    0 <= k < old(self).blocks@.len() ==> self.blocks@[k] == old(self).blocks@[k],
                forall|k: int| old(self).blocks@.len() <= k < self.blocks@.len() ==> self.blocks@[k] == 0,
            decreases num_blocks - self.blocks.len(),
        {
            self.blocks.push(0);
        }
        proof {
            assert forall|i: nat| holds(self.blocks@, i) == holds(old(self).blocks@, i) by {
                if i / 32 < self.blocks@.len() && i / 32 >= old(self).blocks@.len() {
                    lemma_bit_zero((i % 32) as u32);
                }
            }
            assert(self@ =~= old(self)@);
        }
    }

    /// Return true if the `id` is newly inserted.
    pub fn insert(&mut self, id: &Id) -> (r: bool)
        requires
            old(self).wf(),
        ensures
            final(self).wf(),
            final(self)@ == old(self)@.insert(id@),
            r == !old(self)@.contains(id@),
    {
        self.is_empty = false;
        let block_idx = id.id >> 5;
        let inner_idx = (id.id & 31) as u32;
        proof {
            lemma_split(id.id);
        }
        self.extend(block_idx + 1);
        let before = self.blocks[block_idx];
        let after = before | (1u32 << inner_idx);
        let ghost blocks_before = self.blocks@;
        self.blocks.set(block_idx, after);
        proof {
            lemma_bit_or_one(before, inner_idx, inner_idx);
            assert forall|i: nat| holds(self.blocks@, i) == (holds(blocks_before, i) || i == id@) by {
                if i / 32 == block_idx {
                    lemma_bit_or_one(before, inner_idx, (i % 32) as u32);
                }
            }
            assert(self@ =~= old(self)@.insert(id@));
            assert(self@.contains(id@));
        }
        before != after
    }

    /// Whether no block has a bit set.
    fn all_zero(&self) -> (r: bool)
        ensures
            r == (self@ == Set::<nat>::empty()),
    {
        let mut k: usize = 0;
        while k < self.blocks.len()
            invariant
                k <= self.blocks.len(),
                forall|j: int| 0 <= j < k ==> self.blocks@[j] == 0,
            decreases self.blocks.len() - k,
        {
            if self.blocks[k] != 0 {
                proof {
                    lemma_nonzero_has_bit(self.blocks@[k as int]);
                    let j = choose|j: nat| bit(self.blocks@[k as int], j);
                    let i = (32 * k + j) as nat;
                    assert(holds(self.blocks@, i));
                    assert(self@.contains(i));
                }
                return false;
            }
            k += 1;
        }
        proof {
            assert forall|i: nat| !holds(self.blocks@, i) by {
                if i / 32 < self.blocks@.len() {
                    lemma_bit_zero((i % 32) as u32);
                }
            }
            assert(self@ =~= Set::<nat>::empty());
        }
        true
    }

    /// Return true if the `id` is removed.
    pub fn remove(&mut self, id: &Id) -> (r: bool)
        requires
            old(self).wf(),
        ensures
            final(self).wf(),
            final(self)@ == old(self)@.remove(id@),
            r == old(self)@.contains(id@),
    {
        if !self.contains(id) {
            assert(self@ =~= old(self)@.remove(id@));
            return false;
        }
        let block_idx = id.id >> 5;
        let inner_idx = (id.id & 31) as u32;
        proof {
            lemma_split(id.id);
        }
        let before = self.blocks[block_idx];
        let ghost blocks_before = self.blocks@;
        self.blocks.set(block_idx, before ^ (1u32 << inner_idx));
        proof {
            assert forall|i: nat| holds(self.blocks@, i) == (holds(blocks_before, i) && i != id@) by {
                if i / 32 == block_idx {
                    lemma_bit_xor_one(before, inner_idx, (i % 32) as u32);
                }
            }
            assert(self@ =~= old(self)@.remove(id@));
        }
        if self.all_zero() {
            self.is_empty = true;
        }
        true
    }

    /// Inserts `id` where the set lacks it, and removes it where the set has it.
    pub fn toggle(&mut self, id: &Id)
        requires
            old(self).wf(),
        ensures
            final(self).wf(),
            final(self)@ == toggled(old(self)@, id@),
    {
        if self.contains(id) {
            self.remove(id);
        } else {
            self.insert(id);
        }
    }

    pub fn contains(&self, id: &Id) -> (r: bool)
        ensures
            r == self@.contains(id@),
    {
        let block_idx = id.id >> 5;
        let inner_idx = (id.id & 31) as u32;
        proof {
            lemma_split(id.id);
            assert(holds(self.blocks@, id@) == self@.contains(id@));
        }
        if block_idx >= self.blocks.len() {
            return false;
        }
        proof {
            lemma_bit_test(self.blocks@[block_idx as int], inner_idx);
        }
        (self.blocks[block_idx] & (1u32 << inner_idx)) != 0
    }

    /// Adds every member of `other`. Return true if the set has grown.
    pub fn union_with(&mut self, other: &IdSet) -> (r: bool)
        requires
            old(self).wf(),
            other.wf(),
        ensures
            final(self).wf(),
            final(self)@ == old(self)@.union(other@),
            r == (final(self)@ != old(self)@),
    {
        self.is_empty = self.is_empty && other.is_empty;
        self.extend(other.blocks.len());
        let ghost start = self.blocks@;
        let mut updated = false;
        let mut k: usize = 0;
        while k < other.blocks.len()
            invariant
                k <= other.blocks.len(),
                other.blocks@.len() <= self.blocks@.len(),
                self.blocks@.len() == start.len(),
                self.is_empty == (old(self).is_empty && other.is_empty),
                forall|j: int| 0 <= j < k ==> self.blocks@[j] == start[j] | other.blocks@[j],
                forall|j: int| k <= j < start.len() ==> self.blocks@[j] == start[j],
                updated == exists|j: int| 0 <= j < k && self.blocks@[j] != start[j],
            decreases other.blocks.len() - k,
        {
            let before = self.blocks[k];
            let after = before | other.blocks[k];
            self.blocks.set(k, after);
            let ghost was = updated;
            updated = updated || before != after;
            proof {
                if before != after {
                    assert(self.blocks@[k as int] != start[k as int]);
                }
            }
            k += 1;
        }
        proof {
            assert(members(start) == old(self)@);
            assert forall|i: nat|
                holds(self.blocks@, i) == (holds(start, i) || holds(other.blocks@, i)) by {
                if i / 32 < other.blocks@.len() {
                    lemma_bit_or(start[(i / 32) as int], other.blocks@[(i / 32) as int], (i % 32) as u32);
                }
            }
            assert(self@ =~= old(self)@.union(other@));
            if updated {
                let j = choose|j: int| 0 <= j < k && self.blocks@[j] != start[j];
                lemma_differs(start[j], self.blocks@[j]);
                let m = choose|m: nat| bit(start[j], m) != bit(self.blocks@[j], m);
                let i = (32 * j + m) as nat;
                assert(holds(self.blocks@, i) != holds(start, i));
                assert(self@.contains(i) != old(self)@.contains(i));
            } else {
                assert(self.blocks@ =~= start);
            }
            if self@ == Set::<nat>::empty() {
                assert(old(self)@ =~= Set::<nat>::empty());
                assert(other@ =~= Set::<nat>::empty());
            }
        }
        updated
    }

    /// The members are finitely many.
    pub proof fn lemma_finite(&self)
        ensures
            self@.finite(),
    {
        self.lemma_counted();
    }

    proof fn lemma_counted(&self)
        ensures
            self@.finite(),
            self@.len() == total_ones(self.blocks@, self.blocks@.len()),
    {
        lemma_count(self.blocks@, self.blocks@.len());
        assert(self@ =~= members_upto(self.blocks@, self.blocks@.len()));
    }

    /// The number of members.
    pub fn num_elems(&self) -> (r: u32)
        requires
            self@.len() <= u32::MAX,
        ensures
            r == self@.len(),
    {
        proof {
            self.lemma_counted();
        }
        let mut sum: u32 = 0;
        let mut k: usize = 0;
        while k < self.blocks.len()
            invariant
                k <= self.blocks.len(),
                sum == total_ones(self.blocks@, k as nat),
                total_ones(self.blocks@, self.blocks@.len()) <= u32::MAX,
            decreases self.blocks.len() - k,
        {
            proof {
                lemma_total_monotone(self.blocks@, (k + 1) as nat, self.blocks@.len());
            }
            sum = sum + self.blocks[k].count_ones();
            k += 1;
        }
        sum
    }

    /// Walks the members in ascending order.
    pub fn iter(&self) -> (r: IdSetIterator<'_>)
        requires
            self.wf(),
        ensures
            r.wf(),
            r.source() == self@,
            r.remaining() == self@,
    {
        IdSetIterator::new(self)
    }

    /// The members in ascending order.
    pub fn to_vec(&self) -> (r: Vec<Id>)
        requires
            self.wf(),
        ensures
            forall|i: nat| self@.contains(i) <==> exists|k: int| 0 <= k < r@.len() && r@[k]@ == i,
            forall|j: int, k: int| 0 <= j < k < r@.len() ==> r@[j]@ < r@[k]@,
    {
        let mut out: Vec<Id> = Vec::new();
        let mut it = self.iter();
        loop
            invariant
                it.wf(),
                it.source() == self@,
                it.remaining().subset_of(self@),
                forall|i: nat|
                    self@.contains(i) && !it.remaining().contains(i) <==> exists|k: int|
                        0 <= k < out@.len() && out@[k]@ == i,
                forall|j: int, k: int| 0 <= j < k < out@.len() ==> out@[j]@ < out@[k]@,
                forall|k: int, i: nat|
                    0 <= k < out@.len() && it.remaining().contains(i) ==> out@[k]@ < i,
            ensures
                it.remaining() == Set::<nat>::empty(),
                forall|i: nat| self@.contains(i) <==> exists|k: int| 0 <= k < out@.len() && out@[k]@ == i,
                forall|j: int, k: int| 0 <= j < k < out@.len() ==> out@[j]@ < out@[k]@,
            decreases it.blocks_left(), it.bits_left(),
        {
            let ghost before = it.remaining();
            let ghost shown = out@;
            match it.next() {
                None => {
                    break;
                },
                Some(id) => {
                    out.push(id);
                    proof {
                        assert forall|i: nat|
                            self@.contains(i) && !it.remaining().contains(i) implies exists|k: int|
                                0 <= k < out@.len() && out@[k]@ == i by {
                            if i == id@ {
                                assert(out@[shown.len() as int]@ == i);
                            } else {
                                assert(!before.contains(i));
                                let k = choose|k: int| 0 <= k < shown.len() && shown[k]@ == i;
                                assert(out@[k]@ == i);
                            }
                        }
                        assert forall|i: nat|
                            (exists|k: int| 0 <= k < out@.len() && out@[k]@ == i) implies self@.contains(
                            i,
                        ) && !it.remaining().contains(i) by {
                            let k = choose|k: int| 0 <= k < out@.len() && out@[k]@ == i;
                            if k < shown.len() {
                                assert(shown[k]@ == i);
                            }
                        }
                    }
                },
            }
        }
        out
    }

    pub fn is_empty(&self) -> (r: bool)
        requires
            self.wf(),
        ensures
            r == (self@ == Set::<nat>::empty()),
    {
        self.is_empty
    }
}

impl Clone for IdSet {
    fn clone(&self) -> (r: IdSet)
        ensures
            r@ == self@,
            self.wf() ==> r.wf(),
    {
        let mut blocks: Vec<u32> = Vec::new();
        let mut k: usize = 0;
        while k < self.blocks.len()
            invariant
                k <= self.blocks.len(),
                blocks@ == self.blocks@.take(k as int),
            decreases self.blocks.len() - k,
        {
            blocks.push(self.blocks[k]);
            k += 1;
        }
        assert(self.blocks@.take(self.blocks.len() as int) =~= self.blocks@);
        IdSet { blocks, is_empty: self.is_empty }
    }
}

proof fn lemma_clear_lowest(b: u32, t: u32, j: u32)
    by (bit_vector)
    requires
        t < 32,
        j < 32,
        (b >> t) & 1u32 == 1u32,
        b << ((32 - t) as u32) == 0,
    ensures
        b != 0,
        (((b & ((b - 1) as u32)) >> j) & 1u32 == 1u32) == (((b >> j) & 1u32 == 1u32) && j != t),
        (b >> j) & 1u32 == 1u32 ==> j >= t,
        (b & ((b - 1) as u32)) < b,
{
}

/// Walks the members of a set in ascending order.
pub struct IdSetIterator<'a> {
    bitset: &'a IdSet,
    block: u32,
    next_block_idx: usize,
}

impl<'a> IdSetIterator<'a> {
    /// The set that is walked.
    pub closed spec fn source(&self) -> Set<nat> {
        self.bitset@
    }

    /// The members that are still to come.
    pub closed spec fn remaining(&self) -> Set<nat> {
        Set::new(
            |i: nat|
                (i / 32 >= self.next_block_idx && holds(self.bitset.blocks@, i)) || (
                self.next_block_idx > 0 && i / 32 == self.next_block_idx - 1 && bit(
                    self.block,
                    i % 32,
                )),
        )
    }

    /// The number of blocks that the walk has not looked at yet.
    pub closed spec fn blocks_left(&self) -> nat {
        (self.bitset.blocks@.len() - self.next_block_idx) as nat
    }

    /// What is left of the block that the walk is in, as a number.
    pub closed spec fn bits_left(&self) -> nat {
        self.block as nat
    }

    /// The walk is inside the set, and what it still holds of the current
    /// block belongs to the set.
    pub closed spec fn wf(&self) -> bool {
        &&& 32 * self.bitset.blocks@.len() <= usize::MAX + 1
        &&& self.next_block_idx <= self.bitset.blocks@.len()
        &&& self.next_block_idx == 0 ==> self.block == 0
        &&& self.next_block_idx > 0 ==> forall|j: nat|
            bit(self.block, j) ==> bit(self.bitset.blocks@[self.next_block_idx - 1], j)
    }

    fn new(bitset: &'a IdSet) -> (r: IdSetIterator<'a>)
        requires
            bitset.wf(),
        ensures
            r.wf(),
            r.source() == bitset@,
            r.remaining() == bitset@,
    {
        let r = IdSetIterator { bitset, block: 0, next_block_idx: 0 };
        assert(r.remaining() =~= bitset@);
        r
    }

    /// The smallest member that is still to come, or `None` after the last.
    pub fn next(&mut self) -> (r: Option<Id>)
        requires
            old(self).wf(),
        ensures
            final(self).wf(),
            final(self).source() == old(self).source(),
            r is None ==> old(self).remaining() == Set::<nat>::empty() && final(self).remaining()
                == Set::<nat>::empty(),
            r matches Some(id) ==> {
                &&& old(self).remaining().contains(id@)
                &&& forall|i: nat| old(self).remaining().contains(i) ==> id@ <= i
                &&& final(self).remaining() == old(self).remaining().remove(id@)
                &&& final(self).blocks_left() < old(self).blocks_left() || (final(self).blocks_left()
                    == old(self).blocks_left() && final(self).bits_left() < old(self).bits_left())
            },
    {
        while self.block == 0
            invariant
                self.wf(),
                self.bitset == old(self).bitset,
                self.remaining() == old(self).remaining(),
                self.next_block_idx >= old(self).next_block_idx,
                self.next_block_idx == old(self).next_block_idx ==> self.block == old(self).block,
            decreases self.bitset.blocks@.len() - self.next_block_idx,
        {
            if self.next_block_idx < self.bitset.blocks.len() {
                let ghost before = *self;
                self.block = self.bitset.blocks[self.next_block_idx];
                self.next_block_idx += 1;
                proof {
                    assert forall|i: nat| self.remaining().contains(i) == before.remaining().contains(
                        i,
                    ) by {
                        if i / 32 < before.next_block_idx {
                            lemma_bit_zero((i % 32) as u32);
                        }
                    }
                    assert(self.remaining() =~= before.remaining());
                }
            } else {
                proof {
                    assert forall|i: nat| !self.remaining().contains(i) by {
                        if i / 32 < self.next_block_idx {
                            lemma_bit_zero((i % 32) as u32);
                        }
                    }
                    assert(self.remaining() =~= Set::<nat>::empty());
                }
                return None;
            }
        }
        let ghost before = *self;
        let block = self.block;
        let tz = block.trailing_zeros();
        proof {
            vstd::std_specs::bits::axiom_u32_trailing_zeros(block);
            lemma_clear_lowest(block, tz, tz);
        }
        let id = tz as usize + ((self.next_block_idx - 1) * 32);
        self.block = block & (block - 1);
        proof {
            assert forall|j: nat| bit(self.block, j) implies bit(
                self.bitset.blocks@[self.next_block_idx - 1],
                j,
            ) by {
                lemma_clear_lowest(block, tz, j as u32);
                assert(bit(block, j));
            }
            assert forall|i: nat|
                self.remaining().contains(i) == (before.remaining().contains(i) && i != id) by {
                if i / 32 == self.next_block_idx - 1 {
                    lemma_clear_lowest(block, tz, (i % 32) as u32);
                }
            }
            assert(self.remaining() =~= before.remaining().remove(id as nat));
            assert(bit(block, tz as nat));
            assert(before.remaining().contains(id as nat));
            assert forall|i: nat| before.remaining().contains(i) implies id <= i by {
                if i / 32 == self.next_block_idx - 1 {
                    lemma_clear_lowest(block, tz, (i % 32) as u32);
                }
            }
        }
        Some(Id::new(id))
    }
}

impl Default for IdSet {
    fn default() -> (r: IdSet)
        ensures
            r.wf(),
            r@ == Set::<nat>::empty(),
    {
        IdSet::new()
    }
}

proof fn lemma_differs_at(a: u32, b: u32) -> (m: u32)
    requires
        a != b,
    ensures
        m < 32,
        ((a >> m) & 1u32 == 1u32) != ((b >> m) & 1u32 == 1u32),
{
    let x = a ^ b;
    assert(x != 0) by (bit_vector)
        requires
            x == a ^ b,
            a != b,
    ;
    vstd::std_specs::bits::axiom_u32_trailing_zeros(x);
    let m = vstd::std_specs::bits::u32_trailing_zeros(x);
    assert(((a >> m) & 1u32 == 1u32) != ((b >> m) & 1u32 == 1u32)) by (bit_vector)
        requires
            x == a ^ b,
            m < 32,
            (x >> m) & 1u32 == 1u32,
    ;
    m
}

proof fn lemma_differs(a: u32, b: u32)
    requires
        a != b,
    ensures
        exists|m: nat| bit(a, m) != bit(b, m),
{
    let m = lemma_differs_at(a, b);
    assert(bit(a, m as nat) != bit(b, m as nat));
}

} // verus!
