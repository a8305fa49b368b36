use vstd::prelude::*;
use crate::object_model::object_at;
use crate::word::{word_bytes, word_size};

verus! {

// A slot is a memory location that holds a reference to an object, in one of
// several encodings. Reading and writing the location happens outside this
// library: `load_value` decodes the word that was read from a slot, and
// `store_value` gives the word to write into it.

/// The tag bits of a tagged slot.
pub const TAG_BITS_MASK: usize = 0b11;

/// The word a compressed slot holds, expanded to an address.
pub open spec fn expand_compressed(compressed: u32) -> usize {
    (compressed as usize) << 3usize
}

/// The 32-bit word a compressed slot holds for an address.
pub open spec fn compress(addr: usize) -> u32 {
    (addr >> 3usize) as u32
}

/// A slot that holds the address of an object in a machine word.
#[derive(Clone, Copy, Debug, PartialEq, Eq, Hash)]
pub struct SimpleSlot {
    slot_addr: usize,
}

impl View for SimpleSlot {
    type V = usize;

    /// The address of the slot.
    closed spec fn view(&self) -> usize {
        self.slot_addr
    }
}

impl SimpleSlot {
    /// The object that the word `word` read from the slot refers to.
    pub open spec fn load_spec(self, word: usize) -> Option<usize> {
        object_at(word)
    }

    /// The word a store of `object` writes into the slot.
    pub open spec fn store_spec(self, object: usize) -> usize {
        object
    }

    /// The slot at `address`.
    pub fn from_address(address: usize) -> (s: Self)
        ensures
            s@ == address,
    {
        SimpleSlot { slot_addr: address }
    }

    /// The address of the slot.
    pub fn as_address(&self) -> (a: usize)
        ensures
            a == self@,
    {
        self.slot_addr
    }

    /// The object that the word `word` read from the slot refers to.
    pub fn load_value(&self, word: usize) -> (r: Option<usize>)
        ensures
            r == self.load_spec(word),
    {
        crate::object_model::object_from_raw_address(word)
    }

    /// The word to write into the slot so that it refers to `object`.
    pub fn store_value(&self, object: usize) -> (word: usize)
        requires
            object != 0,
        ensures
            word == self.store_spec(object),
    {
        object
    }
}

/// A slot that holds a 32-bit compressed pointer on a 64-bit machine: the address
/// shifted right by three bits.
#[derive(Clone, Copy, Debug, PartialEq, Eq, Hash)]
pub struct CompressedOopSlot {
    slot_addr: usize,
}

impl View for CompressedOopSlot {
    type V = usize;

    /// The address of the slot.
    closed spec fn view(&self) -> usize {
        self.slot_addr
    }
}

impl CompressedOopSlot {
    /// The object that the compressed word read from the slot refers to.
    pub open spec fn load_spec(self, compressed: u32) -> Option<usize> {
        object_at(expand_compressed(compressed))
    }

    /// The compressed word a store of `object` writes into the slot.
    pub open spec fn store_spec(self, object: usize) -> u32 {
        compress(object)
    }

    /// The slot at `address`.
    pub fn from_address(address: usize) -> (s: Self)
        ensures
            s@ == address,
    {
        Self { slot_addr: address }
    }

    /// The address of the slot.
    pub fn as_address(&self) -> (a: usize)
        ensures
            a == self@,
    {
        self.slot_addr
    }

    /// The object that the compressed word read from the slot refers to.
    pub fn load_value(&self, compressed: u32) -> (r: Option<usize>)
        ensures
            r == self.load_spec(compressed),
    {
        let expanded = (compressed as usize) << 3usize;
        crate::object_model::object_from_raw_address(expanded)
    }

    /// The compressed word to write into the slot so that it refers to `object`.
    pub fn store_value(&self, object: usize) -> (compressed: u32)
        requires
            object != 0,
        ensures
            compressed == self.store_spec(object),
    {
        let expanded = object;
        (expanded >> 3usize) as u32
    }
}

/// A slot that holds a pointer into the middle of an object, a known offset past
/// its reference.
#[derive(Clone, Copy, Debug, PartialEq, Eq, Hash)]
pub struct OffsetSlot {
    slot_addr: usize,
    offset: usize,
}

impl View for OffsetSlot {
    type V = (usize, usize);

    /// The address of the slot and the offset.
    closed spec fn view(&self) -> (usize, usize) {
        (self.slot_addr, self.offset)
    }
}

impl OffsetSlot {
    /// The object whose middle the word `middle` read from the slot points to.
    pub open spec fn load_spec(self, middle: usize) -> Option<usize> {
        object_at((middle - self@.1) as usize)
    }

    /// The word a store of `object` writes into the slot.
    pub open spec fn store_spec(self, object: usize) -> usize {
        (object + self@.1) as usize
    }

    /// The slot at `address`, with offset zero.
    pub fn new_no_offset(address: usize) -> (s: Self)
        ensures
            s@ == (address, 0usize),
    {
        Self { slot_addr: address, offset: 0 }
    }

    /// The slot at `address`, with `offset`.
    pub fn new_with_offset(address: usize, offset: usize) -> (s: Self)
        ensures
            s@ == (address, offset),
    {
        Self { slot_addr: address, offset }
    }

    /// The address of the slot.
    pub fn slot_address(&self) -> (a: usize)
        ensures
            a == self@.0,
    {
        self.slot_addr
    }

    /// The offset from the object reference to what the slot holds.
    pub fn offset(&self) -> (o: usize)
        ensures
            o == self@.1,
    {
        self.offset
    }

    /// The object whose middle the word `middle` read from the slot points to.
    pub fn load_value(&self, middle: usize) -> (r: Option<usize>)
        requires
            middle >= self@.1,
        ensures
            r == self.load_spec(middle),
    {
        let begin = middle - self.offset;
        crate::object_model::object_from_raw_address(begin)
    }

    /// The word to write into the slot so that it points into `object`.
    pub fn store_value(&self, object: usize) -> (middle: usize)
        requires
            object != 0,
            object + self@.1 <= usize::MAX,
        ensures
            middle == object + self@.1,
            middle == self.store_spec(object),
    {
        let begin = object;
        begin + self.offset
    }
}

/// A slot whose low two bits are a tag kept apart from the object reference.
#[derive(Clone, Copy, Debug, PartialEq, Eq, Hash)]
pub struct TaggedSlot {
    slot_addr: usize,
}

impl View for TaggedSlot {
    type V = usize;

    /// The address of the slot.
    closed spec fn view(&self) -> usize {
        self.slot_addr
    }
}

impl TaggedSlot {
    /// The object that the tagged word read from the slot refers to.
    pub open spec fn load_spec(self, tagged: usize) -> Option<usize> {
        object_at(tagged & !TAG_BITS_MASK)
    }

    /// The word a store of `object` writes into the slot when it holds `old_tagged`.
    pub open spec fn store_spec(self, object: usize, old_tagged: usize) -> usize {
        object | (old_tagged & TAG_BITS_MASK)
    }

    /// The slot at `address`.
    pub fn new(address: usize) -> (s: Self)
        ensures
            s@ == address,
    {
        Self { slot_addr: address }
    }

    /// The address of the slot.
    pub fn as_address(&self) -> (a: usize)
        ensures
            a == self@,
    {
        self.slot_addr
    }

    /// The object that the tagged word read from the slot refers to: the word
    /// with its tag bits cleared.
    pub fn load_value(&self, tagged: usize) -> (r: Option<usize>)
        ensures
            r == self.load_spec(tagged),
    {
        let untagged = tagged & !TAG_BITS_MASK;
        crate::object_model::object_from_raw_address(untagged)
    }

    /// The word to write into the slot so that it refers to `object`, keeping the
    /// tag bits of the word `old_tagged` that the slot holds now.
    pub fn store_value(&self, object: usize, old_tagged: usize) -> (new_tagged: usize)
        requires
            object != 0,
        ensures
            new_tagged == self.store_spec(object, old_tagged),
    {
        let new_untagged = object;
        new_untagged | (old_tagged & TAG_BITS_MASK)
    }
}

/// The slots of the binding: a tagged union of every slot kind it knows.
#[derive(Clone, Copy, Debug, PartialEq, Eq, Hash)]
pub enum DummyVMSlot {
    Simple(SimpleSlot),
    Compressed(CompressedOopSlot),
    Offset(OffsetSlot),
    Tagged(TaggedSlot),
}

impl DummyVMSlot {
    /// The address of the memory word the slot occupies.
    pub open spec fn address_spec(self) -> usize {
        match self {
            DummyVMSlot::Simple(s) => s@,
            DummyVMSlot::Compressed(s) => s@,
            DummyVMSlot::Offset(s) => s@.0,
            DummyVMSlot::Tagged(s) => s@,
        }
    }

    /// A word read from the slot can be decoded: a compressed slot holds 32 bits,
    /// and the middle pointer of an offset slot lies at least the offset above zero.
    pub open spec fn can_load(self, word: usize) -> bool {
        match self {
            DummyVMSlot::Compressed(_) => word <= u32::MAX,
            DummyVMSlot::Offset(s) => word >= s@.1,
            _ => true,
        }
    }

    /// What `load` gives for the word `word` read from the slot.
    pub open spec fn load_spec(self, word: usize) -> Option<usize> {
        match self {
            DummyVMSlot::Simple(e) => e.load_spec(word),
            DummyVMSlot::Compressed(e) => e.load_spec(word as u32),
            DummyVMSlot::Offset(e) => e.load_spec(word),
            DummyVMSlot::Tagged(e) => e.load_spec(word),
        }
    }

    /// `object` can be written into the slot without overflow.
    pub open spec fn can_store(self, object: usize) -> bool {
        match self {
            DummyVMSlot::Offset(s) => object + s@.1 <= usize::MAX,
            _ => true,
        }
    }

    /// The word `store` writes for `object` when the slot holds `current`.
    pub open spec fn store_spec(self, object: usize, current: usize) -> usize {
        match self {
            DummyVMSlot::Simple(e) => e.store_spec(object),
            DummyVMSlot::Compressed(e) => e.store_spec(object) as usize,
            DummyVMSlot::Offset(e) => e.store_spec(object),
            DummyVMSlot::Tagged(e) => e.store_spec(object, current),
        }
    }

    /// The slot can hold `object` exactly: a compressed slot holds 8-byte aligned
    /// addresses below 2^35, a tagged slot addresses whose tag bits are clear.
    pub open spec fn can_hold(self, object: usize) -> bool {
        match self {
            DummyVMSlot::Simple(_) => true,
            DummyVMSlot::Compressed(_) => object & 7 == 0 && object >> 3usize <= 0xffff_ffffusize,
            DummyVMSlot::Offset(s) => object + s@.1 <= usize::MAX,
            DummyVMSlot::Tagged(_) => object & TAG_BITS_MASK == 0,
        }
    }

    /// The address of the memory word the slot occupies.
    pub fn address(&self) -> (a: usize)
        ensures
            a == self.address_spec(),
    {
        match self {
            DummyVMSlot::Simple(s) => s.as_address(),
            DummyVMSlot::Compressed(s) => s.as_address(),
            DummyVMSlot::Offset(s) => s.slot_address(),
            DummyVMSlot::Tagged(s) => s.as_address(),
        }
    }

    /// The slot's word is 32 bits wide rather than a machine word.
    pub fn is_compressed(&self) -> (b: bool)
        ensures
            b == (*self is Compressed),
    {
        match self {
            DummyVMSlot::Compressed(_) => true,
            _ => false,
        }
    }

    /// A store needs the word the slot holds now (to keep its tag).
    pub fn store_reads_current(&self) -> (b: bool)
        ensures
            b == (*self is Tagged),
    {
        match self {
            DummyVMSlot::Tagged(_) => true,
            _ => false,
        }
    }

    /// The object that the word `word` read from the slot refers to, if any.
    pub fn load_value(&self, word: usize) -> (r: Option<usize>)
        requires
            self.can_load(word),
        ensures
            r == self.load_spec(word),
    {
        match self {
            DummyVMSlot::Simple(e) => e.load_value(word),
            DummyVMSlot::Compressed(e) => e.load_value(word as u32),
            DummyVMSlot::Offset(e) => e.load_value(word),
            DummyVMSlot::Tagged(e) => e.load_value(word),
        }
    }

    /// The word to write into the slot so that it refers to `object`, when it
    /// holds `current` now (only a tagged slot looks at `current`).
    pub fn store_value(&self, object: usize, current: usize) -> (word: usize)
        requires
            object != 0,
            self.can_store(object),
        ensures
            word == self.store_spec(object, current),
    {
        match self {
            DummyVMSlot::Simple(e) => e.store_value(object),
            DummyVMSlot::Compressed(e) => e.store_value(object) as usize,
            DummyVMSlot::Offset(e) => e.store_value(object),
            DummyVMSlot::Tagged(e) => e.store_value(object, current),
        }
    }
}

proof fn lemma_compress_round_trip(object: usize)
    by (bit_vector)
    requires
        object & 7 == 0,
        object >> 3usize <= 0xffff_ffffusize,
    ensures
        (((object >> 3usize) as u32) as usize) << 3usize == object,
        ((object >> 3usize) as u32) as usize <= 0xffff_ffffusize,
{
}

proof fn lemma_expand_round_trip(word: usize)
    by (bit_vector)
    requires
        word <= 0xffff_ffffusize,
        ((word as u32) as usize) << 3usize >> 3usize == word,
    ensures
        ((((word as u32) as usize) << 3usize) >> 3usize) as u32 as usize == word,
{
}

proof fn lemma_tag_round_trip(object: usize, current: usize)
    by (bit_vector)
    requires
        object & 3 == 0,
    ensures
        (object | (current & 3)) & !3usize == object,
        (object | (current & 3)) & 3 == current & 3,
{
}

proof fn lemma_untag_retag(word: usize)
    by (bit_vector)
    ensures
        (word & !3usize) | (word & 3) == word,
{
}

/// A contiguous array of object references in memory: `len` words from `start`.
#[derive(Clone, Copy, Debug, PartialEq, Eq, Hash)]
pub struct DummyVMMemorySlice {
    start: usize,
    len: usize,
}

impl View for DummyVMMemorySlice {
    type V = (usize, usize);

    /// The start address and the number of references.
    closed spec fn view(&self) -> (usize, usize) {
        (self.start, self.len)
    }
}

/// The addresses of `count` consecutive words from `start`.
pub open spec fn word_addresses(start: usize, count: nat) -> Seq<usize> {
    Seq::new(count, |i: int| (start + i * word_bytes()) as usize)
}

impl DummyVMMemorySlice {
    #[verifier::type_invariant]
    spec fn fits(self) -> bool {
        self.start + self.len * word_bytes() <= usize::MAX
    }

    /// The slice of the `len` references stored from `start`.
    pub fn new(start: usize, len: usize) -> (s: Self)
        requires
            start + len * word_bytes() <= usize::MAX,
        ensures
            s@ == (start, len),
    {
        DummyVMMemorySlice { start, len }
    }

    /// The slots of the slice, one simple slot per word, in address order.
    pub fn iter_slots(&self) -> (it: DummyVMMemorySliceIterator)
        ensures
            it.remaining() == word_addresses(self@.0, self@.1 as nat),
    {
        proof {
            use_type_invariant(self);
        }
        let w = word_size();
        let bytes = self.len * w;
        let it = DummyVMMemorySliceIterator { cursor: self.start, limit: self.start + bytes };
        proof {
            assert(bytes as int == self.len * word_bytes()) by (nonlinear_arith)
                requires
                    bytes == self.len * w,
                    w == word_bytes(),
            ;
            vstd::arithmetic::div_mod::lemma_div_multiples_vanish(self.len as int, w as int);
            assert(self.len * w == w * self.len) by (nonlinear_arith);
            vstd::arithmetic::div_mod::lemma_mod_multiples_basic(self.len as int, w as int);
            assert(it.remaining() =~= word_addresses(self@.0, self@.1 as nat));
        }
        it
    }

    /// The object that owns the slice: none, the slice stands on its own.
    pub fn object(&self) -> (r: Option<usize>)
        ensures
            r is None,
    {
        None
    }

    /// The address of the first reference.
    pub fn start(&self) -> (a: usize)
        ensures
            a == self@.0,
    {
        self.start
    }

    /// The size of the slice in bytes.
    pub fn bytes(&self) -> (b: usize)
        ensures
            b == self@.1 * word_bytes(),
    {
        proof {
            use_type_invariant(self);
        }
        self.len * word_size()
    }

    /// The number of words a copy from `src` to `tgt` moves: the size of `tgt`,
    /// which is a whole number of words (the two sizes are meant to agree).
    pub fn words_to_copy(src: &Self, tgt: &Self) -> (words: usize)
        ensures
            words == tgt@.1,
            words * word_bytes() == tgt@.1 * word_bytes(),
    {
        let tgt_bytes = tgt.bytes();
        let w = word_size();
        proof {
            vstd::arithmetic::div_mod::lemma_div_multiples_vanish(tgt@.1 as int, w as int);
            assert(tgt@.1 * w == w * tgt@.1) by (nonlinear_arith);
        }
        tgt_bytes / w
    }
}

/// The iterator over the slots of a memory slice.
pub struct DummyVMMemorySliceIterator {
    cursor: usize,
    limit: usize,
}

impl DummyVMMemorySliceIterator {
    #[verifier::type_invariant]
    spec fn whole_words(self) -> bool {
        &&& self.cursor <= self.limit
        &&& (self.limit - self.cursor) % word_bytes() == 0
    }

    /// The addresses of the slots not yet handed out.
    pub closed spec fn remaining(self) -> Seq<usize> {
        word_addresses(self.cursor, ((self.limit - self.cursor) / word_bytes()) as nat)
    }

    /// The next slot: the word at the cursor, as a simple slot.
    pub fn next(&mut self) -> (r: Option<DummyVMSlot>)
        ensures
            old(self).remaining().len() == 0 ==> r is None && final(self).remaining()
                == old(self).remaining(),
            old(self).remaining().len() > 0 ==> (r matches Some(DummyVMSlot::Simple(s)) && s@
                == old(self).remaining()[0]),
            old(self).remaining().len() > 0 ==> final(self).remaining() == old(
                self,
            ).remaining().drop_first(),
            simple_slot_address(r) == next_results(old(self).remaining(), 1)[0],
    {
        proof {
            let rem = old(self).remaining();
            let first: Option<usize> = if rem.len() == 0 {
                None
            } else {
                Some(rem[0])
            };
            assert(next_results(rem, 1)[0] == first);
        }
        proof {
            use_type_invariant(&*self);
        }
        if self.cursor >= self.limit {
            None
        } else {
            let edge = self.cursor;
            let w = word_size();
            proof {
                vstd::arithmetic::div_mod::lemma_mod_sub_multiples_vanish(
                    (self.limit - self.cursor) as int,
                    w as int,
                );
                assert(self.limit - self.cursor >= w) by (nonlinear_arith)
                    requires
                        (self.limit - self.cursor) % (w as int) == 0,
                        self.limit - self.cursor > 0,
                        w > 0,
                ;
            }
            let ghost c0 = self.cursor as int;
            let ghost lim = self.limit as int;
            self.cursor = self.cursor + w;
            proof {
                let before = old(self).remaining();
                let after = self.remaining();
                let wi = w as int;
                assert((lim - (c0 + wi)) / wi == (lim - c0) / wi - 1) by (nonlinear_arith)
                    requires
                        wi > 0,
                        lim - c0 >= wi,
                ;
                assert forall|i: int| 0 <= i < after.len() implies after[i] == before.drop_first()[i] by {
                    assert(c0 + wi + i * wi == c0 + (i + 1) * wi) by (nonlinear_arith);
                }
                assert(after =~= before.drop_first());
            }
            Some(DummyVMSlot::Simple(SimpleSlot::from_address(edge)))
        }
    }
}

/// The address of the slot that `next` handed out, if it is a simple slot.
pub open spec fn simple_slot_address(r: Option<DummyVMSlot>) -> Option<usize> {
    match r {
        Some(DummyVMSlot::Simple(s)) => Some(s@),
        _ => None,
    }
}

/// What `count` calls of `next` return on an iterator whose remaining slot
/// addresses are `remaining` (the address of each simple slot handed out).
pub open spec fn next_results(remaining: Seq<usize>, count: nat) -> Seq<Option<usize>>
    decreases count,
{
    if count == 0 {
        Seq::empty()
    } else if remaining.len() == 0 {
        seq![None].add(next_results(remaining, (count - 1) as nat))
    } else {
        seq![Some(remaining[0])].add(next_results(remaining.drop_first(), (count - 1) as nat))
    }
}

proof fn lemma_next_results(remaining: Seq<usize>, count: nat)
    ensures
        next_results(remaining, count).len() == count,
        forall|i: int|
            0 <= i < count ==> #[trigger] next_results(remaining, count)[i] == if i
                < remaining.len() {
                Some(remaining[i])
            } else {
                None::<usize>
            },
    decreases count,
{
    if count > 0 {
        let rest = if remaining.len() == 0 {
            remaining
        } else {
            remaining.drop_first()
        };
        lemma_next_results(rest, (count - 1) as nat);
        let first: Option<usize> = if remaining.len() == 0 {
            None
        } else {
            Some(remaining[0])
        };
        assert(next_results(remaining, count) == seq![first].add(
            next_results(rest, (count - 1) as nat),
        ));
    }
}

/// The slots of a slice, iterated from `iter_slots`: the first `len` calls of
/// `next` hand out the simple slots at `start`, `start + W`, ... in increasing
/// order (W the word size, so `len == bytes / W`), and every later call returns
/// `None`.
pub proof fn lemma_slice_iteration(slice: DummyVMMemorySlice, extra: nat)
    ensures
        next_results(word_addresses(slice@.0, slice@.1 as nat), (slice@.1 + extra) as nat) == Seq::new(
            (slice@.1 + extra) as nat,
            |i: int|
                if i < slice@.1 {
                    Some((slice@.0 + i * word_bytes()) as usize)
                } else {
                    None::<usize>
                },
        ),
        slice@.1 == (slice@.1 * word_bytes()) / word_bytes(),
{
    let n = (slice@.1 + extra) as nat;
    lemma_next_results(word_addresses(slice@.0, slice@.1 as nat), n);
    assert(next_results(word_addresses(slice@.0, slice@.1 as nat), n) =~= Seq::new(
        n,
        |i: int|
            if i < slice@.1 {
                Some((slice@.0 + i * word_bytes()) as usize)
            } else {
                None::<usize>
            },
    ));
    vstd::arithmetic::div_mod::lemma_div_multiples_vanish(slice@.1 as int, word_bytes());
    assert(slice@.1 * word_bytes() == word_bytes() * slice@.1) by (nonlinear_arith);
}

/// A `DummyVMSlot` behaves exactly as the slot it holds: the same address, the same
/// decoding of the word read, the same word written.
pub proof fn lemma_slot_is_its_kind(slot: DummyVMSlot, word: usize, object: usize, current: usize)
    ensures
        match slot {
            DummyVMSlot::Simple(e) => slot.address_spec() == e@ && slot.load_spec(word)
                == e.load_spec(word) && slot.store_spec(object, current) == e.store_spec(object),
            DummyVMSlot::Compressed(e) => slot.address_spec() == e@ && slot.load_spec(word)
                == e.load_spec(word as u32) && slot.store_spec(object, current) == e.store_spec(
                object,
            ) as usize,
            DummyVMSlot::Offset(e) => slot.address_spec() == e@.0 && slot.load_spec(word)
                == e.load_spec(word) && slot.store_spec(object, current) == e.store_spec(object),
            DummyVMSlot::Tagged(e) => slot.address_spec() == e@ && slot.load_spec(word)
                == e.load_spec(word) && slot.store_spec(object, current) == e.store_spec(
                object,
                current,
            ),
        },
{
}

proof fn lemma_compress_mask(object: usize)
    by (bit_vector)
    ensures
        (((object >> 3usize) as u32) as usize) << 3usize == object & (0xffff_ffffusize << 3usize),
        (object & (0xffff_ffffusize << 3usize) == object) == (object & 7 == 0 && object >> 3usize
            <= 0xffff_ffffusize),
{
}

/// A load from a compressed slot after a store of `object` gives the address with
/// the bits below 3 and above 34 cleared; so it gives `object` back exactly when
/// the object is 8-byte aligned and below 2^35.
pub proof fn lemma_compressed_load_after_store(slot: CompressedOopSlot, object: usize)
    requires
        object != 0,
    ensures
        slot.load_spec(slot.store_spec(object)) == object_at(object & (0xffff_ffffusize << 3usize)),
        slot.load_spec(slot.store_spec(object)) == Some(object) <==> (object & 7 == 0 && object
            >> 3usize <= 0xffff_ffffusize),
{
    lemma_compress_mask(object);
}

/// A simple slot holds the object address unchanged: a non-zero word is the
/// object itself, zero is no object, and a store writes the object's address.
pub proof fn lemma_simple_slot_holds_address(slot: SimpleSlot, word: usize, object: usize)
    ensures
        word != 0 ==> slot.load_spec(word) == Some(word),
        word == 0 ==> slot.load_spec(word) is None,
        slot.store_spec(object) == object,
{
}

proof fn lemma_shift3_arith(o: usize)
    by (bit_vector)
    ensures
        ((o >> 3usize) as u32) as usize == (o / 8) & 0xffff_ffffusize,
        o / 8 <= 0xffff_ffffusize ==> ((o >> 3usize) as u32) as usize == o / 8,
{
}

/// A compressed slot holds the address divided by eight in 32 bits: a word `c`
/// loads as the address `8 * c` (none for zero), and a store writes the address
/// divided by eight, keeping its low 32 bits.
pub proof fn lemma_compressed_slot_encoding(slot: CompressedOopSlot, compressed: u32, object: usize)
    ensures
        compressed as int * 8 <= usize::MAX ==> slot.load_spec(compressed) == if compressed == 0 {
            None
        } else {
            Some((compressed as int * 8) as usize)
        },
        slot.store_spec(object) as usize == (object / 8) & 0xffff_ffffusize,
        object / 8 <= u32::MAX ==> slot.store_spec(object) as usize == object / 8,
{
    lemma_shift3_arith(object);
    if compressed as int * 8 <= usize::MAX {
        vstd::arithmetic::power2::lemma2_to64();
        vstd::bits::lemma_usize_shl_is_mul(compressed as usize, 3);
    }
}

/// An offset slot holds the object address plus the offset: a word `m` loads as
/// `m - offset` (none when that is zero), and a store writes `object + offset`.
pub proof fn lemma_offset_slot_encoding(slot: OffsetSlot, middle: usize, object: usize)
    ensures
        middle >= slot@.1 ==> slot.load_spec(middle) == if middle == slot@.1 {
            None
        } else {
            Some((middle - slot@.1) as usize)
        },
        object + slot@.1 <= usize::MAX ==> slot.store_spec(object) == object + slot@.1,
{
}

proof fn lemma_tag_arith(t: usize, o: usize, old: usize)
    by (bit_vector)
    ensures
        t & !3usize == t - t % 4,
        o % 4 == 0 ==> (o | (old & 3usize)) == o + old % 4,
{
}

/// A tagged slot holds the object address in all but its low two bits: a word
/// `t` loads as `t` rounded down to a multiple of four (none when that is zero),
/// and a store of a 4-aligned object writes the object plus the old tag.
pub proof fn lemma_tagged_slot_encoding(slot: TaggedSlot, tagged: usize, object: usize, old: usize)
    ensures
        TAG_BITS_MASK == 3,
        slot.load_spec(tagged) == if tagged - tagged % 4 == 0 {
            None
        } else {
            Some((tagged - tagged % 4) as usize)
        },
        object % 4 == 0 ==> slot.store_spec(object, old) == object + old % 4,
{
    lemma_tag_arith(tagged, object, old);
}

/// The `i`-th slot of a slice sits `i` words after its start.
pub proof fn lemma_word_addresses(start: usize, count: nat, i: int)
    requires
        0 <= i < count,
        start + count * (usize::BITS / 8) <= usize::MAX + 1,
    ensures
        word_addresses(start, count).len() == count,
        word_addresses(start, count)[i] == start + i * (usize::BITS / 8),
{
    assert(i * (usize::BITS / 8) <= count * (usize::BITS / 8)) by (nonlinear_arith)
        requires
            0 <= i < count,
            usize::BITS / 8 >= 0,
    ;
    assert(i * (usize::BITS / 8) + (usize::BITS / 8) <= count * (usize::BITS / 8)) by (nonlinear_arith)
        requires
            0 <= i < count,
            usize::BITS / 8 >= 0,
    ;
}

/// A load gives back what a store wrote: after writing the word that
/// `store_value` gives for `object` (which the slot can hold), decoding that word
/// finds `object` again, whatever the slot held before.
pub proof fn lemma_load_after_store(slot: DummyVMSlot, object: usize, current: usize)
    requires
        object != 0,
        slot.can_hold(object),
    ensures
        slot.can_store(object),
        slot.can_load(slot.store_spec(object, current)),
        slot.load_spec(slot.store_spec(object, current)) == Some(object),
{
    match slot {
        DummyVMSlot::Compressed(_) => {
            lemma_compress_round_trip(object);
        },
        DummyVMSlot::Tagged(_) => {
            lemma_tag_round_trip(object, current);
        },
        _ => {},
    }
}

/// Storing what was loaded leaves the slot as it was: when a word decodes to an
/// object, the word `store_value` gives for that object is the word itself (a
/// compressed word must expand without losing bits).
pub proof fn lemma_store_after_load(slot: DummyVMSlot, word: usize, object: usize)
    requires
        slot.can_load(word),
        slot.load_spec(word) == Some(object),
        slot is Compressed ==> ((word as u32) as usize) << 3usize >> 3usize == word,
    ensures
        object != 0,
        slot.can_store(object),
        slot.store_spec(object, word) == word,
{
    match slot {
        DummyVMSlot::Compressed(_) => {
            lemma_expand_round_trip(word);
        },
        DummyVMSlot::Tagged(_) => {
            lemma_untag_retag(word);
        },
        _ => {},
    }
}

/// A store into a tagged slot keeps the slot's tag bits, and a load ignores them.
pub proof fn lemma_tagged_store_keeps_tag(slot: TaggedSlot, object: usize, current: usize)
    requires
        object & TAG_BITS_MASK == 0,
    ensures
        DummyVMSlot::Tagged(slot).store_spec(object, current) & TAG_BITS_MASK == current
            & TAG_BITS_MASK,
        DummyVMSlot::Tagged(slot).load_spec(DummyVMSlot::Tagged(slot).store_spec(object, current))
            == DummyVMSlot::Tagged(slot).load_spec(object),
{
    lemma_tag_round_trip(object, current);
    assert(object & !3usize == object) by (bit_vector)
        requires
            object & 3 == 0,
    ;
}

} // verus!
