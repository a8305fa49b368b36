use vstd::prelude::*;
use vstd::arithmetic::power2::pow2;
use vstd::bits::low_bits_mask;
use crate::word::{word_bytes, word_size};
use crate::object_model::OBJECT_REF_OFFSET;

verus! {

/// The scanning part of the binding.
pub struct VMScanning {}

/// `a` is a power of two that fits in a word.
pub open spec fn is_power_of_two(a: usize) -> bool {
    exists|n: nat| n < usize::BITS && #[trigger] pow2(n) == a
}

proof fn lemma_and_not_is_sub(value: usize, m: usize)
    by (bit_vector)
    ensures
        value & !m == value - (value & m),
{
}

/// Rounds `value` down by clearing the bits below `align`: for a power of two
/// that is the largest multiple of `align` not above `value`.
pub fn round_down(value: usize, align: usize) -> (r: usize)
    requires
        align >= 1,
    ensures
        r == value & !((align - 1) as usize),
        is_power_of_two(align) ==> r == value - value % align,
{
    proof {
        if is_power_of_two(align) {
            let n = choose|n: nat| n < usize::BITS && #[trigger] pow2(n) == align;
            vstd::bits::lemma_usize_low_bits_mask_is_mod(value, n);
            assert(low_bits_mask(n) == align - 1);
            lemma_and_not_is_sub(value, (align - 1) as usize);
        }
    }
    value & !(align - 1)
}


/// A word read off a stack may point into the heap `[base, end)`.
pub fn in_heap_range(addr: usize, base: usize, end: usize) -> (r: bool)
    ensures
        r == (base <= addr && addr < end),
{
    base <= addr && addr < end
}

/// How many bytes the search for an object start may cover below the pointer's
/// word: eight per word probed.
pub const INTERIOR_LIMIT: usize = 512;

/// One probe of the search for the start of the object that an interior pointer
/// points into. The heap starts at `base` and its valid-object bitmap at
/// `vo_bits`; the probe looks at the candidate object start `obj`, `covered` bytes
/// into the limit, whose valid-object bit is the bit `shift` of the byte at
/// `byte_addr`.
#[derive(Clone, Copy, Debug, PartialEq, Eq)]
pub struct VoBitCursor {
    pub base: usize,
    pub vo_bits: usize,
    pub obj: usize,
    pub covered: usize,
    pub byte_addr: usize,
    pub shift: usize,
}

/// What a probe decides once its byte has been read.
#[derive(Clone, Copy, Debug, PartialEq, Eq)]
pub enum VoBitProbe {
    /// The bit is clear: read the byte of this next probe.
    Next(VoBitCursor),
    /// The bit is set: this is the object reference.
    Found(usize),
    /// The search gave up: the limit was reached or the next word is below the heap.
    NotFound,
}

/// The bit `shift` of `byte` is set.
pub open spec fn is_marked(byte: u8, shift: usize) -> bool {
    (byte >> shift) & 1u8 != 0
}

/// The valid-object bit index of the address `offset` bytes into the heap: one
/// bit for every eight words.
pub open spec fn vo_bit_index(offset: int) -> int {
    offset / (word_bytes() * 8)
}

/// The probe of the word at `obj`, `covered` bytes into the limit, with the bit
/// of `obj` counted from the heap start.
pub open spec fn probe_at(base: usize, vo_bits: usize, obj: int, covered: int) -> VoBitCursor {
    let bits = vo_bit_index(obj - base);
    VoBitCursor {
        base,
        vo_bits,
        obj: obj as usize,
        covered: covered as usize,
        byte_addr: (vo_bits + bits / 8) as usize,
        shift: (bits % 8) as usize,
    }
}

/// The word that contains `pointer`.
pub open spec fn pointer_word(pointer: usize) -> int {
    pointer - (pointer as int) % word_bytes()
}

/// The first probe of the search for `pointer`: the word that contains it.
pub open spec fn initial_cursor(base: usize, pointer: usize, vo_bits: usize) -> VoBitCursor {
    probe_at(base, vo_bits, pointer_word(pointer), 0)
}

/// The inputs on which the search can start: the pointer's word is not below the
/// heap start, and its bitmap byte's address does not overflow.
pub open spec fn can_start(base: usize, pointer: usize, vo_bits: usize) -> bool {
    &&& pointer_word(pointer) >= base
    &&& vo_bits + vo_bit_index(pointer_word(pointer) - base) / 8 <= usize::MAX
}

/// The object reference that a set bit at object start `obj` stands for.
pub open spec fn object_ref_at(obj: usize) -> usize {
    (obj + OBJECT_REF_OFFSET) as usize
}

impl VoBitCursor {
    /// The shape every probe of a search has: a word in the heap, within the
    /// limit, whose bitmap byte and bit are those of its offset into the heap.
    pub open spec fn wf(self) -> bool {
        &&& self.covered <= INTERIOR_LIMIT
        &&& self.covered % 8 == 0
        &&& (self.obj as int) % word_bytes() == 0
        &&& self.obj >= self.base
        &&& self.vo_bits + vo_bit_index(self.obj - self.base) / 8 <= usize::MAX
        &&& self == probe_at(self.base, self.vo_bits, self.obj as int, self.covered as int)
    }

    /// The next lower word is in the heap and within the limit.
    pub open spec fn can_advance(self) -> bool {
        &&& self.covered + 8 <= INTERIOR_LIMIT
        &&& self.obj - word_bytes() >= self.base
    }

    /// The probe of the next lower word.
    pub open spec fn advance(self) -> VoBitCursor {
        probe_at(self.base, self.vo_bits, self.obj - word_bytes(), self.covered + 8)
    }

    /// What this probe decides when its byte reads `byte`.
    pub open spec fn probe(self, byte: u8) -> VoBitProbe {
        if is_marked(byte, self.shift) {
            VoBitProbe::Found(object_ref_at(self.obj))
        } else if self.can_advance() {
            VoBitProbe::Next(self.advance())
        } else {
            VoBitProbe::NotFound
        }
    }

    /// The search for `pointer` can start (see `can_start`).
    pub fn can_start_at(base: usize, pointer: usize, vo_bits: usize) -> (b: bool)
        ensures
            b == can_start(base, pointer, vo_bits),
    {
        let w = word_size();
        let obj = pointer - pointer % w;
        if obj < base {
            return false;
        }
        let bits_since_start = (obj - base) / (w * 8);
        bits_since_start / 8 <= usize::MAX - vo_bits
    }

    /// `step` can decide this probe on the byte `byte_val`: a set bit gives an
    /// object reference that fits in a word.
    pub open spec fn can_step_spec(self, byte_val: u8) -> bool {
        is_marked(byte_val, self.shift) ==> self.obj + OBJECT_REF_OFFSET <= usize::MAX
    }

    /// Tells whether `step` can decide this probe on the byte `byte_val`.
    pub fn can_step(&self, byte_val: u8) -> (b: bool)
        requires
            self.wf(),
        ensures
            b == self.can_step_spec(byte_val),
    {
        if (byte_val >> self.shift) & 1 != 0 {
            self.obj <= usize::MAX - OBJECT_REF_OFFSET
        } else {
            true
        }
    }

    /// The first probe of the search for `pointer` in the heap that starts at
    /// `base`, with the valid-object bitmap at `vo_bits`.
    pub fn start(base: usize, pointer: usize, vo_bits: usize) -> (c: VoBitCursor)
        requires
            can_start(base, pointer, vo_bits),
        ensures
            c == initial_cursor(base, pointer, vo_bits),
            c.wf(),
    {
        let w = word_size();
        proof {
            vstd::arithmetic::power2::lemma2_to64();
            if w == 4 {
                assert(pow2(2) == w);
            } else {
                assert(pow2(3) == w);
            }
            assert(is_power_of_two(w));
        }
        let obj = round_down(pointer, w);
        let from_base_obj = obj - base;
        let bits_since_start = from_base_obj / (w * 8);
        let vo_bit_byte_addr = vo_bits + bits_since_start / 8;
        let vo_bit_in_byte_shift = bits_since_start % 8;
        proof {
            lemma_sub_mod_is_multiple(pointer as int, w as int);
        }
        VoBitCursor {
            base,
            vo_bits,
            obj,
            covered: 0,
            byte_addr: vo_bit_byte_addr,
            shift: vo_bit_in_byte_shift,
        }
    }

    /// Decides this probe once the byte at `byte_addr` has been read as `byte_val`.
    pub fn step(&self, byte_val: u8) -> (p: VoBitProbe)
        requires
            self.wf(),
            self.can_step_spec(byte_val),
        ensures
            p == self.probe(byte_val),
            p matches VoBitProbe::Next(n) ==> n.wf() && n.covered == self.covered + 8,
    {
        if (byte_val >> self.shift) & 1 != 0 {
            return VoBitProbe::Found(self.obj + OBJECT_REF_OFFSET);
        }
        let w = word_size();
        let covered = self.covered + 8;
        if self.obj - self.base < w || covered > INTERIOR_LIMIT {
            return VoBitProbe::NotFound;
        }
        let obj = self.obj - w;
        let bits_since_start = (obj - self.base) / (w * 8);
        proof {
            lemma_bitmap_byte_ordered(self.base as int, obj as int, self.obj as int);
        }
        let vo_bit_byte_addr = self.vo_bits + bits_since_start / 8;
        let vo_bit_in_byte_shift = bits_since_start % 8;
        proof {
            lemma_sub_word_keeps_alignment(self.obj as int, w as int);
        }
        VoBitProbe::Next(
            VoBitCursor {
                base: self.base,
                vo_bits: self.vo_bits,
                obj,
                covered,
                byte_addr: vo_bit_byte_addr,
                shift: vo_bit_in_byte_shift,
            },
        )
    }
}

/// The valid-object bit of probe `c` is set when the bitmap memory reads `mem`.
pub open spec fn probe_marked(c: VoBitCursor, mem: spec_fn(usize) -> u8) -> bool {
    is_marked(mem(c.byte_addr), c.shift)
}

/// The outcome of the whole search from probe `c` when each bitmap byte at address
/// `a` reads `mem(a)`: what the loop that reads `c.byte_addr` and calls `step`
/// until it stops returns.
pub open spec fn scan(c: VoBitCursor, mem: spec_fn(usize) -> u8) -> Option<usize>
    decreases INTERIOR_LIMIT + 8 - c.covered,
{
    if probe_marked(c, mem) {
        Some(object_ref_at(c.obj))
    } else if c.can_advance() {
        scan(c.advance(), mem)
    } else {
        None
    }
}

/// The number of bitmap bytes that search reads.
pub open spec fn bytes_read(c: VoBitCursor, mem: spec_fn(usize) -> u8) -> nat
    decreases INTERIOR_LIMIT + 8 - c.covered,
{
    if probe_marked(c, mem) || !c.can_advance() {
        1
    } else {
        1 + bytes_read(c.advance(), mem)
    }
}

/// The probe `k` words below `c`.
pub open spec fn nth_probe(c: VoBitCursor, k: nat) -> VoBitCursor {
    probe_at(c.base, c.vo_bits, c.obj - k * word_bytes(), c.covered + 8 * k)
}

/// The word `k` words below `c` is in the heap and within the limit.
pub open spec fn in_window(c: VoBitCursor, k: nat) -> bool {
    &&& c.covered + 8 * k <= INTERIOR_LIMIT
    &&& c.obj - k * word_bytes() >= c.base
}

/// The valid-object bit of the heap word at `a` is set when the bitmap memory
/// reads `mem`; bits count from the heap start `base`.
pub open spec fn vo_bit_set(base: usize, vo_bits: usize, mem: spec_fn(usize) -> u8, a: int) -> bool {
    probe_marked(probe_at(base, vo_bits, a, 0), mem)
}

/// The words a search for `pointer` looks at: word-aligned, in the heap, at or
/// below the pointer's word and at most `INTERIOR_LIMIT / 8` words below it.
pub open spec fn in_search_window(base: usize, pointer: usize, a: int) -> bool {
    &&& a % word_bytes() == 0
    &&& base <= a <= pointer_word(pointer)
    &&& pointer_word(pointer) - a <= (INTERIOR_LIMIT / 8) * word_bytes()
}

/// The valid-object bit of the heap word at `a` is bit `i % 8` of the bitmap byte
/// `vo_bits + i / 8`, where `i = (a - base) / usize::BITS` numbers the heap's
/// eight-word groups from the heap start; probing `a` reads exactly that byte and bit.
pub proof fn lemma_vo_bit_position(
    base: usize,
    vo_bits: usize,
    mem: spec_fn(usize) -> u8,
    a: int,
    covered: int,
)
    requires
        base <= a <= usize::MAX,
        0 <= covered <= usize::MAX,
        vo_bits + ((a - base) / (usize::BITS as int)) / 8 <= usize::MAX,
    ensures
        ({
            let i = (a - base) / (usize::BITS as int);
            &&& probe_at(base, vo_bits, a, covered).byte_addr == vo_bits + i / 8
            &&& probe_at(base, vo_bits, a, covered).shift == i % 8
            &&& probe_at(base, vo_bits, a, covered).obj == a
            &&& probe_at(base, vo_bits, a, covered).covered == covered
            &&& probe_at(base, vo_bits, a, covered).base == base
            &&& probe_at(base, vo_bits, a, covered).vo_bits == vo_bits
            &&& vo_bit_set(base, vo_bits, mem, a) == ((mem((vo_bits + i / 8) as usize) >> ((i
                % 8) as usize)) & 1u8 != 0)
        }),
{
    assert(word_bytes() * 8 == usize::BITS);
}

/// The search for `pointer` starts at the word containing it (the pointer rounded
/// down to a word), reading that word's bit, and can start exactly when that word
/// is not below the heap start and its bitmap byte address does not overflow.
pub proof fn lemma_search_start(base: usize, pointer: usize, vo_bits: usize)
    ensures
        ({
            let w = usize::BITS as int / 8;
            let obj = pointer - (pointer as int) % w;
            &&& can_start(base, pointer, vo_bits) == (obj >= base && vo_bits + ((obj - base)
                / (8 * w)) / 8 <= usize::MAX)
            &&& initial_cursor(base, pointer, vo_bits).covered == 0
            &&& can_start(base, pointer, vo_bits) ==> initial_cursor(base, pointer, vo_bits).obj
                == obj
            &&& can_start(base, pointer, vo_bits) ==> initial_cursor(
                base,
                pointer,
                vo_bits,
            ).byte_addr == vo_bits + ((obj - base) / (8 * w)) / 8
            &&& can_start(base, pointer, vo_bits) ==> initial_cursor(
                base,
                pointer,
                vo_bits,
            ).shift == ((obj - base) / (8 * w)) % 8
        }),
{
    let w = usize::BITS as int / 8;
    vstd::arithmetic::div_mod::lemma_mod_bound(pointer as int, w);
    vstd::arithmetic::div_mod::lemma_mod_decreases(pointer as nat, w as nat);
    assert(word_bytes() == w);
    assert(word_bytes() * 8 == 8 * w);
}

/// One step of the search: a set bit gives the reference four bytes past the
/// probed word; a clear bit moves one word down, eight bytes further into the
/// limit of 512, unless that word would be below the heap start or past the limit.
pub proof fn lemma_step_moves_one_word(c: VoBitCursor, byte: u8)
    ensures
        INTERIOR_LIMIT == 512,
        is_marked(byte, c.shift) == ((byte >> c.shift) & 1u8 != 0),
        is_marked(byte, c.shift) && c.obj + 4 <= usize::MAX ==> c.probe(byte) == VoBitProbe::Found(
            (c.obj + 4) as usize,
        ),
        !is_marked(byte, c.shift) ==> (c.probe(byte) is NotFound <==> (c.covered + 8 > 512
            || c.obj - usize::BITS as int / 8 < c.base)),
        c.probe(byte) matches VoBitProbe::Next(n) ==> n.obj == c.obj - usize::BITS as int / 8
            && n.covered == c.covered + 8 && n.base == c.base && n.vo_bits == c.vo_bits,
{
    assert(word_bytes() == usize::BITS as int / 8);
}

/// Moving to the next lower word renumbers the probes below it by one.
proof fn lemma_advance_nth(c: VoBitCursor, k: nat)
    requires
        c.wf(),
        c.can_advance(),
    ensures
        c.advance().wf(),
        nth_probe(c.advance(), k) == nth_probe(c, k + 1),
        in_window(c.advance(), k) == in_window(c, k + 1),
{
    let w = word_bytes();
    let n = c.advance();
    lemma_sub_word_keeps_alignment(c.obj as int, w);
    lemma_bitmap_byte_ordered(c.base as int, c.obj - w, c.obj as int);
    assert((k + 1) * w == k * w + w) by (nonlinear_arith);
}

/// A probe below `c` in the window means the next lower word is in it too.
proof fn lemma_window_advances(c: VoBitCursor, k: nat)
    requires
        c.wf(),
        in_window(c, k),
        k >= 1,
    ensures
        c.can_advance(),
{
    let w = word_bytes();
    assert(k * w >= w) by (nonlinear_arith)
        requires
            k >= 1,
            w > 0,
    ;
}

/// Probe zero is `c` itself.
proof fn lemma_nth_zero(c: VoBitCursor)
    requires
        c.wf(),
    ensures
        nth_probe(c, 0) == c,
        in_window(c, 0),
{
    assert(0 * word_bytes() == 0) by (nonlinear_arith);
}

/// The search returns the object reference of the first probe, counting down
/// word by word from `c`, whose valid-object bit is set; it returns `None` only
/// when no probe in the window has its bit set.
pub proof fn lemma_scan_finds_first_marked(c: VoBitCursor, mem: spec_fn(usize) -> u8)
    requires
        c.wf(),
    ensures
        scan(c, mem) matches Some(r) ==> exists|k: nat|
            {
                &&& in_window(c, k)
                &&& probe_marked(#[trigger] nth_probe(c, k), mem)
                &&& r == object_ref_at(nth_probe(c, k).obj)
                &&& forall|i: nat| i < k ==> !probe_marked(#[trigger] nth_probe(c, i), mem)
            },
        scan(c, mem) is None ==> forall|k: nat|
            in_window(c, k) ==> !probe_marked(#[trigger] nth_probe(c, k), mem),
    decreases INTERIOR_LIMIT + 8 - c.covered,
{
    lemma_nth_zero(c);
    if probe_marked(c, mem) {
    } else if c.can_advance() {
        let n = c.advance();
        lemma_advance_nth(c, 0);
        lemma_scan_finds_first_marked(n, mem);
        if let Some(r) = scan(c, mem) {
            let k = choose|k: nat|
                {
                    &&& in_window(n, k)
                    &&& probe_marked(#[trigger] nth_probe(n, k), mem)
                    &&& r == object_ref_at(nth_probe(n, k).obj)
                    &&& forall|i: nat| i < k ==> !probe_marked(#[trigger] nth_probe(n, i), mem)
                };
            lemma_advance_nth(c, k);
            assert forall|i: nat| i < k + 1 implies !probe_marked(#[trigger] nth_probe(c, i), mem) by {
                if i > 0 {
                    lemma_advance_nth(c, (i - 1) as nat);
                }
            }
            assert(in_window(c, k + 1) && probe_marked(nth_probe(c, k + 1), mem));
        } else {
            assert forall|k: nat| in_window(c, k) implies !probe_marked(#[trigger] nth_probe(c, k), mem) by {
                if k > 0 {
                    lemma_advance_nth(c, (k - 1) as nat);
                }
            }
        }
    } else {
        assert forall|k: nat| in_window(c, k) implies !probe_marked(#[trigger] nth_probe(c, k), mem) by {
            if k > 0 {
                lemma_window_advances(c, k);
            }
        }
    }
}

/// One call of `step` on the byte that probe `c` reads is one step of the search:
/// the whole search is the loop that feeds `step` the byte at each probe's address.
pub proof fn lemma_scan_steps(c: VoBitCursor, mem: spec_fn(usize) -> u8)
    ensures
        scan(c, mem) == match c.probe(mem(c.byte_addr)) {
            VoBitProbe::Found(r) => Some(r),
            VoBitProbe::NotFound => None,
            VoBitProbe::Next(n) => scan(n, mem),
        },
        bytes_read(c, mem) == match c.probe(mem(c.byte_addr)) {
            VoBitProbe::Next(n) => 1 + bytes_read(n, mem),
            _ => 1,
        },
{
}

/// Whatever the bitmap holds, the search reads at most one byte per word of the
/// limit and one more: at most `INTERIOR_LIMIT / 8 + 1` bytes from its start.
pub proof fn lemma_search_reads_bounded(c: VoBitCursor, mem: spec_fn(usize) -> u8)
    requires
        c.wf(),
    ensures
        bytes_read(c, mem) <= (INTERIOR_LIMIT - c.covered) / 8 + 1,
    decreases INTERIOR_LIMIT + 8 - c.covered,
{
    if !(probe_marked(c, mem) || !c.can_advance()) {
        lemma_advance_nth(c, 0);
        lemma_search_reads_bounded(c.advance(), mem);
    }
}

/// Every probe in the window reads a bitmap byte between the start of the bitmap
/// and the byte of the first probe: a search never reads before the bitmap nor
/// past the pointer's own byte.
pub proof fn lemma_probe_bytes_in_bitmap(c: VoBitCursor, k: nat)
    requires
        c.wf(),
        in_window(c, k),
    ensures
        nth_probe(c, k).wf(),
        c.vo_bits <= nth_probe(c, k).byte_addr <= c.byte_addr,
        nth_probe(c, k).obj == c.obj - k * word_bytes(),
{
    let w = word_bytes();
    assert(k * w >= 0) by (nonlinear_arith)
        requires
            w > 0,
    ;
    assert((c.obj - k * w) % w == 0) by {
        vstd::arithmetic::div_mod::lemma_mod_multiples_vanish(-(k as int), c.obj as int, w);
        assert(c.obj - k * w == w * (-(k as int)) + c.obj) by (nonlinear_arith);
    }
    lemma_bitmap_byte_ordered(c.base as int, c.obj - k * w, c.obj as int);
}

/// Maps a word of the search window to the probe that looks at it.
proof fn lemma_word_to_probe(c: VoBitCursor, a: int) -> (k: nat)
    requires
        c.wf(),
        c.covered == 0,
        a % word_bytes() == 0,
        c.base <= a <= c.obj,
        c.obj - a <= (INTERIOR_LIMIT / 8) * word_bytes(),
    ensures
        k * word_bytes() == c.obj - a,
        k <= INTERIOR_LIMIT / 8,
        in_window(c, k),
        nth_probe(c, k) == probe_at(c.base, c.vo_bits, a, (8 * k) as int),
{
    let w = word_bytes();
    let d = c.obj - a;
    vstd::arithmetic::div_mod::lemma_mod_sub_multiples_vanish(c.obj as int, w);
    assert(d % w == 0) by {
        vstd::arithmetic::div_mod::lemma_sub_mod_noop(c.obj as int, a, w);
    }
    vstd::arithmetic::div_mod::lemma_fundamental_div_mod(d, w);
    let k = (d / w) as nat;
    assert(k * w == d) by (nonlinear_arith)
        requires
            d == w * (d / w) + d % w,
            d % w == 0,
            k == d / w,
    ;
    assert(k <= INTERIOR_LIMIT / 8) by (nonlinear_arith)
        requires
            k * w <= (INTERIOR_LIMIT / 8) * w,
            w > 0,
    ;
    k
}

/// Maps a probe of the window back to the word it looks at.
proof fn lemma_probe_to_word(c: VoBitCursor, pointer: usize, k: nat)
    requires
        c.wf(),
        c == initial_cursor(c.base, pointer, c.vo_bits),
        in_window(c, k),
    ensures
        in_search_window(c.base, pointer, c.obj - k * word_bytes()),
        nth_probe(c, k) == probe_at(c.base, c.vo_bits, c.obj - k * word_bytes(), (8 * k) as int),
{
    let w = word_bytes();
    lemma_probe_bytes_in_bitmap(c, k);
    vstd::arithmetic::div_mod::lemma_mod_bound(pointer as int, w);
    vstd::arithmetic::div_mod::lemma_mod_decreases(pointer as nat, w as nat);
    assert(c.obj == pointer_word(pointer));
    assert(c.covered == 0);
    assert(k * w <= (INTERIOR_LIMIT / 8) * w) by (nonlinear_arith)
        requires
            8 * k <= INTERIOR_LIMIT,
            w > 0,
    ;
}

/// The search for an interior pointer returns the reference of the nearest word,
/// at or below the pointer's word and no further than the window reaches, whose
/// valid-object bit is set; it returns `None` when no word of the window has its
/// bit set. A found object thus starts in the heap, word-aligned, at most
/// `INTERIOR_LIMIT / 8` words below the pointer's word.
pub proof fn lemma_search_finds_nearest_object(
    base: usize,
    pointer: usize,
    vo_bits: usize,
    mem: spec_fn(usize) -> u8,
)
    requires
        can_start(base, pointer, vo_bits),
        pointer_word(pointer) + OBJECT_REF_OFFSET <= usize::MAX,
    ensures
        scan(initial_cursor(base, pointer, vo_bits), mem) matches Some(r) ==> {
            &&& r >= OBJECT_REF_OFFSET
            &&& in_search_window(base, pointer, r - OBJECT_REF_OFFSET)
            &&& vo_bit_set(base, vo_bits, mem, r - OBJECT_REF_OFFSET)
            &&& forall|a: int|
                in_search_window(base, pointer, a) && #[trigger] vo_bit_set(base, vo_bits, mem, a)
                    ==> a <= r - OBJECT_REF_OFFSET
        },
        scan(initial_cursor(base, pointer, vo_bits), mem) is None ==> forall|a: int|
            in_search_window(base, pointer, a) ==> !#[trigger] vo_bit_set(base, vo_bits, mem, a),
{
    let c = initial_cursor(base, pointer, vo_bits);
    let w = word_bytes();
    lemma_initial_cursor_wf(base, pointer, vo_bits);
    lemma_scan_finds_first_marked(c, mem);
    if let Some(r) = scan(c, mem) {
        let k = choose|k: nat|
            {
                &&& in_window(c, k)
                &&& probe_marked(#[trigger] nth_probe(c, k), mem)
                &&& r == object_ref_at(nth_probe(c, k).obj)
                &&& forall|i: nat| i < k ==> !probe_marked(#[trigger] nth_probe(c, i), mem)
            };
        lemma_probe_to_word(c, pointer, k);
        let found = c.obj - k * w;
        assert(vo_bit_set(base, vo_bits, mem, found));
        assert forall|a: int|
            in_search_window(base, pointer, a) && #[trigger] vo_bit_set(base, vo_bits, mem, a)
                implies a <= r - OBJECT_REF_OFFSET by {
            let j = lemma_word_to_probe(c, a);
            if a > found {
                assert(j < k) by (nonlinear_arith)
                    requires
                        j * w == c.obj - a,
                        k * w == c.obj - found,
                        a > found,
                        w > 0,
                ;
                assert(probe_marked(nth_probe(c, j), mem));
            }
        }
    } else {
        assert forall|a: int| in_search_window(base, pointer, a) implies !#[trigger] vo_bit_set(
            base,
            vo_bits,
            mem,
            a,
        ) by {
            let j = lemma_word_to_probe(c, a);
            assert(!probe_marked(nth_probe(c, j), mem));
        }
    }
}

/// Resolving the start of a found object again finds the same object.
pub proof fn lemma_found_object_resolves_to_itself(
    base: usize,
    pointer: usize,
    vo_bits: usize,
    mem: spec_fn(usize) -> u8,
    r: usize,
)
    requires
        can_start(base, pointer, vo_bits),
        pointer_word(pointer) + OBJECT_REF_OFFSET <= usize::MAX,
        scan(initial_cursor(base, pointer, vo_bits), mem) == Some(r),
    ensures
        r >= OBJECT_REF_OFFSET,
        can_start(base, (r - OBJECT_REF_OFFSET) as usize, vo_bits),
        scan(initial_cursor(base, (r - OBJECT_REF_OFFSET) as usize, vo_bits), mem) == Some(r),
{
    lemma_search_finds_nearest_object(base, pointer, vo_bits, mem);
    let a = (r - OBJECT_REF_OFFSET) as usize;
    assert((a as int) % word_bytes() == 0);
    assert(pointer_word(a) == a);
    lemma_bitmap_byte_ordered(base as int, a as int, pointer_word(pointer));
    assert(initial_cursor(base, a, vo_bits) == probe_at(base, vo_bits, a as int, 0));
}

proof fn lemma_more_bits_keep_mark(b1: u8, b2: u8, shift: usize)
    requires
        shift < 8,
        b1 & !b2 == 0,
        is_marked(b1, shift),
    ensures
        is_marked(b2, shift),
{
    let s = shift as u8;
    assert(b1 >> shift == b1 >> s && b2 >> shift == b2 >> s);
    assert(((b1 >> s) & 1u8 != 0 && b1 & !b2 == 0 && s < 8) ==> (b2 >> s) & 1u8 != 0)
        by (bit_vector);
}

/// Setting more valid-object bits can only bring the found object closer to the
/// pointer: a search that found an object still finds one, at or above it.
pub proof fn lemma_more_marks_find_nearer(
    base: usize,
    pointer: usize,
    vo_bits: usize,
    mem1: spec_fn(usize) -> u8,
    mem2: spec_fn(usize) -> u8,
    r1: usize,
)
    requires
        can_start(base, pointer, vo_bits),
        pointer_word(pointer) + OBJECT_REF_OFFSET <= usize::MAX,
        forall|x: usize| #[trigger] mem1(x) & !mem2(x) == 0,
        scan(initial_cursor(base, pointer, vo_bits), mem1) == Some(r1),
    ensures
        scan(initial_cursor(base, pointer, vo_bits), mem2) matches Some(r2) && r2 >= r1,
{
    lemma_search_finds_nearest_object(base, pointer, vo_bits, mem1);
    lemma_search_finds_nearest_object(base, pointer, vo_bits, mem2);
    let a = r1 - OBJECT_REF_OFFSET;
    let p = probe_at(base, vo_bits, a, 0);
    lemma_bitmap_byte_ordered(base as int, a, pointer_word(pointer));
    assert(p.shift < 8);
    lemma_more_bits_keep_mark(mem1(p.byte_addr), mem2(p.byte_addr), p.shift);
    assert(vo_bit_set(base, vo_bits, mem2, a));
}

/// The first probe of a search that can start has the shape of a probe.
pub proof fn lemma_initial_cursor_wf(base: usize, pointer: usize, vo_bits: usize)
    requires
        can_start(base, pointer, vo_bits),
    ensures
        initial_cursor(base, pointer, vo_bits).wf(),
        initial_cursor(base, pointer, vo_bits).obj == pointer_word(pointer),
{
    let w = word_bytes();
    lemma_sub_mod_is_multiple(pointer as int, w);
    lemma_bitmap_byte_ordered(base as int, pointer_word(pointer), pointer_word(pointer));
}

/// A lower word in the heap has its bit in the same or an earlier bitmap byte.
proof fn lemma_bitmap_byte_ordered(base: int, lo: int, hi: int)
    requires
        base <= lo <= hi,
    ensures
        0 <= vo_bit_index(lo - base) / 8 <= vo_bit_index(hi - base) / 8,
        0 <= vo_bit_index(lo - base),
{
    let d = word_bytes() * 8;
    vstd::arithmetic::div_mod::lemma_div_is_ordered(lo - base, hi - base, d);
    vstd::arithmetic::div_mod::lemma_div_is_ordered(0, lo - base, d);
    vstd::arithmetic::div_mod::lemma_div_is_ordered(vo_bit_index(lo - base), vo_bit_index(hi - base), 8);
    vstd::arithmetic::div_mod::lemma_div_is_ordered(0, vo_bit_index(lo - base), 8);
}

proof fn lemma_sub_mod_is_multiple(p: int, w: int)
    requires
        w > 0,
        p >= 0,
    ensures
        (p - p % w) % w == 0,
{
    vstd::arithmetic::div_mod::lemma_fundamental_div_mod(p, w);
    vstd::arithmetic::div_mod::lemma_mod_multiples_basic(p / w, w);
    assert(w * (p / w) == (p / w) * w) by (nonlinear_arith);
}

proof fn lemma_sub_word_keeps_alignment(obj: int, w: int)
    requires
        w > 0,
        obj >= w,
        obj % w == 0,
    ensures
        (obj - w) % w == 0,
{
    vstd::arithmetic::div_mod::lemma_mod_sub_multiples_vanish(obj, w);
}

} // verus!
