use vstd::prelude::*;
use crate::word::{word_bytes, word_size};

verus! {

/// The offset from the allocation result (the object start) to the object
/// reference of the object placed there. `ref_to_object_start`, `ref_to_address`
/// and `address_to_ref` use it.
pub const OBJECT_REF_OFFSET: usize = 4;

/// An object reference is a non-zero address; a raw address of zero stands for
/// no object.
pub open spec fn object_at(addr: usize) -> Option<usize> {
    if addr == 0 {
        None
    } else {
        Some(addr)
    }
}

/// Turns a raw address into an object reference: none for address zero.
pub fn object_from_raw_address(addr: usize) -> (r: Option<usize>)
    ensures
        r == object_at(addr),
{
    if addr == 0 {
        None
    } else {
        Some(addr)
    }
}

/// The start of the storage of the object referred to by `object`.
pub open spec fn object_start_of(object: int) -> int {
    object - OBJECT_REF_OFFSET
}

/// The object reference of the object whose storage starts at `start`.
pub open spec fn object_ref_of_start(start: int) -> int {
    start + OBJECT_REF_OFFSET
}

/// The object model of the binding: an object reference points
/// `OBJECT_REF_OFFSET` bytes past the start of the object's storage.
pub struct VMObjectModel {}

impl VMObjectModel {
    /// A copied object is aligned to a machine word.
    pub fn get_align_when_copied(object: usize) -> (align: usize)
        ensures
            align == word_bytes(),
    {
        word_size()
    }

    /// A copied object needs no alignment offset.
    pub fn get_align_offset_when_copied(object: usize) -> (offset: usize)
        ensures
            offset == 0,
    {
        0
    }

    /// The start of the storage of `object`: its address less the offset.
    pub fn ref_to_object_start(object: usize) -> (start: usize)
        requires
            object >= OBJECT_REF_OFFSET,
        ensures
            start == object_start_of(object as int),
    {
        object - OBJECT_REF_OFFSET
    }

    /// The header of `object` sits at the object reference itself.
    pub fn ref_to_header(object: usize) -> (header: usize)
        ensures
            header == object,
    {
        object
    }

    /// The in-object address MMTk uses for `object`: the object start.
    pub fn ref_to_address(object: usize) -> (addr: usize)
        requires
            object >= OBJECT_REF_OFFSET,
        ensures
            addr == object_start_of(object as int),
    {
        Self::ref_to_object_start(object)
    }

    /// The object whose `ref_to_address` is `address`: the address plus the offset.
    pub fn address_to_ref(address: usize) -> (object: usize)
        requires
            address != 0,
            address + OBJECT_REF_OFFSET <= usize::MAX,
        ensures
            object == object_ref_of_start(address as int),
            object != 0,
    {
        address + OBJECT_REF_OFFSET
    }
}

/// An object's storage starts four bytes below its reference, and the reference
/// of storage that starts at `start` is four bytes past it; raw address zero is no
/// object and every other raw address is the object at that address.
pub proof fn lemma_object_offset_is_four(object: int, start: int, addr: usize)
    ensures
        OBJECT_REF_OFFSET == 4,
        object_start_of(object) == object - 4,
        object_ref_of_start(start) == start + 4,
        addr == 0 ==> object_at(addr) is None,
        addr != 0 ==> object_at(addr) == Some(addr),
{
}

/// An object copied by the binding is aligned to one machine word.
pub proof fn lemma_copy_alignment_is_word()
    ensures
        word_bytes() * 8 == usize::BITS,
{
}

/// `address_to_ref` undoes `ref_to_address`: an object is found again from the
/// address MMTk keeps for it.
pub proof fn lemma_address_to_ref_inverts_ref_to_address(object: int)
    ensures
        object_ref_of_start(object_start_of(object)) == object,
{
}

/// `ref_to_address` undoes `address_to_ref`: the address an object was made from
/// is the address MMTk keeps for it.
pub proof fn lemma_ref_to_address_inverts_address_to_ref(address: int)
    ensures
        object_start_of(object_ref_of_start(address)) == address,
{
}

} // verus!
