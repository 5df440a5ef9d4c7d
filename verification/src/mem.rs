//! The byte-level model of linear memory.
//!
//! Memory is a fixed-size sequence of bytes. A numeric value occupies 8
//! consecutive bytes in little-endian order; `read8` and `write8` say exactly
//! which bytes a `Load` reads and a `Store` writes.

use vstd::bytes::lemma_auto_spec_u64_to_from_le_bytes;
use vstd::bytes::spec_u64_from_le_bytes;
use vstd::bytes::spec_u64_to_le_bytes;
use vstd::prelude::*;

verus! {

/// The value whose little-endian bytes are `mem[addr .. addr + 8]`.
pub open spec fn read8(mem: Seq<u8>, addr: int) -> u64
    recommends
        0 <= addr,
        addr + 8 <= mem.len(),
{
    spec_u64_from_le_bytes(mem.subrange(addr, addr + 8))
}

/// `mem` with the little-endian bytes of `v` in place of
/// `mem[addr .. addr + 8]`.
pub open spec fn write8(mem: Seq<u8>, addr: int, v: u64) -> Seq<u8>
    recommends
        0 <= addr,
        addr + 8 <= mem.len(),
{
    mem.subrange(0, addr) + spec_u64_to_le_bytes(v) + mem.subrange(addr + 8, mem.len() as int)
}

/// Writing never changes the size of memory.
pub proof fn lemma_write8_len(mem: Seq<u8>, addr: int, v: u64)
    requires
        0 <= addr,
        addr + 8 <= mem.len(),
    ensures
        write8(mem, addr, v).len() == mem.len(),
{
    lemma_auto_spec_u64_to_from_le_bytes();
}

/// Each byte of the written memory: the bytes of `v` inside the span, the
/// old bytes outside it.
pub proof fn lemma_write8_index(mem: Seq<u8>, addr: int, v: u64)
    requires
        0 <= addr,
        addr + 8 <= mem.len(),
    ensures
        forall|j: int|
            0 <= j < mem.len() && !(addr <= j < addr + 8) ==> write8(mem, addr, v)[j] == mem[j],
        forall|j: int|
            addr <= j < addr + 8 ==> write8(mem, addr, v)[j] == spec_u64_to_le_bytes(v)[j - addr],
{
    lemma_auto_spec_u64_to_from_le_bytes();
}

/// Storing a value and loading it back at the same address yields the value
/// again, bit for bit.
pub proof fn lemma_store_load_round_trip(mem: Seq<u8>, addr: int, v: u64)
    requires
        0 <= addr,
        addr + 8 <= mem.len(),
    ensures
        read8(write8(mem, addr, v), addr) == v,
{
    lemma_auto_spec_u64_to_from_le_bytes();
    lemma_write8_index(mem, addr, v);
    lemma_write8_len(mem, addr, v);
    assert(write8(mem, addr, v).subrange(addr, addr + 8) =~= spec_u64_to_le_bytes(v));
}

} // verus!
