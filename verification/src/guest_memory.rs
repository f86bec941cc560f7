//! Guest physical memory, as the console's processors see it: a partial map from
//! guest addresses to bytes that can be stored to and loaded from.

use vm_memory::Bytes;
use vm_memory::GuestAddress;
use vm_memory::GuestMemoryError;
use vm_memory::GuestMemoryMmap;
use vstd::prelude::*;

verus! {

/// `vm_memory::GuestRegionCollection`, the sorted set of regions that stands
/// behind `GuestMemoryMmap`.  Nothing is said of what is inside.
#[verifier::external_type_specification]
#[verifier::external_body]
#[verifier::reject_recursive_types(R)]
pub struct ExGuestRegionCollection<R>(vm_memory::GuestRegionCollection<R>);

/// `vm_memory::GuestRegionMmap`, one region of guest memory mapped into the
/// host process.  Nothing is said of what is inside.
#[verifier::external_type_specification]
#[verifier::external_body]
#[verifier::reject_recursive_types(B)]
pub struct ExGuestRegionMmap<B>(vm_memory::GuestRegionMmap<B>);

/// `vm_memory::GuestMemoryError`, the failure of an access to guest memory.
/// Nothing is said of what is inside.
#[verifier::external_type_specification]
#[verifier::external_body]
pub struct ExGuestMemoryError(vm_memory::GuestMemoryError);

/// The bytes that a `vm_memory::GuestMemoryMmap` holds, keyed by guest physical
/// address.  The domain is the set of addresses that one of its regions maps.
///
/// The processors are the only ones to touch the memory while they run: the
/// driver leaves alone the buffers that it has made available until they come
/// back on the used ring.  A handle is a view of memory that its copies share;
/// what is stated of a handle is stated of the memory as seen through it.
pub uninterp spec fn guest_bytes(mem: GuestMemoryMmap<()>) -> Map<int, u8>;

/// How many of the `len` addresses from `addr` upwards are mapped before the
/// first one that is not.
pub open spec fn mapped_prefix(bytes: Map<int, u8>, addr: int, len: nat) -> nat
    decreases len,
{
    if len == 0 || !bytes.dom().contains(addr) {
        0
    } else {
        1 + mapped_prefix(bytes, addr + 1, (len - 1) as nat)
    }
}

/// The memory after `data` has been stored at `addr`; unmapped addresses stay
/// unmapped.
pub open spec fn store(bytes: Map<int, u8>, addr: int, data: Seq<u8>) -> Map<int, u8> {
    Map::new(
        |a: int| bytes.dom().contains(a),
        |a: int|
            if addr <= a < addr + data.len() {
                data[a - addr]
            } else {
                bytes[a]
            },
    )
}

/// The `len` bytes found from `addr` upwards.
pub open spec fn load(bytes: Map<int, u8>, addr: int, len: nat) -> Seq<u8> {
    Seq::new(len, |i: int| bytes[addr + i])
}

/// The mapped prefix of a range is no longer than the range.
pub proof fn lemma_mapped_prefix_bound(bytes: Map<int, u8>, addr: int, len: nat)
    ensures
        mapped_prefix(bytes, addr, len) <= len,
    decreases len,
{
    if len != 0 && bytes.dom().contains(addr) {
        lemma_mapped_prefix_bound(bytes, addr + 1, (len - 1) as nat);
    }
}

/// The mapped prefix of a range depends on which addresses are mapped, not on
/// the bytes found there.
pub proof fn lemma_mapped_prefix_by_domain(
    bytes: Map<int, u8>,
    other: Map<int, u8>,
    addr: int,
    len: nat,
)
    requires
        bytes.dom() == other.dom(),
    ensures
        mapped_prefix(bytes, addr, len) == mapped_prefix(other, addr, len),
    decreases len,
{
    if len != 0 && bytes.dom().contains(addr) {
        lemma_mapped_prefix_by_domain(bytes, other, addr + 1, (len - 1) as nat);
    }
}

/// A range is mapped as a whole exactly when each of its addresses is.
pub proof fn lemma_mapped_prefix_whole(bytes: Map<int, u8>, addr: int, len: nat)
    ensures
        mapped_prefix(bytes, addr, len) == len <==> forall|a: int|
            addr <= a < addr + len ==> bytes.dom().contains(a),
    decreases len,
{
    if len != 0 {
        lemma_mapped_prefix_whole(bytes, addr + 1, (len - 1) as nat);
        lemma_mapped_prefix_bound(bytes, addr + 1, (len - 1) as nat);
    }
}

/// Where a range is mapped as a whole, every range that starts with it and
/// ends sooner is too.
pub proof fn lemma_mapped_prefix_shorter(bytes: Map<int, u8>, addr: int, len: nat, shorter: nat)
    requires
        shorter <= len,
        mapped_prefix(bytes, addr, len) == len,
    ensures
        mapped_prefix(bytes, addr, shorter) == shorter,
{
    lemma_mapped_prefix_whole(bytes, addr, len);
    lemma_mapped_prefix_whole(bytes, addr, shorter);
}

/// Storing maps nothing and unmaps nothing.
pub proof fn lemma_store_keeps_domain(bytes: Map<int, u8>, addr: int, data: Seq<u8>)
    ensures
        store(bytes, addr, data).dom() == bytes.dom(),
{
}

/// `Bytes::write_slice` of `vm_memory`, on a `GuestMemoryMmap`.  The call copies
/// `buf` to guest memory region by region, from `addr` upwards, and stops at
/// the first address that no region maps: the bytes before that address are
/// stored, and the call succeeds exactly when there was no such address.  No
/// region reaches the last address of the address space, so a range never
/// wraps around.
#[verifier::external_body]
pub(crate) fn write_slice(mem: &mut GuestMemoryMmap<()>, buf: &[u8], addr: u64) -> (r: Result<
    (),
    GuestMemoryError,
>)
    ensures
        guest_bytes(*final(mem)) == store(
            guest_bytes(*old(mem)),
            addr as int,
            buf@.take(mapped_prefix(guest_bytes(*old(mem)), addr as int, buf@.len()) as int),
        ),
        r is Ok <==> mapped_prefix(guest_bytes(*old(mem)), addr as int, buf@.len()) == buf@.len(),
{
    mem.write_slice(buf, GuestAddress(addr))
}

/// `Bytes::write_volatile_to` of `vm_memory`, on a `GuestMemoryMmap` and with a
/// `Vec<u8>` as the destination.  The call appends to `out` the bytes found from
/// `addr` upwards, region by region, and stops at the first address that no
/// region maps, or after `count` bytes.  It fails only when it could not read
/// the first of them; otherwise it returns how many bytes it appended.
#[verifier::external_body]
pub(crate) fn write_volatile_to(
    mem: &GuestMemoryMmap<()>,
    addr: u64,
    out: &mut Vec<u8>,
    count: usize,
) -> (r: Result<usize, GuestMemoryError>)
    ensures
        final(out)@ == old(out)@ + load(
            guest_bytes(*mem),
            addr as int,
            mapped_prefix(guest_bytes(*mem), addr as int, count as nat),
        ),
        match r {
            Ok(n) => n == mapped_prefix(guest_bytes(*mem), addr as int, count as nat) && (count
                == 0 || n != 0),
            Err(_) => count != 0 && mapped_prefix(guest_bytes(*mem), addr as int, count as nat)
                == 0,
        },
{
    mem.write_volatile_to(GuestAddress(addr), out, count)
}

} // verus!
