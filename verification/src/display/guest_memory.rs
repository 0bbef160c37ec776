//! Reading guest memory.

use vm_memory::bitmap::AtomicBitmap;
use vm_memory::{Address, Bytes, GuestAddress, GuestMemoryError, GuestMemoryMmap};
use vstd::prelude::*;

verus! {

/// Declares `vm_memory::GuestMemoryMmap`: the memory of a guest, as a collection of
/// regions that are mapped into this process.
#[verifier::external_type_specification]
#[verifier::external_body]
#[verifier::reject_recursive_types(B)]
pub struct ExGuestMemoryMmap<B>(vm_memory::GuestMemoryMmap<B>);

/// Declares `vm_memory::bitmap::AtomicBitmap`: the record of dirty pages that a region
/// of guest memory carries.
#[verifier::external_type_specification]
#[verifier::external_body]
pub struct ExAtomicBitmap(vm_memory::bitmap::AtomicBitmap);

/// Declares `vm_memory::GuestMemoryError`: why an access to guest memory failed.
#[verifier::external_type_specification]
#[verifier::external_body]
pub struct ExGuestMemoryError(vm_memory::GuestMemoryError);

/// What the regions of `memory` hold: every guest address that lies in one of them,
/// with the byte values that are found there at one time or another. The guest writes
/// to its memory while it is read, so an address has a set of values, and two reads
/// of it may differ.
pub uninterp spec fn held(memory: GuestMemoryMmap<AtomicBitmap>) -> Map<u64, Set<u8>>;

/// Number of addresses, `length` at most, that follow each other from `address` on and
/// are all in `backed`.
pub open spec fn backed_run(backed: Set<u64>, address: int, length: nat) -> nat
    decreases length,
{
    if length == 0 || !(0 <= address <= u64::MAX) || !backed.contains(address as u64) {
        0
    } else {
        1 + backed_run(backed, address + 1, (length - 1) as nat)
    }
}

/// `data` is what a read of memory at `address` leaves in a buffer that held
/// `before`: bytes of the memory as far as it goes on without a gap, and what was
/// there before beyond that.
pub open spec fn overlaid(
    contents: Map<u64, Set<u8>>,
    address: u64,
    before: Seq<u8>,
    data: Seq<u8>,
) -> bool {
    let run = backed_run(contents.dom(), address as int, before.len());
    &&& data.len() == before.len()
    &&& forall|i: int|
        0 <= i < data.len() ==> if i < run {
            contents[(address + i) as u64].contains(#[trigger] data[i])
        } else {
            data[i] == before[i]
        }
}

/// Calls `read` of `vm_memory::Bytes` for guest memory. The claim: the read fails where
/// no region holds `address`, and succeeds everywhere else, also where the regions
/// end, or leave a gap, before the buffer is full. It then returns the number of bytes
/// up to there, has put bytes that the memory held into that many places of the
/// buffer, and has left the others alone. Which of the values that an address takes in
/// the course of time was found there is not said.
#[verifier::external_body]
fn guest_read(
    memory: &GuestMemoryMmap<AtomicBitmap>,
    buffer: &mut Vec<u8>,
    address: u64,
) -> (count: Result<usize, GuestMemoryError>)
    ensures
        count is Ok <==> held(*memory).dom().contains(address),
        count matches Ok(n) ==> n == backed_run(
            held(*memory).dom(),
            address as int,
            old(buffer)@.len(),
        ) && overlaid(held(*memory), address, old(buffer)@, final(buffer)@),
{
    memory.read(buffer.as_mut_slice(), GuestAddress(address))
}

/// Calls `checked_add` of `vm_memory::Address` for a guest address. The claim: it
/// adds, and gives `None` where the sum is over 64 bits.
#[verifier::external_body]
pub(crate) fn guest_address_add(address: u64, offset: u64) -> (sum: Option<u64>)
    ensures
        sum == (if address + offset <= u64::MAX {
            Some((address + offset) as u64)
        } else {
            None
        }),
{
    GuestAddress(address).checked_add(offset).map(|sum| sum.0)
}

/// Memory is at `address`, and goes on without a gap for `length` bytes.
pub open spec fn all_held(contents: Map<u64, Set<u8>>, address: u64, length: nat) -> bool {
    contents.dom().contains(address) && backed_run(contents.dom(), address as int, length)
        == length
}

/// `data` is what memory gives for the addresses from `address` on: every byte is one
/// that it holds there.
pub open spec fn reads_as(contents: Map<u64, Set<u8>>, address: u64, data: Seq<u8>) -> bool {
    forall|i: int|
        0 <= i < data.len() ==> contents[(address + i) as u64].contains(#[trigger] data[i])
}

/// Reads `length` bytes of guest memory, all of them or nothing.
pub fn read_guest(
    memory: &GuestMemoryMmap<AtomicBitmap>,
    address: u64,
    length: usize,
) -> (data: Option<Vec<u8>>)
    requires
        length <= isize::MAX,
    ensures
        data is Some <==> all_held(held(*memory), address, length as nat),
        data matches Some(bytes) ==> bytes@.len() == length && reads_as(
            held(*memory),
            address,
            bytes@,
        ),
        data matches Some(bytes) ==> bytes@.len() == length && forall|i: int|
            0 <= i < length ==> held(*memory)[(address + i) as u64].contains(#[trigger] bytes@[i]),
        data is Some ==> held(*memory).dom().contains(address) && forall|at: u64|
            address <= at < address + length ==> #[trigger] held(*memory).dom().contains(at),
        data is None && address + length <= u64::MAX ==> exists|at: u64|
            address <= at && (at == address || at < address + length) && !(
            #[trigger] held(*memory).dom().contains(at)),
{
    proof {
        if length > 0 {
            law_all_held(held(*memory), address, length as nat);
        }
    }
    let mut buffer: Vec<u8> = vec![0u8; length];
    match guest_read(memory, &mut buffer, address) {
        Ok(count) => if count == length {
            Some(buffer)
        } else {
            None
        },
        Err(_) => None,
    }
}

/// None of the `length` addresses from `address` on changes.
pub open spec fn quiet(contents: Map<u64, Set<u8>>, address: int, length: int) -> bool {
    forall|at: u64|
        address <= at < address + length ==> exists|value: u8|
            #[trigger] contents[at] == set![value]
}

/// Memory that does not change gives every reader the same bytes: what two reads say
/// of an address is the same, wherever each of them started.
pub proof fn law_quiet_reads_agree(
    contents: Map<u64, Set<u8>>,
    one_address: u64,
    one: Seq<u8>,
    two_address: u64,
    two: Seq<u8>,
    i: int,
    j: int,
)
    requires
        quiet(contents, one_address as int, one.len() as int),
        reads_as(contents, one_address, one),
        reads_as(contents, two_address, two),
        0 <= i < one.len(),
        0 <= j < two.len(),
        one_address + i == two_address + j <= u64::MAX,
    ensures
        one[i] == two[j],
{
    let at = (one_address + i) as u64;
    let value = choose|value: u8| contents[at] == set![value];
    assert(contents[at].contains(one[i]));
    assert(contents[at].contains(two[j]));
}

/// A run without a gap is all there.
proof fn lemma_run_is_held(backed: Set<u64>, address: int, length: nat, i: int)
    requires
        backed_run(backed, address, length) == length,
        0 <= i < length,
    ensures
        0 <= address,
        address + i <= u64::MAX,
        backed.contains((address + i) as u64),
    decreases length,
{
    if i > 0 {
        lemma_run_is_held(backed, address + 1, (length - 1) as nat, i - 1);
    }
}

/// Addresses that are all there make a run without a gap.
proof fn lemma_held_is_run(backed: Set<u64>, address: int, length: nat)
    requires
        0 <= address,
        address + length <= u64::MAX + 1,
        forall|at: u64| address <= at < address + length ==> #[trigger] backed.contains(at),
    ensures
        backed_run(backed, address, length) == length,
    decreases length,
{
    if length > 0 {
        assert(backed.contains(address as u64));
        lemma_held_is_run(backed, address + 1, (length - 1) as nat);
    }
}

/// Bytes can be read, at least one of them, exactly where memory is at every one of
/// their addresses.
pub proof fn law_all_held(contents: Map<u64, Set<u8>>, address: u64, length: nat)
    requires
        length > 0,
    ensures
        all_held(contents, address, length) <==> address + length <= u64::MAX + 1 && (forall|
            at: u64,
        | address <= at < address + length ==> #[trigger] contents.dom().contains(at)),
{
    if all_held(contents, address, length) {
        lemma_run_is_held(contents.dom(), address as int, length, length - 1);
        assert forall|at: u64| address <= at < address + length implies
            #[trigger] contents.dom().contains(at) by {
            lemma_run_is_held(contents.dom(), address as int, length, at - address);
        }
    }
    if address + length <= u64::MAX + 1 && (forall|at: u64|
        address <= at < address + length ==> #[trigger] contents.dom().contains(at)) {
        assert(contents.dom().contains(address));
        lemma_held_is_run(contents.dom(), address as int, length);
    }
}

} // verus!
