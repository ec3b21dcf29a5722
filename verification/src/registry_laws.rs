//! What holds of registered buffers, across check-outs and transfers.

use crate::buf::Bytes;
use crate::error::Error;
use crate::registry::{RegisteredBuf, RegistryInner};
use vstd::prelude::*;

verus! {

/// Exactly one handle to a buffer exists at a time: while one is out, claiming the
/// buffer again is refused, and so is claiming one that was never registered.
pub proof fn law_a_buffer_is_checked_out_once<B>(
    registry: RegistryInner<B>,
    index: u32,
    between: RegistryInner<B>,
    handle: RegisteredBuf<B>,
    after: RegistryInner<B>,
    again: Result<RegisteredBuf<B>, Error>,
)
    requires
        registry.checked(index, between, Ok(handle)),
        between.checked(index, after, again),
    ensures
        index < registry.slots@.len(),
        again == Err::<RegisteredBuf<B>, Error>(Error::BufferCheckedOut { index }),
        after.slots@ == between.slots@,
{
}

/// Checking a buffer out disturbs no other buffer of the registration.
pub proof fn law_checking_out_disturbs_no_other<B>(
    registry: RegistryInner<B>,
    index: u32,
    after: RegistryInner<B>,
    claimed: Result<RegisteredBuf<B>, Error>,
    other: int,
)
    requires
        registry.checked(index, after, claimed),
        0 <= other < registry.slots@.len(),
        other != index,
    ensures
        after.slots@[other] == registry.slots@[other],
{
}

/// A buffer that is checked out and returned untouched is back where it was, as it
/// was: the registration takes it back, and ends up as it began.
pub proof fn law_returning_a_buffer_restores_its_place<B>(
    registry: RegistryInner<B>,
    index: u32,
    between: RegistryInner<B>,
    handle: RegisteredBuf<B>,
    after: RegistryInner<B>,
)
    requires
        registry.checked(index, between, Ok(handle)),
        between.released(handle, after),
    ensures
        between.takes_back(handle),
        after.id == registry.id,
        after.slots@ == registry.slots@,
{
    assert(after.slots@ =~= registry.slots@);
}

/// What a handle holds when it goes back is what the next handle to the same buffer
/// holds: its buffer, and as many initialized bytes as the registration counts. A
/// handle whose count was noted comes back as it was.
pub proof fn law_contents_survive_a_return<B>(
    registry: RegistryInner<B>,
    handle: RegisteredBuf<B>,
    noted: RegistryInner<B>,
    between: RegistryInner<B>,
    after: RegistryInner<B>,
    again: Result<RegisteredBuf<B>, Error>,
)
    requires
        registry.takes_back(handle),
        registry.noted(handle, noted),
        noted.released(handle, between),
        between.checked(handle.index, after, again),
    ensures
        noted.takes_back(handle),
        again == Ok::<RegisteredBuf<B>, Error>(handle),
        after.slots@ == noted.slots@,
{
    assert(after.slots@ =~= noted.slots@);
}

/// Filling a buffer gives the bytes back: the handle has them, the registration counts
/// them, and once the handle has gone back the next one has them too. One that is too
/// long changes nothing, neither the handle nor the count.
pub proof fn law_filled_bytes_come_back<B: Bytes>(
    registry: RegistryInner<B>,
    handle: RegisteredBuf<B>,
    src: Seq<u8>,
    filled: Result<(), Error>,
    full: RegisteredBuf<B>,
    noted: RegistryInner<B>,
    between: RegistryInner<B>,
    after: RegistryInner<B>,
    again: Result<RegisteredBuf<B>, Error>,
)
    requires
        registry.takes_back(handle),
        (RegisteredBuf { buffer: full.buffer, ..handle }).fill_begun(src.len(), full, filled),
        filled is Ok ==> full.spec_bytes() == src && registry.noted(full, noted),
        filled is Err ==> full == handle && noted == registry,
        noted.released(full, between),
        between.checked(full.index, after, again),
    ensures
        filled is Ok <==> src.len() <= handle.extent,
        filled is Ok ==> {
            &&& full.initialized == src.len()
            &&& noted.slots@[handle.index as int].initialized == src.len()
            &&& again matches Ok(next)
            &&& next.spec_bytes() == src
            &&& next.extent == handle.extent
        },
        filled is Err ==> noted.slots@[handle.index as int].initialized
            == registry.slots@[handle.index as int].initialized,
{
}

/// The same of a buffer whose bytes the library cannot reach: as many as were filled
/// are counted, in the handle, in the registration, and in the next handle.
pub proof fn law_a_fill_is_counted<B>(
    registry: RegistryInner<B>,
    handle: RegisteredBuf<B>,
    len: usize,
    begun: Result<(), Error>,
    full: RegisteredBuf<B>,
    noted: RegistryInner<B>,
    between: RegistryInner<B>,
    after: RegistryInner<B>,
    again: Result<RegisteredBuf<B>, Error>,
)
    requires
        registry.takes_back(handle),
        handle.fill_begun(len as nat, full, begun),
        begun is Ok ==> registry.noted(full, noted),
        begun is Err ==> noted == registry,
        noted.released(full, between),
        between.checked(full.index, after, again),
    ensures
        begun is Ok <==> len <= handle.extent,
        begun is Ok ==> {
            &&& full == (RegisteredBuf { initialized: len, ..handle })
            &&& noted.slots@[handle.index as int].initialized == len
            &&& again == Ok::<RegisteredBuf<B>, Error>(full)
        },
        begun is Err ==> full == handle && noted == registry,
{
}

/// A transfer that is reported while a handle is out is counted by the registration,
/// and by the handle once it is refreshed.
pub proof fn law_a_refreshed_handle_agrees<B>(
    registry: RegistryInner<B>,
    handle: RegisteredBuf<B>,
    initialized: usize,
    after: RegistryInner<B>,
    fresh: RegisteredBuf<B>,
)
    requires
        registry.takes_back(handle),
        registry.recounted(handle.index as int, initialized, after),
        fresh == (RegisteredBuf {
            initialized: after.slots@[handle.index as int].initialized,
            ..handle
        }),
    ensures
        after.takes_back(handle),
        fresh.initialized == initialized,
        registry.noted(fresh, after),
{
}

/// A handle goes back only where its buffer is missing: no registration takes the
/// same handle back twice.
pub proof fn law_a_buffer_is_returned_once<B>(
    registry: RegistryInner<B>,
    handle: RegisteredBuf<B>,
    after: RegistryInner<B>,
)
    requires
        registry.takes_back(handle),
        registry.released(handle, after),
    ensures
        !after.takes_back(handle),
{
}

/// The initialized prefix never shrinks by a transfer, never exceeds the extent, and
/// covers no byte that was neither initialized before nor just transferred.
pub proof fn law_the_mark_vouches_for_no_gap(
    initialized: int,
    extent: int,
    start: int,
    transferred: int,
    byte: int,
)
    requires
        0 <= initialized <= extent,
        0 <= start,
        0 <= transferred,
    ensures
        ({
            let mark = crate::registry::raised(initialized, extent, start, transferred);
            &&& initialized <= mark <= extent
            &&& 0 <= byte < mark ==> byte < initialized || start <= byte < start + transferred
            &&& start > initialized ==> mark == initialized
        }),
{
}

/// Transfers that follow on from one another add up to one: the order in which the
/// pieces of a buffer are filled from its front makes no difference to the mark.
pub proof fn law_adjacent_transfers_add_up(
    initialized: int,
    extent: int,
    start: int,
    first: int,
    second: int,
)
    requires
        0 <= initialized <= extent,
        0 <= start <= initialized,
        0 <= first,
        0 <= second,
        start + first <= extent,
    ensures
        crate::registry::raised(
            crate::registry::raised(initialized, extent, start, first),
            extent,
            start + first,
            second,
        ) == crate::registry::raised(initialized, extent, start, first + second),
{
}

/// A registration is whole exactly when no buffer of it is found checked out.
pub proof fn law_whole_registrations_have_nothing_out<B>(registry: RegistryInner<B>)
    ensures
        registry.is_whole() <==> registry.spec_checked_out(0) is None,
{
    registry.lemma_checked_out(0);
}

/// The mark covers a transfer that leaves no gap, as far as the extent goes, and never
/// falls: it is the larger of what it was and where the transfer ended.
pub proof fn law_the_mark_covers_what_arrived(
    initialized: int,
    extent: int,
    start: int,
    transferred: int,
)
    requires
        0 <= initialized <= extent,
        0 <= start,
        0 <= transferred,
    ensures
        ({
            let mark = crate::registry::raised(initialized, extent, start, transferred);
            &&& mark >= initialized
            &&& start <= initialized && start + transferred <= extent ==> mark >= start
                + transferred
            &&& start <= initialized && start + transferred > extent ==> mark == extent
            &&& start + transferred <= initialized ==> mark == initialized
        }),
{
}

/// What a check-out hands over is the buffer that was in its place, with its extent, its
/// count and the identity of its registration; it succeeds exactly when the index names a
/// buffer that is in its place.
pub proof fn law_a_checkout_hands_over_what_was_there<B>(
    registry: RegistryInner<B>,
    index: u32,
    after: RegistryInner<B>,
    claimed: Result<RegisteredBuf<B>, Error>,
)
    requires
        registry.checked(index, after, claimed),
    ensures
        claimed is Ok <==> index < registry.slots@.len()
            && registry.slots@[index as int].held is Some,
        claimed matches Ok(handle) ==> {
            let slot = registry.slots@[index as int];
            &&& handle.registry == registry.id
            &&& handle.index == index
            &&& slot.held == Some(handle.buffer)
            &&& handle.extent == slot.extent
            &&& handle.initialized == slot.initialized
            &&& after.slots@[index as int].held is None
            &&& after.slots@[index as int].extent == slot.extent
            &&& after.slots@[index as int].initialized == slot.initialized
        },
        claimed is Err ==> after.slots@ == registry.slots@,
        index >= registry.slots@.len() ==> claimed == Err::<RegisteredBuf<B>, Error>(
            Error::InvalidRegisteredIndex { index },
        ),
        index < registry.slots@.len() && registry.slots@[index as int].held is None ==> claimed
            == Err::<RegisteredBuf<B>, Error>(Error::BufferCheckedOut { index }),
        after.id == registry.id,
        after.slots@.len() == registry.slots@.len(),
{
}

/// A handle goes back exactly where it came from: into the registration of its identity,
/// at its own index, while that place is empty; and then its buffer is there, and nothing
/// else has changed.
pub proof fn law_a_buffer_goes_back_to_its_own_place<B>(
    registry: RegistryInner<B>,
    handle: RegisteredBuf<B>,
    after: RegistryInner<B>,
    other: int,
)
    ensures
        registry.takes_back(handle) <==> {
            &&& handle.registry == registry.id
            &&& handle.index < registry.slots@.len()
            &&& registry.slots@[handle.index as int].held is None
            &&& registry.slots@[handle.index as int].extent == handle.extent
        },
        registry.takes_back(handle) && registry.released(handle, after) ==> {
            &&& after.id == registry.id
            &&& after.slots@.len() == registry.slots@.len()
            &&& after.slots@[handle.index as int].held == Some(handle.buffer)
            &&& after.slots@[handle.index as int].extent == handle.extent
            &&& after.slots@[handle.index as int].initialized
                == registry.slots@[handle.index as int].initialized
            &&& 0 <= other < registry.slots@.len() && other != handle.index ==> after.slots@[other]
                == registry.slots@[other]
        },
{
}

/// A count is kept for one buffer at a time: counting one anew changes that count, and
/// nothing else of it or of any other.
pub proof fn law_counting_one_buffer_disturbs_no_other<B>(
    registry: RegistryInner<B>,
    index: int,
    initialized: usize,
    after: RegistryInner<B>,
    other: int,
)
    requires
        0 <= index < registry.slots@.len(),
        registry.recounted(index, initialized, after),
    ensures
        after.id == registry.id,
        after.slots@.len() == registry.slots@.len(),
        after.slots@[index].initialized == initialized,
        after.slots@[index].extent == registry.slots@[index].extent,
        after.slots@[index].held == registry.slots@[index].held,
        0 <= other < registry.slots@.len() && other != index ==> after.slots@[other]
            == registry.slots@[other],
{
}

/// Bytes written over a buffer from its first on are there, byte by byte, and those behind
/// them stay as they were.
pub proof fn law_overwriting_keeps_what_lies_behind(bytes: Seq<u8>, src: Seq<u8>, i: int)
    ensures
        crate::registry::overwritten(bytes, src).len() == if bytes.len() > src.len() {
            bytes.len()
        } else {
            src.len()
        },
        0 <= i < src.len() ==> crate::registry::overwritten(bytes, src)[i] == src[i],
        src.len() <= i < bytes.len() ==> crate::registry::overwritten(bytes, src)[i] == bytes[i],
{
}

} // verus!
