//! What holds of the slab as a whole, across operations.

use crate::slab::{CancelState, Group, Lifecycle, Observer, Operation, Phase, SlabView};
use crate::token::{Token, TokenKind};
use vstd::prelude::*;

verus! {

/// Whether the operation that `token` was issued for is over: the slot has moved
/// on to a later generation, or holds nothing but the remains of this one.
pub open spec fn is_over<P>(slab: SlabView<P>, token: Token) -> bool {
    let index = token.spec_index();
    &&& index < slab.slots.len()
    &&& slab.slots[index].generation > token.spec_generation() || (slab.slots[index].generation
        == token.spec_generation() && (slab.slots[index].phase is Tombstone
        || slab.slots[index].phase is Retired))
}

/// A slab turns into what it turns into in any number of steps.
pub proof fn law_evolution_composes<P>(a: SlabView<P>, b: SlabView<P>, c: SlabView<P>)
    requires
        a.leads_to(b),
        b.leads_to(c),
    ensures
        a.leads_to(c),
        a.leads_to(a),
{
    assert forall|i: int|
        #![trigger a.slots[i]]
        #![trigger c.slots[i]]
        0 <= i < a.slots.len() implies a.slots[i].leads_to(c.slots[i]) by {
        assert(a.slots[i].leads_to(b.slots[i]));
        assert(b.slots[i].leads_to(c.slots[i]));
    }
}

/// A finished operation stays finished: whatever the slab goes on to do, its
/// token never names a live operation again, however often its slot is reused.
pub proof fn law_stale_tokens_stay_stale<P>(slab: SlabView<P>, later: SlabView<P>, token: Token)
    requires
        slab.leads_to(later),
        is_over(slab, token),
    ensures
        is_over(later, token),
        later.operation(token) is None,
{
    assert(slab.slots[token.spec_index()].leads_to(later.slots[token.spec_index()]));
}

/// A completed operation is over.
pub proof fn law_completion_is_final<P>(slab: SlabView<P>, token: Token)
    requires
        slab.is_valid(),
        slab.operation(token) is Some,
    ensures
        is_over(slab.completed(token), token),
        slab.completed(token).operation(token) is None,
        slab.completed(token).completed(token) == slab.completed(token),
{
    crate::token::law_token_is_its_fields(token);
}

/// An operation's token names it from the moment it is placed, is never the user
/// data zero, and has not been seen before: no operation that is over had it.
pub proof fn law_issued_tokens_are_fresh<P>(slab: SlabView<P>, payload: Box<P>, earlier: Token)
    requires
        slab.is_valid(),
        !slab.is_full(),
    ensures
        slab.next_token().0 != 0,
        slab.next_token().spec_kind() == TokenKind::Operation,
        slab.operation(slab.next_token()) is None,
        slab.inserted(payload).operation(slab.next_token()) == Some(
            Operation {
                lifecycle: Lifecycle::Described,
                observer: Observer::Live,
                payload,
                cancel: CancelState::NeverRequested,
            },
        ),
        is_over(slab, earlier) ==> slab.next_token().spec_operation() != earlier.spec_operation(),
        slab.operation(earlier) is Some ==> slab.next_token().spec_operation()
            != earlier.spec_operation() && slab.inserted(payload).operation(earlier)
            == slab.operation(earlier),
{
    lemma_next_slot(slab);
    crate::token::law_token_is_its_fields(earlier);
    crate::token::law_fields_round_trip(
        TokenKind::Operation,
        slab.next_index(),
        slab.next_generation(),
    );
    crate::token::law_fields_round_trip(
        TokenKind::Operation,
        earlier.spec_index(),
        earlier.spec_generation(),
    );
}

/// The slot that the next operation gets is vacant, or new.
proof fn lemma_next_slot<P>(slab: SlabView<P>)
    requires
        slab.is_valid(),
        !slab.is_full(),
    ensures
        0 <= slab.next_index() < crate::token::MAX_SLOTS,
        crate::token::FIRST_GENERATION <= slab.next_generation() <= crate::token::GENERATION_MASK,
        slab.next_index() < slab.slots.len() ==> slab.slots[slab.next_index()].phase is Vacant
            && slab.slots[slab.next_index()].generation == slab.next_generation(),
{
    if slab.free.len() > 0 {
        let k = slab.free.len() - 1;
        assert(slab.free[k] == slab.next_index());
        assert(slab.slots[slab.free[k]].phase is Vacant);
        assert(slab.slots[slab.next_index()].generation >= crate::token::FIRST_GENERATION);
    }
}

/// A tombstoned slot is withheld from reuse, and so is a retired one.
pub proof fn law_tombstones_are_withheld<P>(slab: SlabView<P>, index: int)
    requires
        slab.is_valid(),
        !slab.is_full(),
        0 <= index < slab.slots.len(),
        slab.slots[index].phase is Tombstone || slab.slots[index].phase is Retired,
    ensures
        slab.next_index() != index,
{
    lemma_next_slot(slab);
}

/// A slot that is given up is the next to be reused, under a new generation, as
/// long as there is one; with its last generation behind it, it is not reused.
pub proof fn law_freed_slots_are_reused_under_a_new_generation<P>(slab: SlabView<P>, token: Token)
    requires
        slab.is_valid(),
        slab.operation(token) matches Some(op) && op.cancel != CancelState::Pending,
    ensures
        token.spec_generation() < crate::token::GENERATION_MASK ==> slab.completed(
            token,
        ).next_index() == token.spec_index() && slab.completed(token).next_generation()
            == token.spec_generation() + 1,
        token.spec_generation() == crate::token::GENERATION_MASK ==> slab.completed(
            token,
        ).slots[token.spec_index()].phase is Retired && slab.completed(token).free == slab.free,
{
    crate::token::law_token_is_its_fields(token);
}

/// Freeing a slot, for whatever reason, makes its index the next to be reused under the
/// next generation; with the last generation behind it, the slot is retired instead:
/// nothing is outstanding there, and no later operation ever gets its index. Either way
/// a token of the generation that is over looks up as unknown from then on.
pub proof fn law_a_freed_slot_moves_on<P>(
    slab: SlabView<P>,
    index: int,
    later: SlabView<P>,
    token: Token,
)
    requires
        slab.is_valid(),
        0 <= index < slab.slots.len(),
        !(slab.slots[index].phase is Vacant),
        slab.freed(index).leads_to(later),
        later.is_valid(),
    ensures
        slab.freed(index).is_valid(),
        slab.slots[index].generation < crate::token::GENERATION_MASK ==> {
            &&& slab.freed(index).slots[index].generation == slab.slots[index].generation + 1
            &&& slab.freed(index).next_index() == index
            &&& slab.freed(index).next_generation() == slab.slots[index].generation + 1
        },
        slab.slots[index].generation == crate::token::GENERATION_MASK ==> {
            &&& slab.freed(index).slots[index].phase is Retired
            &&& !slab.freed(index).slots[index].phase.is_in(Group::Outstanding)
            &&& later.slots[index].phase is Retired
            &&& later.next_index() != index
        },
        token.spec_index() == index && token.spec_generation() == slab.slots[index].generation ==> {
            &&& slab.freed(index).operation(token) is None
            &&& !slab.freed(index).is_tombstone(token)
            &&& later.operation(token) is None
            &&& !later.is_tombstone(token)
        },
{
    let after = slab.freed(index);
    assert(!slab.free.contains(index)) by {
        if slab.free.contains(index) {
            let k = slab.free.index_of(index);
            assert(slab.slots[slab.free[k]].phase is Vacant);
        }
    }
    assert forall|k: int| 0 <= k < after.free.len() implies 0 <= #[trigger] after.free[k]
        < after.slots.len() && after.slots[after.free[k]].phase is Vacant by {
        if k < slab.free.len() {
            assert(slab.free[k] == after.free[k]);
            assert(slab.free.contains(slab.free[k]));
        }
    }
    assert forall|i: int| 0 <= i < after.slots.len() && #[trigger] after.slots[i].phase is Vacant implies after.free.contains(
    i) by {
        if i == index {
            assert(after.free[after.free.len() - 1] == index);
        } else {
            assert(slab.slots[i].phase is Vacant);
            let k = slab.free.index_of(i);
            assert(after.free[k] == i);
        }
    }
    assert(after.slots[index].leads_to(later.slots[index]));
    if !later.is_full() {
        lemma_next_slot(later);
    }
}

/// A cancellation's own completion releases no operation: every live operation
/// keeps its payload, its progress and its future.
pub proof fn law_cancel_completions_release_nothing<P>(
    slab: SlabView<P>,
    cancel: Token,
    outcome: CancelState,
    token: Token,
)
    requires
        slab.is_valid(),
        slab.operation(token) is Some,
    ensures
        slab.cancel_ended(cancel, outcome).operation(token) matches Some(op) && op.payload
            == slab.operation(token)->0.payload && op.lifecycle == slab.operation(
            token,
        )->0.lifecycle && op.observer == slab.operation(token)->0.observer,
{
}

/// At most one cancellation is ever issued: once requested it cannot be requested
/// again, neither while it is pending nor after it has reported.
pub proof fn law_cancelled_at_most_once<P>(slab: SlabView<P>, token: Token)
    requires
        slab.is_valid(),
        slab.can_cancel(token),
    ensures
        ({
            let op = slab.operation(token)->0;
            let requested = slab.with_operation(
                token,
                Operation { cancel: CancelState::Pending, ..op },
            );
            let reported = requested.cancel_ended(token.spec_cancel(), CancelState::Completed);
            &&& !requested.can_cancel(token)
            &&& requested.awaits_cancel(token.spec_cancel())
            &&& !reported.can_cancel(token)
            &&& !reported.awaits_cancel(token.spec_cancel())
            &&& reported.operation(token) == Some(
                Operation { cancel: CancelState::Completed, ..op },
            )
        }),
{
    crate::token::law_token_is_its_fields(token);
    crate::token::law_fields_round_trip(
        TokenKind::Cancel,
        token.spec_index(),
        token.spec_generation(),
    );
}

/// A request that was never enqueued leaves no trace: withdrawing it gives back
/// the slab it was made against, so it can be made again.
pub proof fn law_refused_requests_can_be_repeated<P>(slab: SlabView<P>, token: Token)
    requires
        slab.is_valid(),
        slab.can_cancel(token),
    ensures
        slab.with_operation(
            token,
            Operation { cancel: CancelState::Pending, ..slab.operation(token)->0 },
        ).cancel_ended(token.spec_cancel(), CancelState::NeverRequested) == slab,
{
    let requested = slab.with_operation(
        token,
        Operation { cancel: CancelState::Pending, ..slab.operation(token)->0 },
    );
    crate::token::law_token_is_its_fields(token);
    crate::token::law_fields_round_trip(
        TokenKind::Cancel,
        token.spec_index(),
        token.spec_generation(),
    );
    let back = requested.cancel_ended(token.spec_cancel(), CancelState::NeverRequested);
    assert(back.slots =~= slab.slots);
}

/// An operation that completes under a pending cancellation leaves a tombstone,
/// and only that cancellation's end frees the slot.
pub proof fn law_tombstone_waits_for_its_cancel<P>(slab: SlabView<P>, token: Token)
    requires
        slab.is_valid(),
        slab.operation(token) matches Some(op) && op.cancel == CancelState::Pending,
    ensures
        slab.completed(token).is_tombstone(token),
        slab.completed(token).awaits_cancel(token.spec_cancel()),
        slab.completed(token).free == slab.free,
        !slab.completed(token).cancel_ended(
            token.spec_cancel(),
            CancelState::Completed,
        ).is_tombstone(token),
        slab.completed(token).cancel_ended(token.spec_cancel(), CancelState::Completed)
            == slab.freed(token.spec_index()),
{
    crate::token::law_token_is_its_fields(token);
    crate::token::law_fields_round_trip(
        TokenKind::Cancel,
        token.spec_index(),
        token.spec_generation(),
    );
    let end = slab.completed(token).cancel_ended(token.spec_cancel(), CancelState::Completed);
    assert(end.slots =~= slab.freed(token.spec_index()).slots);
}

/// Every live operation is outstanding, and whatever the kernel still has to
/// report on is outstanding too.
pub proof fn law_groups_nest<P>(slab: SlabView<P>)
    ensures
        crate::slab::count(slab.slots, Group::Live) <= crate::slab::count(
            slab.slots,
            Group::Outstanding,
        ),
        crate::slab::count(slab.slots, Group::AwaitingKernel) <= crate::slab::count(
            slab.slots,
            Group::Outstanding,
        ),
    decreases slab.slots.len(),
{
    if slab.slots.len() > 0 {
        law_groups_nest(SlabView { slots: slab.slots.drop_last(), ..slab });
    }
}

/// A group is empty exactly when no slot belongs to it.
pub proof fn law_empty_group<P>(slab: SlabView<P>, group: Group)
    ensures
        crate::slab::count(slab.slots, group) == 0 <==> forall|i: int|
            0 <= i < slab.slots.len() ==> !(#[trigger] slab.slots[i]).phase.is_in(group),
    decreases slab.slots.len(),
{
    if slab.slots.len() > 0 {
        let shorter = SlabView { slots: slab.slots.drop_last(), ..slab };
        law_empty_group(shorter, group);
        assert(slab.slots.last() == slab.slots[slab.slots.len() - 1]);
        if forall|i: int|
            0 <= i < slab.slots.len() ==> !(#[trigger] slab.slots[i]).phase.is_in(group) {
            assert forall|i: int| 0 <= i < shorter.slots.len() implies !(
            #[trigger] shorter.slots[i]).phase.is_in(group) by {
                assert(shorter.slots[i] == slab.slots[i]);
            }
        } else if crate::slab::count(slab.slots, group) == 0 {
            assert forall|i: int| 0 <= i < slab.slots.len() implies !(
            #[trigger] slab.slots[i]).phase.is_in(group) by {
                if i < shorter.slots.len() {
                    assert(shorter.slots[i] == slab.slots[i]);
                }
            }
        }
    }
}

/// Draining hands back one payload for each live operation and leaves none.
pub proof fn law_draining_releases_everything<P>(slab: SlabView<P>)
    requires
        slab.is_valid(),
    ensures
        crate::slab::payloads(slab.slots).len() == crate::slab::count(slab.slots, Group::Live),
        crate::slab::count(slab.drained(slab.slots.len() as int).slots, Group::Live) == 0,
{
    lemma_payload_count(slab);
    lemma_drained(slab, slab.slots.len() as int);
    law_empty_group(slab.drained(slab.slots.len() as int), Group::Live);
}

proof fn lemma_payload_count<P>(slab: SlabView<P>)
    ensures
        crate::slab::payloads(slab.slots).len() == crate::slab::count(slab.slots, Group::Live),
    decreases slab.slots.len(),
{
    if slab.slots.len() > 0 {
        lemma_payload_count(SlabView { slots: slab.slots.drop_last(), ..slab });
    }
}

proof fn lemma_drained<P>(slab: SlabView<P>, n: int)
    requires
        0 <= n <= slab.slots.len(),
    ensures
        slab.drained(n).slots.len() == slab.slots.len(),
        forall|i: int|
            n <= i < slab.slots.len() ==> #[trigger] slab.drained(n).slots[i] == slab.slots[i],
        forall|i: int|
            0 <= i < n ==> !((#[trigger] slab.drained(n).slots[i]).phase is Occupied),
        forall|i: int|
            0 <= i < n && !(slab.slots[i].phase is Occupied) ==> #[trigger] slab.drained(n).slots[i]
                == slab.slots[i],
    decreases n,
{
    if n > 0 {
        lemma_drained(slab, n - 1);
    }
}

/// A tombstone outlasts a drain: only payloads are taken.
pub proof fn law_draining_keeps_tombstones<P>(slab: SlabView<P>, index: int)
    requires
        0 <= index < slab.slots.len(),
        slab.slots[index].phase is Tombstone,
    ensures
        slab.drained(slab.slots.len() as int).slots[index] == slab.slots[index],
{
    lemma_drained(slab, slab.slots.len() as int);
}

/// Listing a group of operations gives an operation token for each of its slots,
/// in index order, and nothing else.
pub proof fn law_listed_tokens_name_the_group<P>(slab: SlabView<P>, group: Group)
    requires
        slab.is_valid(),
        group != Group::Outstanding,
        group != Group::AwaitingKernel,
    ensures
        crate::slab::tokens(slab.slots, group).len() == crate::slab::count(slab.slots, group),
        forall|k: int|
            0 <= k < crate::slab::tokens(slab.slots, group).len() ==> ({
                let token = #[trigger] crate::slab::tokens(slab.slots, group)[k];
                &&& token.spec_kind() == TokenKind::Operation
                &&& slab.operation(token) matches Some(op)
                &&& Phase::Occupied(op).is_in(group)
            }),
        forall|j: int, k: int|
            0 <= j < k < crate::slab::tokens(slab.slots, group).len() ==> (
            #[trigger] crate::slab::tokens(slab.slots, group)[j]).spec_index() < (
            #[trigger] crate::slab::tokens(slab.slots, group)[k]).spec_index(),
        forall|i: int|
            0 <= i < slab.slots.len() && (#[trigger] slab.slots[i]).phase.is_in(group)
                ==> crate::slab::tokens(slab.slots, group).contains(
                crate::token::token_of(TokenKind::Operation, i, slab.slots[i].generation),
            ),
{
    lemma_listed(slab, slab.slots.len() as int, group);
    assert(slab.slots.take(slab.slots.len() as int) =~= slab.slots);
}

proof fn lemma_listed<P>(slab: SlabView<P>, n: int, group: Group)
    requires
        slab.is_valid(),
        group != Group::Outstanding,
        group != Group::AwaitingKernel,
        0 <= n <= slab.slots.len(),
    ensures
        ({
            let listed = crate::slab::tokens(slab.slots.take(n), group);
            &&& listed.len() == crate::slab::count(slab.slots.take(n), group)
            &&& forall|k: int|
                0 <= k < listed.len() ==> ({
                    let token = #[trigger] listed[k];
                    &&& token.spec_kind() == TokenKind::Operation
                    &&& token.spec_index() < n
                    &&& slab.operation(token) matches Some(op)
                    &&& Phase::Occupied(op).is_in(group)
                })
            &&& forall|j: int, k: int|
                0 <= j < k < listed.len() ==> (#[trigger] listed[j]).spec_index() < (
                #[trigger] listed[k]).spec_index()
            &&& forall|i: int|
                0 <= i < n && (#[trigger] slab.slots[i]).phase.is_in(group) ==> listed.contains(
                    crate::token::token_of(TokenKind::Operation, i, slab.slots[i].generation),
                )
        }),
    decreases n,
{
    if n > 0 {
        lemma_listed(slab, n - 1, group);
        let shorter = crate::slab::tokens(slab.slots.take(n - 1), group);
        let listed = crate::slab::tokens(slab.slots.take(n), group);
        assert(slab.slots.take(n).drop_last() =~= slab.slots.take(n - 1));
        assert(slab.slots.take(n).last() == slab.slots[n - 1]);
        crate::token::law_fields_round_trip(
            TokenKind::Operation,
            n - 1,
            slab.slots[n - 1].generation,
        );
        assert forall|i: int|
            0 <= i < n && (#[trigger] slab.slots[i]).phase.is_in(group) implies listed.contains(
            crate::token::token_of(TokenKind::Operation, i, slab.slots[i].generation),
        ) by {
            let token = crate::token::token_of(
                TokenKind::Operation,
                i,
                slab.slots[i].generation,
            );
            if i < n - 1 {
                let k = shorter.index_of(token);
                assert(listed[k] == token);
            } else {
                assert(listed[shorter.len() as int] == token);
            }
        }
    }
}

/// A slab is full exactly when no slot is free for reuse and as many have been made as a
/// token can name; until then the next operation gets a free slot, or one more.
pub proof fn law_a_slab_fills_up_to_what_tokens_can_name<P>(slab: SlabView<P>)
    requires
        slab.is_valid(),
    ensures
        slab.is_full() <==> slab.slots.len() == 65_536 && forall|i: int|
            0 <= i < slab.slots.len() ==> !((#[trigger] slab.slots[i]).phase is Vacant),
        !slab.is_full() ==> 0 <= slab.next_index() < 65_536 && (slab.next_index()
            < slab.slots.len() ==> slab.slots[slab.next_index()].phase is Vacant) && (
        slab.next_index() >= slab.slots.len() ==> slab.next_index() == slab.slots.len()
            && slab.free.len() == 0),
{
    if !slab.is_full() {
        lemma_next_slot(slab);
    }
    if slab.free.len() > 0 {
        let i = slab.free[0];
        assert(slab.slots[slab.free[0]].phase is Vacant);
        assert(slab.slots[i].phase is Vacant);
    } else {
        assert forall|i: int| 0 <= i < slab.slots.len() implies !((
        #[trigger] slab.slots[i]).phase is Vacant) by {
            if slab.slots[i].phase is Vacant {
                assert(slab.free.contains(i));
            }
        }
    }
}

/// An operation only moves on: a stage that is behind the one it has reached changes
/// nothing, and a later one takes its place.
pub proof fn law_stages_only_advance(stage: Lifecycle, next: Lifecycle)
    ensures
        stage.advanced(Lifecycle::Described) == stage,
        stage.advanced(Lifecycle::Submitted) == Lifecycle::Submitted,
        Lifecycle::Described.advanced(next) == next,
        Lifecycle::Submitted.advanced(next) == Lifecycle::Submitted,
        Lifecycle::Built.advanced(Lifecycle::Built) == Lifecycle::Built,
{
}

/// Completing an operation gives up its own slot and no other: the rest of the slab stays
/// as it is.
pub proof fn law_completion_disturbs_no_other<P>(slab: SlabView<P>, token: Token, index: int)
    requires
        slab.is_valid(),
        0 <= index < slab.slots.len(),
        index != token.spec_index(),
    ensures
        slab.completed(token).slots.len() == slab.slots.len(),
        slab.completed(token).slots[index] == slab.slots[index],
        slab.operation(token) is None ==> slab.completed(token) == slab,
{
}

} // verus!
