//! Driver-owned storage for in-flight operations.
//!
//! An operation's state, the caller's buffer included, must outlive the future
//! awaiting it, because the kernel keeps a pointer into that buffer until the
//! operation completes, and a future can be dropped at any time. The slab is
//! where that state lives.
//!
//! # Why payloads are boxed
//!
//! The slab's own storage grows, which moves its elements. Each payload is
//! therefore held behind its own [`Box`], so the address handed to the kernel
//! stays put no matter how many further operations are inserted.
//!
//! # Slot state
//!
//! State is two orthogonal dimensions rather than one flat enum, because "the
//! future was dropped" and "how far the operation has progressed" vary
//! independently: [`Lifecycle`] tracks progress and [`Observer`] tracks whether
//! a future is still waiting. A tombstone is a third, terminal state, entered
//! when an operation's own completion arrives while a cancellation request
//! against it is still outstanding.

use crate::token::{Token, TokenKind, FIRST_GENERATION, GENERATION_MASK, MAX_SLOTS};
use vstd::prelude::*;

verus! {

/// How far an operation has progressed.
#[derive(Debug, Clone, Copy, PartialEq, Eq, Structural)]
pub enum Lifecycle {
    /// The payload is placed but nothing has been built into the submission
    /// queue. Dropping here is free: no queue entry references the buffer.
    Described,
    /// A submission queue entry exists. The entry cannot be withdrawn, so the
    /// payload must be retained even if the future goes away.
    Built,
    /// The kernel has accepted the operation.
    Submitted,
}

/// Whether a future is still waiting on an operation.
#[derive(Debug, Clone, Copy, PartialEq, Eq, Structural)]
pub enum Observer {
    /// A future is waiting for this operation's result.
    Live,
    /// The future was dropped. The operation still runs to completion, but
    /// nobody wants the answer.
    Detached,
}

/// Whether a cancellation has ever been requested against an operation.
///
/// A counter cannot express this: it distinguishes "currently pending" from
/// "not pending", but not "never requested" from "already done".
#[derive(Debug, Clone, Copy, PartialEq, Eq, Structural)]
pub enum CancelState {
    /// No cancellation has been requested.
    NeverRequested,
    /// A cancellation was requested and its own completion has not arrived.
    Pending,
    /// A cancellation was requested and has since completed.
    Completed,
}

/// The outcome of looking a token up.
#[derive(Debug, PartialEq, Eq, Structural)]
pub enum Lookup {
    /// The token refers to a live slot.
    Live,
    /// The token refers to a tombstoned slot: the operation is over but a
    /// cancellation against it is still outstanding.
    Tombstoned,
    /// The token does not refer to anything the slab is tracking. This covers a
    /// stale token whose slot has since been reused, an index out of range, and
    /// a token for a vacant slot.
    Unknown,
}

/// A live operation.
#[derive(Debug)]
pub struct Operation<P> {
    /// How far the operation has progressed.
    pub lifecycle: Lifecycle,
    /// Whether a future is still waiting.
    pub observer: Observer,
    /// Boxed so its address is independent of the slab's own storage.
    pub payload: Box<P>,
    /// Whether a cancellation was ever requested.
    pub cancel: CancelState,
}

/// The state of a slot.
enum SlotState<P> {
    /// Free, awaiting reuse. Holds the next free index, forming a free list.
    Vacant { next_free: Option<usize> },
    /// Holds a live operation.
    Occupied(Operation<P>),
    /// The operation completed while a cancellation against it was still
    /// outstanding. The payload is gone; the slot index is withheld from reuse
    /// until that cancellation reports.
    Tombstone,
    /// The slot has exhausted its generation counter and is permanently
    /// withdrawn from use, so that no stale token can ever alias a future
    /// occupant.
    Retired,
}

struct Slot<P> {
    generation: usize,
    state: SlotState<P>,
}

/// Driver-owned storage for in-flight operations.
pub struct OpSlab<P> {
    slots: Vec<Slot<P>>,
    free_head: Option<usize>,
    occupied: usize,
    /// The free list, oldest entry first: `free_head` is its last element.
    free: Ghost<Seq<int>>,
}

/// What a slot holds, seen from outside: the links of the free list are left to
/// [`SlabView::free`].
pub enum Phase<P> {
    /// Free, awaiting reuse.
    Vacant,
    /// Holds a live operation.
    Occupied(Operation<P>),
    /// Waits for a cancellation to report.
    Tombstone,
    /// Withdrawn from use.
    Retired,
}

/// A slot, seen from outside.
pub struct SlotView<P> {
    /// How often the index has been reused.
    pub generation: int,
    /// What the slot holds.
    pub phase: Phase<P>,
}

/// A slab, seen from outside.
pub struct SlabView<P> {
    /// Every slot ever made, by index.
    pub slots: Seq<SlotView<P>>,
    /// The indices free for reuse; the last is reused first.
    pub free: Seq<int>,
}

/// The groups of slots that the driver counts or walks.
#[derive(Debug, Clone, Copy, PartialEq, Eq, Structural)]
pub enum Group {
    /// Slots holding a live operation.
    Live,
    /// Slots that still expect a completion of any kind.
    Outstanding,
    /// Slots the kernel has accepted, or whose cancellation is outstanding.
    AwaitingKernel,
    /// Operations for which no queue entry has been built.
    Described,
    /// Operations whose queue entry the kernel has not taken.
    Built,
    /// Submitted operations never cancelled.
    Uncancelled,
    /// Submitted operations never cancelled, whose future is gone.
    Abandoned,
}

impl<P> Phase<P> {
    /// Whether a slot in this phase belongs to `group`.
    pub open spec fn is_in(self, group: Group) -> bool {
        match group {
            Group::Live => self is Occupied,
            Group::Outstanding => self is Occupied || self is Tombstone,
            Group::AwaitingKernel => self is Tombstone || (self matches Phase::Occupied(op)
                && op.lifecycle == Lifecycle::Submitted),
            Group::Described => self matches Phase::Occupied(op) && op.lifecycle
                == Lifecycle::Described,
            Group::Built => self matches Phase::Occupied(op) && op.lifecycle == Lifecycle::Built,
            Group::Uncancelled => self matches Phase::Occupied(op) && op.lifecycle
                == Lifecycle::Submitted && op.cancel == CancelState::NeverRequested,
            Group::Abandoned => self matches Phase::Occupied(op) && op.lifecycle
                == Lifecycle::Submitted && op.cancel == CancelState::NeverRequested && op.observer
                == Observer::Detached,
        }
    }
}

impl<P> SlotView<P> {
    /// The slot with a built operation handed to the kernel.
    pub open spec fn promoted(self) -> SlotView<P> {
        match self.phase {
            Phase::Occupied(op) if op.lifecycle == Lifecycle::Built => SlotView {
                phase: Phase::Occupied(Operation { lifecycle: Lifecycle::Submitted, ..op }),
                ..self
            },
            _ => self,
        }
    }

    /// Whether a slot can turn into `later`; see [`SlabView::leads_to`].
    pub open spec fn leads_to(self, later: SlotView<P>) -> bool {
        self.generation < later.generation || (self.generation == later.generation
            && match self.phase {
            Phase::Vacant => true,
            Phase::Occupied(op) => match later.phase {
                Phase::Vacant => false,
                Phase::Occupied(next) => {
                    &&& op.lifecycle.rank() <= next.lifecycle.rank()
                    &&& op.observer == Observer::Detached ==> next.observer == Observer::Detached
                    &&& op.cancel == CancelState::Completed ==> next.cancel
                        == CancelState::Completed
                },
                _ => true,
            },
            Phase::Tombstone => later.phase is Tombstone || later.phase is Retired,
            Phase::Retired => later.phase is Retired,
        })
    }
}

/// Whether a slot can turn into `after` when `f` visits its payload.
pub open spec fn visited<P, F: Fn(Box<P>) -> Box<P>>(
    before: SlotView<P>,
    after: SlotView<P>,
    f: F,
) -> bool {
    match before.phase {
        Phase::Occupied(op) => {
            &&& after.generation == before.generation
            &&& after.phase matches Phase::Occupied(next)
            &&& next == (Operation { payload: next.payload, ..op })
            &&& call_ensures(f, (op.payload,), next.payload)
        },
        _ => after == before,
    }
}

/// How many slots belong to `group`.
pub open spec fn count<P>(slots: Seq<SlotView<P>>, group: Group) -> nat
    decreases slots.len(),
{
    if slots.len() == 0 {
        0
    } else {
        count(slots.drop_last(), group) + if slots.last().phase.is_in(group) {
            1nat
        } else {
            0nat
        }
    }
}

/// The operation tokens of the slots that belong to `group`, by rising index.
pub open spec fn tokens<P>(slots: Seq<SlotView<P>>, group: Group) -> Seq<Token>
    decreases slots.len(),
{
    if slots.len() == 0 {
        Seq::empty()
    } else {
        let before = tokens(slots.drop_last(), group);
        if slots.last().phase.is_in(group) {
            before.push(
                crate::token::token_of(
                    TokenKind::Operation,
                    slots.len() - 1,
                    slots.last().generation,
                ),
            )
        } else {
            before
        }
    }
}

/// The payloads of the live slots, by rising index.
pub open spec fn payloads<P>(slots: Seq<SlotView<P>>) -> Seq<Box<P>>
    decreases slots.len(),
{
    if slots.len() == 0 {
        Seq::empty()
    } else {
        match slots.last().phase {
            Phase::Occupied(op) => payloads(slots.drop_last()).push(op.payload),
            _ => payloads(slots.drop_last()),
        }
    }
}

impl<P> SlabView<P> {
    /// Whether `token` names a slot in its current generation.
    pub open spec fn names(self, token: Token) -> bool {
        token.spec_index() < self.slots.len() && self.slots[token.spec_index()].generation
            == token.spec_generation()
    }

    /// The live operation that `token` names, if it names one.
    pub open spec fn operation(self, token: Token) -> Option<Operation<P>> {
        if self.names(token) {
            match self.slots[token.spec_index()].phase {
                Phase::Occupied(op) => Some(op),
                _ => None,
            }
        } else {
            None
        }
    }

    /// Whether `token` names a tombstone.
    pub open spec fn is_tombstone(self, token: Token) -> bool {
        self.names(token) && self.slots[token.spec_index()].phase is Tombstone
    }

    /// Whether `token` names an operation that has never been cancelled.
    pub open spec fn can_cancel(self, token: Token) -> bool {
        token.spec_kind() == TokenKind::Operation && (self.operation(token) matches Some(op)
            && op.cancel == CancelState::NeverRequested)
    }

    /// The slab with one slot's phase replaced.
    pub open spec fn with_phase(self, index: int, phase: Phase<P>) -> SlabView<P> {
        SlabView {
            slots: self.slots.update(
                index,
                SlotView { generation: self.slots[index].generation, phase },
            ),
            free: self.free,
        }
    }

    /// The slab with the operation that `token` names replaced.
    pub open spec fn with_operation(self, token: Token, op: Operation<P>) -> SlabView<P> {
        self.with_phase(token.spec_index(), Phase::Occupied(op))
    }

    /// The slab with a slot given up: reusable under the next generation, or
    /// withdrawn for good when there is no next generation.
    pub open spec fn freed(self, index: int) -> SlabView<P> {
        let slot = self.slots[index];
        if slot.generation >= GENERATION_MASK {
            self.with_phase(index, Phase::Retired)
        } else {
            SlabView {
                slots: self.slots.update(
                    index,
                    SlotView { generation: slot.generation + 1, phase: Phase::Vacant },
                ),
                free: self.free.push(index),
            }
        }
    }

    /// Whether no further operation fits.
    pub open spec fn is_full(self) -> bool {
        self.free.len() == 0 && self.slots.len() >= MAX_SLOTS
    }

    /// The index that the next operation gets.
    pub open spec fn next_index(self) -> int {
        if self.free.len() > 0 {
            self.free.last()
        } else {
            self.slots.len() as int
        }
    }

    /// The generation that the next operation gets.
    pub open spec fn next_generation(self) -> int {
        if self.free.len() > 0 {
            self.slots[self.free.last()].generation
        } else {
            FIRST_GENERATION as int
        }
    }

    /// The token that the next operation gets.
    pub open spec fn next_token(self) -> Token {
        crate::token::token_of(TokenKind::Operation, self.next_index(), self.next_generation())
    }

    /// The slab with `payload` placed in the next slot.
    pub open spec fn inserted(self, payload: Box<P>) -> SlabView<P> {
        let slot = SlotView {
            generation: self.next_generation(),
            phase: Phase::Occupied(
                Operation {
                    lifecycle: Lifecycle::Described,
                    observer: Observer::Live,
                    payload,
                    cancel: CancelState::NeverRequested,
                },
            ),
        };
        if self.free.len() > 0 {
            SlabView {
                slots: self.slots.update(self.free.last(), slot),
                free: self.free.drop_last(),
            }
        } else {
            SlabView { slots: self.slots.push(slot), free: self.free }
        }
    }

    /// The slab after the operation that `token` names has reported.
    pub open spec fn completed(self, token: Token) -> SlabView<P> {
        match self.operation(token) {
            Some(op) => if op.cancel == CancelState::Pending {
                self.with_phase(token.spec_index(), Phase::Tombstone)
            } else {
                self.freed(token.spec_index())
            },
            None => self,
        }
    }

    /// Whether `token` names a cancellation that has been issued and has not
    /// reported.
    pub open spec fn awaits_cancel(self, token: Token) -> bool {
        token.spec_kind() == TokenKind::Cancel && (self.is_tombstone(token) || (self.operation(
            token,
        ) matches Some(op) && op.cancel == CancelState::Pending))
    }

    /// The slab after the cancellation that `token` names is over, with `cancel`
    /// recorded against an operation that is still live.
    pub open spec fn cancel_ended(self, token: Token, cancel: CancelState) -> SlabView<P> {
        if !self.awaits_cancel(token) {
            self
        } else if self.is_tombstone(token) {
            self.freed(token.spec_index())
        } else {
            self.with_operation(token, Operation { cancel, ..self.operation(token)->0 })
        }
    }

    /// The slab with every built operation handed to the kernel.
    pub open spec fn promoted(self) -> SlabView<P> {
        SlabView { slots: self.slots.map_values(|slot: SlotView<P>| slot.promoted()), ..self }
    }

    /// The slab with the live operations among its first `n` slots removed, in
    /// index order.
    pub open spec fn drained(self, n: int) -> SlabView<P>
        decreases n,
    {
        if n <= 0 {
            self
        } else {
            let before = self.drained(n - 1);
            if self.slots[n - 1].phase is Occupied {
                before.freed(n - 1)
            } else {
                before
            }
        }
    }

    /// Whether a slab can turn into `later`: no slot is lost, no generation goes
    /// back, what is over within a generation stays over, and a live operation
    /// only moves towards the kernel, never regains its future, and never
    /// forgets a completed cancellation.
    pub open spec fn leads_to(self, later: SlabView<P>) -> bool {
        &&& self.slots.len() <= later.slots.len()
        &&& forall|i: int|
            #![trigger self.slots[i]]
            #![trigger later.slots[i]]
            0 <= i < self.slots.len() ==> self.slots[i].leads_to(later.slots[i])
    }

    /// Every generation and index fits a token, and the free list holds every
    /// vacant slot once.
    pub open spec fn is_valid(self) -> bool {
        &&& self.slots.len() <= MAX_SLOTS
        &&& forall|i: int|
            0 <= i < self.slots.len() ==> FIRST_GENERATION
                <= #[trigger] self.slots[i].generation <= GENERATION_MASK
        &&& self.free.no_duplicates()
        &&& forall|k: int|
            0 <= k < self.free.len() ==> 0 <= #[trigger] self.free[k] < self.slots.len()
                && self.slots[self.free[k]].phase is Vacant
        &&& forall|i: int|
            0 <= i < self.slots.len() && #[trigger] self.slots[i].phase is Vacant
                ==> self.free.contains(i)
    }
}

impl<P> Slot<P> {
    spec fn view(self) -> SlotView<P> {
        SlotView {
            generation: self.generation as int,
            phase: match self.state {
                SlotState::Vacant { .. } => Phase::Vacant,
                SlotState::Occupied(op) => Phase::Occupied(op),
                SlotState::Tombstone => Phase::Tombstone,
                SlotState::Retired => Phase::Retired,
            },
        }
    }
}

impl<P> View for OpSlab<P> {
    type V = SlabView<P>;

    closed spec fn view(&self) -> SlabView<P> {
        SlabView {
            slots: Seq::new(self.slots@.len(), |i: int| self.slots@[i].view()),
            free: self.free@,
        }
    }
}

impl<P> OpSlab<P> {
    /// The link that the free list gives its `k`-th entry.
    spec fn link(self, k: int) -> Option<usize> {
        if k <= 0 {
            None
        } else {
            Some(self.free@[k - 1] as usize)
        }
    }

    /// The stored links and the stored count agree with the view.
    pub closed spec fn wf(self) -> bool {
        &&& self@.is_valid()
        &&& self.free_head == self.link(self.free@.len() as int)
        &&& forall|k: int|
            0 <= k < self.free@.len() ==> (#[trigger] self.slots@[self.free@[k]].state)
                == (SlotState::<P>::Vacant { next_free: self.link(k) })
        &&& self.occupied == count(self@.slots, Group::Live)
    }

    /// Creates an empty slab.
    pub fn new() -> (slab: Self)
        ensures
            slab.wf(),
            slab@.slots =~= Seq::<SlotView<P>>::empty(),
            slab@.free =~= Seq::<int>::empty(),
    {
        OpSlab { slots: Vec::new(), free_head: None, occupied: 0, free: Ghost(Seq::empty()) }
    }

    /// Returns the number of slots holding a live operation.
    ///
    /// Tombstones are not counted: their operation has already completed.
    pub fn occupied(&self) -> (n: usize)
        requires
            self.wf(),
        ensures
            n == count(self@.slots, Group::Live),
    {
        self.occupied
    }

    /// Whether the slot at `index` belongs to `group`.
    fn is_in(&self, index: usize, group: Group) -> (b: bool)
        requires
            index < self@.slots.len(),
        ensures
            b == self@.slots[index as int].phase.is_in(group),
    {
        match &self.slots[index].state {
            SlotState::Vacant { .. } => false,
            SlotState::Retired => false,
            SlotState::Tombstone => match group {
                Group::Outstanding => true,
                Group::AwaitingKernel => true,
                _ => false,
            },
            SlotState::Occupied(op) => match group {
                Group::Live => true,
                Group::Outstanding => true,
                Group::AwaitingKernel => op.lifecycle == Lifecycle::Submitted,
                Group::Described => op.lifecycle == Lifecycle::Described,
                Group::Built => op.lifecycle == Lifecycle::Built,
                Group::Uncancelled => op.lifecycle == Lifecycle::Submitted && op.cancel
                    == CancelState::NeverRequested,
                Group::Abandoned => op.lifecycle == Lifecycle::Submitted && op.cancel
                    == CancelState::NeverRequested && op.observer == Observer::Detached,
            },
        }
    }

    /// Counts the slots that belong to `group`.
    fn count_group(&self, group: Group) -> (n: usize)
        ensures
            n == count(self@.slots, group),
    {
        let mut n: usize = 0;
        let mut i: usize = 0;
        while i < self.slots.len()
            invariant
                i <= self.slots.len(),
                self.slots.len() == self@.slots.len(),
                n <= i,
                n == count(self@.slots.take(i as int), group),
            decreases self.slots.len() - i,
        {
            assert(self@.slots.take(i as int) =~= self@.slots.take(i + 1).drop_last());
            if self.is_in(i, group) {
                n = n + 1;
            }
            i = i + 1;
        }
        assert(self@.slots.take(i as int) =~= self@.slots);
        n
    }

    /// Collects the operation tokens of the slots that belong to `group`.
    fn tokens_of(&self, group: Group) -> (found: Vec<Token>)
        requires
            self.wf(),
        ensures
            found@ == tokens(self@.slots, group),
    {
        let mut found: Vec<Token> = Vec::new();
        let mut i: usize = 0;
        while i < self.slots.len()
            invariant
                i <= self.slots.len(),
                self.slots.len() == self@.slots.len(),
                self.wf(),
                found@ == tokens(self@.slots.take(i as int), group),
            decreases self.slots.len() - i,
        {
            assert(self@.slots.take(i as int) =~= self@.slots.take(i + 1).drop_last());
            assert(self@.slots.take(i + 1).last() == self@.slots[i as int]);
            if self.is_in(i, group) {
                found.push(self.token_at(i));
            }
            i = i + 1;
        }
        assert(self@.slots.take(i as int) =~= self@.slots);
        found
    }

    /// Returns the operation token of the slot at `index`.
    fn token_at(&self, index: usize) -> (token: Token)
        requires
            self.wf(),
            index < self@.slots.len(),
        ensures
            token == crate::token::token_of(
                TokenKind::Operation,
                index as int,
                self@.slots[index as int].generation,
            ),
    {
        let generation: usize = self.slots[index].generation;
        proof {
            assert(self@.slots[index as int].generation == generation);
            vstd::arithmetic::div_mod::lemma_small_mod(
                generation as nat,
                (GENERATION_MASK + 1) as nat,
            );
        }
        Token::new(TokenKind::Operation, index, generation)
    }

    /// Returns the number of slots that still expect a completion of any kind,
    /// including tombstones awaiting cancellation completions.
    ///
    /// Shutdown uses this to decide whether the kernel is quiescent.
    pub fn outstanding(&self) -> (n: usize)
        ensures
            n == count(self@.slots, Group::Outstanding),
    {
        self.count_group(Group::Outstanding)
    }

    /// Returns the number of slots the kernel has accepted, or whose
    /// cancellation is still outstanding.
    ///
    /// These are exactly the slots that will eventually report. Teardown may
    /// only abandon queue entries once there are none.
    pub fn awaiting_kernel(&self) -> (n: usize)
        ensures
            n == count(self@.slots, Group::AwaitingKernel),
    {
        self.count_group(Group::AwaitingKernel)
    }

    /// Returns the tokens of submitted operations whose future has gone away
    /// and which have never been cancelled.
    ///
    /// These are operations that were dropped before reaching the kernel, so
    /// there was nothing to cancel at the time. Now that they are submitted,
    /// cancelling them is worthwhile: nobody is waiting for the result.
    pub fn detached_submitted_uncancelled(&self) -> (found: Vec<Token>)
        requires
            self.wf(),
        ensures
            found@ == tokens(self@.slots, Group::Abandoned),
    {
        self.tokens_of(Group::Abandoned)
    }

    /// Returns every slot for which no queue entry has been built yet.
    ///
    /// Nothing references such a slot's buffer, so teardown can resolve it
    /// directly.
    pub fn described(&self) -> (found: Vec<Token>)
        requires
            self.wf(),
        ensures
            found@ == tokens(self@.slots, Group::Described),
    {
        self.tokens_of(Group::Described)
    }

    /// Returns every submitted operation that has never had a cancellation
    /// requested, whether or not a future is still waiting on it.
    ///
    /// Teardown uses this to ask the platform to abandon everything the kernel
    /// currently holds.
    pub fn submitted_uncancelled(&self) -> (found: Vec<Token>)
        requires
            self.wf(),
        ensures
            found@ == tokens(self@.slots, Group::Uncancelled),
    {
        self.tokens_of(Group::Uncancelled)
    }

    /// Returns every slot holding a queue entry the kernel has not taken.
    ///
    /// Such an entry cannot be withdrawn and still references the caller's
    /// buffer, so teardown must submit it rather than resolve it.
    pub fn built(&self) -> (found: Vec<Token>)
        requires
            self.wf(),
        ensures
            found@ == tokens(self@.slots, Group::Built),
    {
        self.tokens_of(Group::Built)
    }

    /// Returns the slot that a token names in its current generation.
    fn find(&self, token: Token) -> (found: Option<usize>)
        ensures
            match found {
                Some(index) => self@.names(token) && index == token.spec_index() && index
                    < self.slots@.len(),
                None => !self@.names(token),
            },
    {
        let index: usize = token.index();
        if index < self.slots.len() {
            assert(self@.slots[index as int] == self.slots@[index as int].view());
            if self.slots[index].generation == token.generation() {
                return Some(index);
            }
        }
        None
    }

    /// Returns the slot whose live operation a token names.
    fn live_index(&self, token: Token) -> (found: Option<usize>)
        ensures
            match found {
                Some(index) => self@.operation(token) is Some && index == token.spec_index() && index
                    < self.slots@.len() && self.slots@[index as int].state == (
                SlotState::Occupied(self@.operation(token)->0)),
                None => self@.operation(token) is None,
            },
    {
        match self.find(token) {
            Some(index) => match &self.slots[index].state {
                SlotState::Occupied(_) => Some(index),
                _ => None,
            },
            None => None,
        }
    }

    /// Classifies a token without modifying anything.
    pub fn lookup(&self, token: Token) -> (found: Lookup)
        ensures
            found == Lookup::Live <==> self@.operation(token) is Some,
            found == Lookup::Tombstoned <==> self@.is_tombstone(token),
            found == Lookup::Unknown <==> self@.operation(token) is None && !self@.is_tombstone(
                token,
            ),
    {
        match self.find(token) {
            Some(index) => match &self.slots[index].state {
                SlotState::Occupied(_) => Lookup::Live,
                SlotState::Tombstone => Lookup::Tombstoned,
                _ => Lookup::Unknown,
            },
            None => Lookup::Unknown,
        }
    }

    /// Returns the lifecycle and observer state of a live slot.
    pub fn state(&self, token: Token) -> (found: Option<(Lifecycle, Observer)>)
        ensures
            found == match self@.operation(token) {
                Some(op) => Some((op.lifecycle, op.observer)),
                None => None,
            },
    {
        match self.find(token) {
            Some(index) => match &self.slots[index].state {
                SlotState::Occupied(op) => Some((op.lifecycle, op.observer)),
                _ => None,
            },
            None => None,
        }
    }

    /// Returns the payload for a live slot.
    pub fn payload(&self, token: Token) -> (found: Option<&P>)
        ensures
            match self@.operation(token) {
                Some(op) => found == Some(&*op.payload),
                None => found is None,
            },
    {
        match self.find(token) {
            Some(index) => match &self.slots[index].state {
                SlotState::Occupied(op) => Some(&op.payload),
                _ => None,
            },
            None => None,
        }
    }

    /// Replacing one live operation by another keeps the slab well-formed.
    proof fn lemma_touch(before: Self, after: Self, index: int, op: Operation<P>)
        requires
            before.wf(),
            0 <= index < before.slots@.len(),
            before.slots@[index].state is Occupied,
            after.slots@ == before.slots@.update(
                index,
                Slot {
                    generation: before.slots@[index].generation,
                    state: SlotState::Occupied(op),
                },
            ),
            after.free_head == before.free_head,
            after.occupied == before.occupied,
            after.free == before.free,
        ensures
            after.wf(),
            after@ == before@.with_phase(index, Phase::Occupied(op)),
    {
        assert(after@.slots =~= before@.with_phase(index, Phase::Occupied(op)).slots);
        lemma_count_update(
            before@.slots,
            index,
            SlotView {
                generation: before@.slots[index].generation,
                phase: Phase::Occupied(op),
            },
            Group::Live,
        );
        assert forall|k: int| 0 <= k < after.free@.len() implies (
        #[trigger] after.slots@[after.free@[k]].state) == (SlotState::<P>::Vacant {
            next_free: after.link(k),
        }) by {
            assert(before.slots@[before.free@[k]].state == (SlotState::<P>::Vacant {
                next_free: before.link(k),
            }));
            assert(before.free@[k] != index);
        }
        assert forall|k: int| 0 <= k < after@.free.len() implies 0 <= #[trigger] after@.free[k]
            < after@.slots.len() && after@.slots[after@.free[k]].phase is Vacant by {
            assert(before@.slots[before@.free[k]].phase is Vacant);
        }
        assert forall|i: int|
            0 <= i < after@.slots.len() && #[trigger] after@.slots[i].phase is Vacant implies
            after@.free.contains(i) by {
            assert(before@.slots[i].phase is Vacant);
        }
        assert forall|i: int| 0 <= i < after@.slots.len() implies FIRST_GENERATION
            <= #[trigger] after@.slots[i].generation <= GENERATION_MASK by {
            assert(after@.slots[i].generation == before@.slots[i].generation);
        }
    }

    /// As [`OpSlab::lemma_touch`], for every operation that may end up there.
    proof fn lemma_touch_any(before: Self, index: int)
        requires
            before.wf(),
            0 <= index < before.slots@.len(),
            before.slots@[index].state is Occupied,
        ensures
            forall|after: Self|
                #![trigger after.wf()]
                #![trigger after.view()]
                (after.slots@ =~= before.slots@.update(index, after.slots@[index])
                    && after.slots@[index].generation == before.slots@[index].generation
                    && after.slots@[index].state is Occupied && after.free_head == before.free_head
                    && after.occupied == before.occupied && after.free == before.free)
                    ==> after.wf() && after@ == before@.with_phase(
                    index,
                    Phase::Occupied(after.slots@[index].state->Occupied_0),
                ),
    {
        assert forall|after: Self|
            #![trigger after.wf()]
            #![trigger after.view()]
            (after.slots@ =~= before.slots@.update(index, after.slots@[index])
                && after.slots@[index].generation == before.slots@[index].generation
                && after.slots@[index].state is Occupied && after.free_head == before.free_head
                && after.occupied == before.occupied && after.free == before.free) implies
            after.wf() && after@ == before@.with_phase(
            index,
            Phase::Occupied(after.slots@[index].state->Occupied_0),
        ) by {
            Self::lemma_touch(before, after, index, after.slots@[index].state->Occupied_0);
        }
    }

    /// Returns the payload for a live slot, for modification.
    ///
    /// The reference borrows through the box, so the payload cannot be moved
    /// while the slot is occupied.
    pub fn payload_mut(&mut self, token: Token) -> (found: Option<&mut P>)
        requires
            old(self).wf(),
        ensures
            final(self).wf(),
            old(self)@.leads_to(final(self)@),
            match old(self)@.operation(token) {
                Some(op) => found matches Some(payload) && *payload == *op.payload && final(self)@
                    == old(self)@.with_operation(
                    token,
                    Operation { payload: Box::new(*final(payload)), ..op },
                ),
                None => found is None && *final(self) == *old(self),
            },
    {
        let ghost before = *self;
        match self.live_index(token) {
            Some(index) => {
                proof {
                    Self::lemma_touch_any(before, index as int);
                }
                match &mut self.slots[index].state {
                    SlotState::Occupied(op) => {
                        Some(&mut *op.payload)
                    },
                    _ => None,
                }
            },
            None => None,
        }
    }

    /// Advances a slot's lifecycle.
    ///
    /// Returns `false` if the token does not refer to a live slot. Lifecycle
    /// only ever moves forward; an attempt to move it backwards is ignored.
    pub fn set_lifecycle(&mut self, token: Token, next: Lifecycle) -> (live: bool)
        requires
            old(self).wf(),
        ensures
            final(self).wf(),
            old(self)@.leads_to(final(self)@),
            match old(self)@.operation(token) {
                Some(op) => live && final(self)@ == old(self)@.with_operation(
                    token,
                    Operation { lifecycle: op.lifecycle.advanced(next), ..op },
                ),
                None => !live && *final(self) == *old(self),
            },
    {
        let ghost before = *self;
        match self.live_index(token) {
            Some(index) => {
                let ghost was = before@.operation(token)->0;
                match &mut self.slots[index].state {
                    SlotState::Occupied(op) => {
                        let forward = match (op.lifecycle, next) {
                            (Lifecycle::Described, Lifecycle::Built) => true,
                            (Lifecycle::Described, Lifecycle::Submitted) => true,
                            (Lifecycle::Built, Lifecycle::Submitted) => true,
                            _ => false,
                        };
                        if forward {
                            op.lifecycle = next;
                        }
                    },
                    _ => {},
                }
                proof {
                    let op = Operation { lifecycle: was.lifecycle.advanced(next), ..was };
                    Self::lemma_touch(before, *self, index as int, op);
                }
                true
            },
            None => false,
        }
    }

    /// Marks that the future awaiting this operation has been dropped.
    ///
    /// Returns the lifecycle the operation had reached, which determines what
    /// the caller must do next: a [`Lifecycle::Described`] operation can be
    /// released immediately, a [`Lifecycle::Built`] one must be retained, and a
    /// [`Lifecycle::Submitted`] one may be worth cancelling.
    pub fn detach(&mut self, token: Token) -> (reached: Option<Lifecycle>)
        requires
            old(self).wf(),
        ensures
            final(self).wf(),
            old(self)@.leads_to(final(self)@),
            match old(self)@.operation(token) {
                Some(op) => reached == Some(op.lifecycle) && final(self)@
                    == old(self)@.with_operation(
                    token,
                    Operation { observer: Observer::Detached, ..op },
                ),
                None => reached is None && *final(self) == *old(self),
            },
    {
        let ghost before = *self;
        match self.live_index(token) {
            Some(index) => {
                let ghost was = before@.operation(token)->0;
                let mut reached: Lifecycle = Lifecycle::Described;
                match &mut self.slots[index].state {
                    SlotState::Occupied(op) => {
                        op.observer = Observer::Detached;
                        reached = op.lifecycle;
                    },
                    _ => {},
                }
                proof {
                    let op = Operation { observer: Observer::Detached, ..was };
                    Self::lemma_touch(before, *self, index as int, op);
                }
                Some(reached)
            },
            None => None,
        }
    }

    /// Replaces the cancellation record of a live operation.
    fn set_cancel(&mut self, index: usize, cancel: CancelState)
        requires
            old(self).wf(),
            index < old(self).slots@.len(),
            old(self).slots@[index as int].state is Occupied,
        ensures
            final(self).wf(),
            final(self)@ == old(self)@.with_phase(
                index as int,
                Phase::Occupied(
                    Operation { cancel, ..old(self).slots@[index as int].state->Occupied_0 },
                ),
            ),
    {
        let ghost before = *self;
        match &mut self.slots[index].state {
            SlotState::Occupied(op) => {
                op.cancel = cancel;
            },
            _ => {},
        }
        proof {
            let was = before.slots@[index as int].state->Occupied_0;
            Self::lemma_touch(before, *self, index as int, Operation { cancel, ..was });
        }
    }

    /// Records that a cancellation request has been issued against a slot.
    ///
    /// Returns the token to give that cancellation request as its own user
    /// data, or `None` if there is nothing to do: because the token is unknown,
    /// is not an operation token, names an operation that has already completed,
    /// or names one that has **ever** been cancelled before. Cancelling twice is
    /// a no-op rather than an error, so exactly one cancellation is ever issued
    /// per operation.
    pub fn register_cancel(&mut self, token: Token) -> (issued: Option<Token>)
        requires
            old(self).wf(),
        ensures
            final(self).wf(),
            old(self)@.leads_to(final(self)@),
            if old(self)@.can_cancel(token) {
                issued == Some(token.spec_cancel()) && final(self)@ == old(self)@.with_operation(
                    token,
                    Operation {
                        cancel: CancelState::Pending,
                        ..old(self)@.operation(token)->0
                    },
                )
            } else {
                issued is None && *final(self) == *old(self)
            },
    {
        if token.kind() != TokenKind::Operation {
            return None;
        }
        match self.live_index(token) {
            Some(index) => {
                let fresh = match &self.slots[index].state {
                    SlotState::Occupied(op) => op.cancel == CancelState::NeverRequested,
                    _ => false,
                };
                if fresh {
                    self.set_cancel(index, CancelState::Pending);
                    Some(token.to_cancel())
                } else {
                    None
                }
            },
            None => None,
        }
    }

    /// Frees a slot whose operation is gone, and raises its generation so
    /// outstanding tokens for it become stale.
    ///
    /// A slot whose generation counter is exhausted is **retired** instead of
    /// being recycled. Wrapping the counter would let a stale token match a
    /// future occupant and complete somebody else's operation, so the index is
    /// permanently withdrawn.
    fn free_slot(&mut self, index: usize)
        requires
            old(self).wf(),
            index < old(self).slots@.len(),
            old(self).slots@[index as int].state is Tombstone,
        ensures
            final(self).wf(),
            final(self)@ == old(self)@.freed(index as int),
            final(self).slots@.len() == old(self).slots@.len(),
    {
        let ghost before = *self;
        let free_head: Option<usize> = self.free_head;
        let generation: usize = self.slots[index].generation;
        proof {
            assert(before@.slots[index as int].generation == generation);
            assert(!before.free@.contains(index as int)) by {
                if before.free@.contains(index as int) {
                    let k = before.free@.index_of(index as int);
                    assert(before@.slots[before@.free[k]].phase is Vacant);
                }
            }
        }
        if generation >= GENERATION_MASK {
            self.slots[index].state = SlotState::Retired;
        } else {
            self.slots[index].generation = generation + 1;
            self.slots[index].state = SlotState::Vacant { next_free: free_head };
            self.free_head = Some(index);
            proof {
                self.free@ = self.free@.push(index as int);
            }
        }
        proof {
            let target = before@.freed(index as int);
            assert(self@.slots =~= target.slots);
            assert(self@.free =~= target.free);
            lemma_count_update(
                before@.slots,
                index as int,
                target.slots[index as int],
                Group::Live,
            );
            assert forall|k: int| 0 <= k < self.free@.len() implies (
            #[trigger] self.slots@[self.free@[k]].state) == (SlotState::<P>::Vacant {
                next_free: self.link(k),
            }) by {
                if k < before.free@.len() {
                    assert(before.slots@[before.free@[k]].state == (SlotState::<P>::Vacant {
                        next_free: before.link(k),
                    }));
                    assert(before.free@.contains(before.free@[k]));
                }
            }
            assert forall|k: int| 0 <= k < self@.free.len() implies 0 <= #[trigger] self@.free[k]
                < self@.slots.len() && self@.slots[self@.free[k]].phase is Vacant by {
                if k < before.free@.len() {
                    assert(before@.slots[before@.free[k]].phase is Vacant);
                    assert(before.free@.contains(before.free@[k]));
                }
            }
            assert forall|i: int|
                0 <= i < self@.slots.len() && #[trigger] self@.slots[i].phase is Vacant implies
                self@.free.contains(i) by {
                if i == index as int {
                    assert(self@.free[self@.free.len() - 1] == i);
                } else {
                    assert(before@.slots[i].phase is Vacant);
                    let k = before@.free.index_of(i);
                    assert(self@.free[k] == i);
                }
            }
            assert forall|i: int| 0 <= i < self@.slots.len() implies FIRST_GENERATION
                <= #[trigger] self@.slots[i].generation <= GENERATION_MASK by {
                assert(FIRST_GENERATION <= before@.slots[i].generation <= GENERATION_MASK);
            }
            assert(self@.free.no_duplicates()) by {
                assert forall|a: int, b: int|
                    0 <= a < self@.free.len() && 0 <= b < self@.free.len() && a != b implies
                    self@.free[a] != self@.free[b] by {
                    if a < before.free@.len() {
                        assert(before.free@.contains(before.free@[a]));
                    }
                    if b < before.free@.len() {
                        assert(before.free@.contains(before.free@[b]));
                    }
                }
            }
        }
    }

    /// Takes a live operation out, leaving a tombstone in its place.
    fn take_operation(&mut self, index: usize) -> (op: Option<Operation<P>>)
        requires
            old(self).wf(),
            index < old(self).slots@.len(),
            old(self).slots@[index as int].state is Occupied,
        ensures
            op == Some(old(self).slots@[index as int].state->Occupied_0),
            final(self).wf(),
            final(self)@ == old(self)@.with_phase(index as int, Phase::Tombstone),
            final(self).slots@.len() == old(self).slots@.len(),
            final(self).slots@[index as int].state is Tombstone,
    {
        let ghost before = *self;
        proof {
            lemma_count_update(
                before@.slots,
                index as int,
                before@.with_phase(index as int, Phase::Tombstone).slots[index as int],
                Group::Live,
            );
            assert(before@.slots[index as int].phase is Occupied);
        }
        let mut state: SlotState<P> = SlotState::Tombstone;
        std::mem::swap(&mut state, &mut self.slots[index].state);
        self.occupied = self.occupied - 1;
        proof {
            let target = before@.with_phase(index as int, Phase::Tombstone);
            assert(self@.slots =~= target.slots);
            assert forall|k: int| 0 <= k < self.free@.len() implies (
            #[trigger] self.slots@[self.free@[k]].state) == (SlotState::<P>::Vacant {
                next_free: self.link(k),
            }) by {
                assert(before.slots@[before.free@[k]].state == (SlotState::<P>::Vacant {
                    next_free: before.link(k),
                }));
            }
            assert forall|k: int| 0 <= k < self@.free.len() implies 0 <= #[trigger] self@.free[k]
                < self@.slots.len() && self@.slots[self@.free[k]].phase is Vacant by {
                assert(before@.slots[before@.free[k]].phase is Vacant);
            }
            assert forall|i: int|
                0 <= i < self@.slots.len() && #[trigger] self@.slots[i].phase is Vacant implies
                self@.free.contains(i) by {
                assert(before@.slots[i].phase is Vacant);
            }
            assert forall|i: int| 0 <= i < self@.slots.len() implies FIRST_GENERATION
                <= #[trigger] self@.slots[i].generation <= GENERATION_MASK by {
                assert(FIRST_GENERATION <= before@.slots[i].generation <= GENERATION_MASK);
            }
        }
        match state {
            SlotState::Occupied(op) => Some(op),
            _ => None,
        }
    }

    /// Returns whether no further operation fits.
    pub fn is_full(&self) -> (full: bool)
        requires
            self.wf(),
        ensures
            full == self@.is_full(),
    {
        self.free_head.is_none() && self.slots.len() >= MAX_SLOTS
    }

    /// Places a payload in the slab and returns its operation token.
    ///
    /// The slot starts in [`Lifecycle::Described`] with a [`Observer::Live`]
    /// future. The index freed last is reused first.
    ///
    /// # Errors
    ///
    /// Returns the payload unchanged if the slab is full, which happens when
    /// [`MAX_SLOTS`] slots are already in use.
    pub fn insert(&mut self, payload: Box<P>) -> (placed: Result<Token, Box<P>>)
        requires
            old(self).wf(),
        ensures
            final(self).wf(),
            old(self)@.leads_to(final(self)@),
            if old(self)@.is_full() {
                placed == Err::<Token, Box<P>>(payload) && *final(self) == *old(self)
            } else {
                placed == Ok::<Token, Box<P>>(old(self)@.next_token()) && final(self)@ == old(
                    self,
                )@.inserted(payload)
            },
    {
        let ghost before = *self;
        let op = Operation {
            lifecycle: Lifecycle::Described,
            observer: Observer::Live,
            payload,
            cancel: CancelState::NeverRequested,
        };
        let index: usize = match self.free_head {
            Some(index) => {
                assert(before.slots@[before.free@[before.free@.len() - 1]].state == (
                SlotState::<P>::Vacant { next_free: before.link(before.free@.len() - 1) }));
                let next: Option<usize> = match &self.slots[index].state {
                    SlotState::Vacant { next_free } => *next_free,
                    _ => None,
                };
                self.free_head = next;
                self.slots[index].state = SlotState::Occupied(op);
                proof {
                    self.free@ = self.free@.drop_last();
                }
                index
            },
            None => {
                if self.slots.len() >= MAX_SLOTS {
                    return Err(op.payload);
                }
                self.slots.push(
                    Slot { generation: FIRST_GENERATION, state: SlotState::Occupied(op) },
                );
                self.slots.len() - 1
            },
        };
        proof {
            let target = before@.inserted(payload);
            assert(self@.slots =~= target.slots);
            assert(self@.free =~= target.free);
            lemma_count_bound(before@.slots, Group::Live);
            if before.free@.len() > 0 {
                assert(before@.slots[before@.free[before.free@.len() - 1]].phase is Vacant);
                lemma_count_update(before@.slots, index as int, target.slots[index as int], Group::Live);
                lemma_count_bound(target.slots, Group::Live);
            } else {
                assert(target.slots.drop_last() =~= before@.slots);
            }
        }
        self.occupied = self.occupied + 1;
        proof {
            assert forall|k: int| 0 <= k < self.free@.len() implies (
            #[trigger] self.slots@[self.free@[k]].state) == (SlotState::<P>::Vacant {
                next_free: self.link(k),
            }) by {
                assert(before.slots@[before.free@[k]].state == (SlotState::<P>::Vacant {
                    next_free: before.link(k),
                }));
            }
            assert forall|k: int| 0 <= k < self@.free.len() implies 0 <= #[trigger] self@.free[k]
                < self@.slots.len() && self@.slots[self@.free[k]].phase is Vacant by {
                assert(before@.slots[before@.free[k]].phase is Vacant);
            }
            assert forall|i: int|
                0 <= i < self@.slots.len() && #[trigger] self@.slots[i].phase is Vacant implies
                self@.free.contains(i) by {
                assert(before@.slots[i].phase is Vacant);
                let k = before@.free.index_of(i);
                assert(self@.free[k] == i);
            }
            assert forall|i: int| 0 <= i < self@.slots.len() implies FIRST_GENERATION
                <= #[trigger] self@.slots[i].generation <= GENERATION_MASK by {
                if i < before@.slots.len() {
                    assert(FIRST_GENERATION <= before@.slots[i].generation <= GENERATION_MASK);
                }
            }
        }
        Ok(self.token_at(index))
    }

    /// Handles an operation's own terminal completion.
    ///
    /// Returns the payload so the caller can resolve the future and release the
    /// buffer. If a cancellation request against this operation is still
    /// outstanding, the slot becomes a tombstone and its index is withheld from
    /// reuse until that cancellation reports; otherwise the slot is freed
    /// immediately.
    ///
    /// Returns `None` for a token the slab is not tracking, and for a token
    /// that is not an operation token: a cancellation's completion must never
    /// release the operation's buffer. This is how a stale or unrecognised
    /// completion is safely ignored.
    pub fn complete(&mut self, token: Token) -> (payload: Option<Box<P>>)
        requires
            old(self).wf(),
        ensures
            final(self).wf(),
            old(self)@.leads_to(final(self)@),
            match old(self)@.operation(token) {
                Some(op) if token.spec_kind() == TokenKind::Operation => payload == Some(op.payload)
                    && final(self)@ == old(self)@.completed(token),
                _ => payload is None && *final(self) == *old(self),
            },
    {
        if token.kind() != TokenKind::Operation {
            return None;
        }
        let ghost before = self@;
        match self.live_index(token) {
            Some(index) => match self.take_operation(index) {
                Some(op) => {
                    if op.cancel != CancelState::Pending {
                        self.free_slot(index);
                        assert(self@.slots =~= before.completed(token).slots);
                        assert(self@.free =~= before.completed(token).free);
                    }
                    Some(op.payload)
                },
                None => None,
            },
            None => None,
        }
    }

    /// Finds the slot that a cancellation token names, if that slot expects a
    /// cancellation to report: `Some((index, true))` for a tombstone,
    /// `Some((index, false))` for a live operation.
    fn pending_cancel(&self, token: Token) -> (found: Option<(usize, bool)>)
        ensures
            match found {
                Some((index, over)) => self@.awaits_cancel(token) && index == token.spec_index()
                    && index < self.slots@.len() && over == self@.is_tombstone(token) && (over
                    ==> self.slots@[index as int].state is Tombstone) && (!over
                    ==> self.slots@[index as int].state == (SlotState::Occupied(
                    self@.operation(token)->0,
                ))),
                None => !self@.awaits_cancel(token),
            },
    {
        if token.kind() != TokenKind::Cancel {
            return None;
        }
        match self.find(token) {
            Some(index) => match &self.slots[index].state {
                SlotState::Occupied(op) => {
                    if op.cancel == CancelState::Pending {
                        Some((index, false))
                    } else {
                        None
                    }
                },
                SlotState::Tombstone => Some((index, true)),
                _ => None,
            },
            None => None,
        }
    }

    /// Records that a cancellation request was never actually enqueued.
    ///
    /// Restores the slot to a state where cancellation can be requested again.
    /// This is **not** the same as [`OpSlab::complete_cancel`], which handles a
    /// cancellation that reached the platform and has now reported: here nothing
    /// was ever queued, so there is no completion to expect and nothing has been
    /// duplicated. A tombstone is waiting on a cancellation completion that will
    /// now never arrive, so its slot is released rather than withheld forever.
    ///
    /// Returns `true` if a pending request was withdrawn.
    pub fn cancel_request_not_enqueued(&mut self, token: Token) -> (withdrawn: bool)
        requires
            old(self).wf(),
        ensures
            final(self).wf(),
            old(self)@.leads_to(final(self)@),
            withdrawn == old(self)@.awaits_cancel(token),
            final(self)@ == old(self)@.cancel_ended(token, CancelState::NeverRequested),
            !old(self)@.awaits_cancel(token) ==> *final(self) == *old(self),
    {
        match self.pending_cancel(token) {
            Some((index, true)) => {
                self.free_slot(index);
                true
            },
            Some((index, false)) => {
                self.set_cancel(index, CancelState::NeverRequested);
                true
            },
            None => false,
        }
    }

    /// Handles a cancellation request's own completion.
    ///
    /// Returns `true` if the completion was accounted for. When a cancellation
    /// against a tombstoned slot reports, the slot is finally freed for reuse.
    /// Otherwise that a cancellation happened is remembered, so a later request
    /// is correctly refused.
    ///
    /// Returns `false` for a token that is not a cancellation token, for one
    /// the slab is not tracking, and for a slot that was not expecting a
    /// cancellation completion. Silently absorbing an unexpected completion
    /// could reclaim a slot while a real cancellation was still in flight.
    pub fn complete_cancel(&mut self, token: Token) -> (accounted: bool)
        requires
            old(self).wf(),
        ensures
            final(self).wf(),
            old(self)@.leads_to(final(self)@),
            accounted == old(self)@.awaits_cancel(token),
            final(self)@ == old(self)@.cancel_ended(token, CancelState::Completed),
            !old(self)@.awaits_cancel(token) ==> *final(self) == *old(self),
    {
        match self.pending_cancel(token) {
            Some((index, true)) => {
                self.free_slot(index);
                true
            },
            Some((index, false)) => {
                self.set_cancel(index, CancelState::Completed);
                true
            },
            None => false,
        }
    }

    /// Removes every remaining payload, returning them in index order.
    ///
    /// Used at teardown once the kernel is known to be finished with them. A
    /// cancellation that is still pending against one of them is forgotten.
    pub fn drain(&mut self) -> (out: Vec<Box<P>>)
        requires
            old(self).wf(),
        ensures
            final(self).wf(),
            out@ == payloads(old(self)@.slots),
            final(self)@ == old(self)@.drained(old(self)@.slots.len() as int),
            old(self)@.leads_to(final(self)@),
    {
        let ghost before = self@;
        let mut out: Vec<Box<P>> = Vec::new();
        let mut i: usize = 0;
        let len: usize = self.slots.len();
        while i < len
            invariant
                i <= len,
                len == before.slots.len(),
                len == self.slots@.len(),
                self.wf(),
                self@ == before.drained(i as int),
                out@ == payloads(before.slots.take(i as int)),
                forall|j: int| i <= j < len ==> #[trigger] self@.slots[j] == before.slots[j],
                before.leads_to(self@),
            decreases len - i,
        {
            let ghost part = before.slots.take(i + 1);
            assert(part.drop_last() =~= before.slots.take(i as int));
            assert(part.last() == before.slots[i as int]);
            let ghost now = self@;
            assert(now.slots[i as int] == before.slots[i as int]);
            if self.is_in(i, Group::Live) {
                assert(self.slots@[i as int].state is Occupied);
                match self.take_operation(i) {
                    Some(op) => {
                        out.push(op.payload);
                    },
                    None => {},
                }
                self.free_slot(i);
                assert(self@.slots =~= now.freed(i as int).slots);
                assert(self@.free =~= now.freed(i as int).free);
            }
            i = i + 1;
        }
        assert(before.slots.take(i as int) =~= before.slots);
        out
    }

    /// Visits every live payload, by rising index: `f` is handed each, and gives it
    /// back.
    pub fn for_each_payload<F: Fn(Box<P>) -> Box<P>>(&mut self, f: F)
        requires
            old(self).wf(),
            forall|payload: Box<P>| #[trigger] call_requires(f, (payload,)),
        ensures
            final(self).wf(),
            old(self)@.leads_to(final(self)@),
            final(self)@.free == old(self)@.free,
            final(self)@.slots.len() == old(self)@.slots.len(),
            forall|i: int|
                0 <= i < old(self)@.slots.len() ==> visited(
                    old(self)@.slots[i],
                    #[trigger] final(self)@.slots[i],
                    f,
                ),
    {
        let ghost before = self@;
        let mut i: usize = 0;
        let len: usize = self.slots.len();
        while i < len
            invariant
                i <= len,
                len == before.slots.len(),
                len == self.slots@.len(),
                self.wf(),
                forall|payload: Box<P>| #[trigger] call_requires(f, (payload,)),
                self@.free == before.free,
                self@.slots.len() == len,
                forall|j: int|
                    0 <= j < i ==> visited(before.slots[j], #[trigger] self@.slots[j], f),
                forall|j: int| i <= j < len ==> #[trigger] self@.slots[j] == before.slots[j],
            decreases len - i,
        {
            let ghost now = *self;
            assert(now@.slots[i as int] == before.slots[i as int]);
            if self.is_in(i, Group::Live) {
                let mut state: SlotState<P> = SlotState::Tombstone;
                std::mem::swap(&mut state, &mut self.slots[i].state);
                match state {
                    SlotState::Occupied(was) => {
                        let payload = f(was.payload);
                        let op = Operation {
                            lifecycle: was.lifecycle,
                            observer: was.observer,
                            payload,
                            cancel: was.cancel,
                        };
                        self.slots[i].state = SlotState::Occupied(op);
                        proof {
                            assert(self.slots@ =~= now.slots@.update(
                                i as int,
                                Slot {
                                    generation: now.slots@[i as int].generation,
                                    state: SlotState::Occupied(op),
                                },
                            ));
                            Self::lemma_touch(now, *self, i as int, op);
                        }
                    },
                    other => {
                        self.slots[i].state = other;
                    },
                }
            }
            i = i + 1;
        }
    }

    /// Moves every operation that has been built into the submission queue on
    /// to [`Lifecycle::Submitted`].
    ///
    /// Called once the kernel has accepted the queued entries.
    pub fn promote_built_to_submitted(&mut self)
        requires
            old(self).wf(),
        ensures
            final(self).wf(),
            final(self)@ == old(self)@.promoted(),
            old(self)@.leads_to(final(self)@),
    {
        let ghost before = self@;
        let mut i: usize = 0;
        let len: usize = self.slots.len();
        while i < len
            invariant
                i <= len,
                len == before.slots.len(),
                len == self.slots@.len(),
                self.wf(),
                self@.free == before.free,
                self@.slots.len() == len,
                forall|j: int|
                    0 <= j < i ==> #[trigger] self@.slots[j] == before.slots[j].promoted(),
                forall|j: int| i <= j < len ==> #[trigger] self@.slots[j] == before.slots[j],
            decreases len - i,
        {
            let ghost now = *self;
            assert(now@.slots[i as int] == before.slots[i as int]);
            if self.is_in(i, Group::Built) {
                let ghost was = now.slots@[i as int].state->Occupied_0;
                match &mut self.slots[i].state {
                    SlotState::Occupied(op) => {
                        op.lifecycle = Lifecycle::Submitted;
                    },
                    _ => {},
                }
                proof {
                    let op = Operation { lifecycle: Lifecycle::Submitted, ..was };
                    Self::lemma_touch(now, *self, i as int, op);
                }
            }
            i = i + 1;
        }
        assert(self@.slots =~= before.promoted().slots);
    }

    /// Whether the slot at `index` has been permanently withdrawn from use.
    pub fn is_retired(&self, index: usize) -> (retired: bool)
        requires
            index < self@.slots.len(),
        ensures
            retired == (self@.slots[index as int].phase is Retired),
    {
        match &self.slots[index].state {
            SlotState::Retired => true,
            _ => false,
        }
    }

    /// Moves a slot's generation counter forward, so that its exhaustion can be
    /// exercised without reusing the slot that often.
    pub fn force_generation(&mut self, index: usize, generation: usize)
        requires
            old(self).wf(),
            index < old(self)@.slots.len(),
            old(self)@.slots[index as int].generation <= generation <= GENERATION_MASK,
        ensures
            final(self).wf(),
            final(self)@.free == old(self)@.free,
            final(self)@.slots == old(self)@.slots.update(
                index as int,
                SlotView {
                    generation: generation as int,
                    phase: old(self)@.slots[index as int].phase,
                },
            ),
    {
        let ghost before = *self;
        self.slots[index].generation = generation;
        proof {
            let slot = SlotView {
                generation: generation as int,
                phase: before@.slots[index as int].phase,
            };
            assert(self@.slots =~= before@.slots.update(index as int, slot));
            lemma_count_update(before@.slots, index as int, slot, Group::Live);
            assert forall|k: int| 0 <= k < self.free@.len() implies (
            #[trigger] self.slots@[self.free@[k]].state) == (SlotState::<P>::Vacant {
                next_free: self.link(k),
            }) by {
                assert(before.slots@[before.free@[k]].state == (SlotState::<P>::Vacant {
                    next_free: before.link(k),
                }));
            }
            assert forall|k: int| 0 <= k < self@.free.len() implies 0 <= #[trigger] self@.free[k]
                < self@.slots.len() && self@.slots[self@.free[k]].phase is Vacant by {
                assert(before@.slots[before@.free[k]].phase is Vacant);
            }
            assert forall|i: int|
                0 <= i < self@.slots.len() && #[trigger] self@.slots[i].phase is Vacant implies
                self@.free.contains(i) by {
                assert(before@.slots[i].phase is Vacant);
            }
            assert forall|i: int| 0 <= i < self@.slots.len() implies FIRST_GENERATION
                <= #[trigger] self@.slots[i].generation <= GENERATION_MASK by {
                assert(FIRST_GENERATION <= before@.slots[i].generation <= GENERATION_MASK);
            }
        }
    }

    /// What being well-formed says of the view.
    pub proof fn lemma_wf(self)
        requires
            self.wf(),
        ensures
            self@.is_valid(),
    {
    }
}

impl<P> Default for OpSlab<P> {
    fn default() -> (slab: Self)
        ensures
            slab.wf(),
            slab@.slots =~= Seq::<SlotView<P>>::empty(),
            slab@.free =~= Seq::<int>::empty(),
    {
        OpSlab::new()
    }
}

impl Lifecycle {
    /// How many steps towards the kernel have been taken.
    pub open spec fn rank(self) -> int {
        match self {
            Lifecycle::Described => 0,
            Lifecycle::Built => 1,
            Lifecycle::Submitted => 2,
        }
    }

    /// The later of two stages.
    pub open spec fn advanced(self, next: Lifecycle) -> Lifecycle {
        if self.rank() < next.rank() {
            next
        } else {
            self
        }
    }
}

/// Replacing one slot changes a count by what that slot contributed.
pub proof fn lemma_count_update<P>(
    slots: Seq<SlotView<P>>,
    index: int,
    slot: SlotView<P>,
    group: Group,
)
    requires
        0 <= index < slots.len(),
    ensures
        count(slots.update(index, slot), group) + (if slots[index].phase.is_in(group) {
            1int
        } else {
            0
        }) == count(slots, group) + (if slot.phase.is_in(group) {
            1int
        } else {
            0
        }),
    decreases slots.len(),
{
    let after = slots.update(index, slot);
    if index == slots.len() - 1 {
        assert(after.drop_last() =~= slots.drop_last());
    } else {
        assert(after.drop_last() =~= slots.drop_last().update(index, slot));
        lemma_count_update(slots.drop_last(), index, slot, group);
    }
}

/// No group holds more slots than there are.
pub proof fn lemma_count_bound<P>(slots: Seq<SlotView<P>>, group: Group)
    ensures
        count(slots, group) <= slots.len(),
    decreases slots.len(),
{
    if slots.len() > 0 {
        lemma_count_bound(slots.drop_last(), group);
    }
}

} // verus!
