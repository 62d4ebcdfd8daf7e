//! The per-chain event listener: which block ranges it scans, and how the events found in
//! a range are handled, in order, with withdrawals paid out at most once.
use vstd::prelude::*;
use crate::eth::Uint256;
use crate::events::{
    DepositMade, EventRecord, SharesUpdated, UserSignedUp, WithdrawalRequested, deposit_fields,
    deposit_record, shares_updated_fields, shares_updated_record, user_signed_up_fields,
    user_signed_up_record, withdrawal_event_id, withdrawal_event_id_text,
};
use crate::registry::ProcessedEvents;

verus! {

/// What one poll of a chain found out.
pub enum PollOutcome {
    /// The endpoint's chain id could not be read or did not match.
    ChainCheckFailed,
    /// The latest block number could not be read.
    LatestBlockFailed,
    /// The latest block number.
    LatestBlock(u64),
}

/// What the listener does after a poll.
#[derive(Clone, Copy, Debug, PartialEq, Eq, Structural)]
pub enum PollAction {
    /// Nothing this round; the failure is logged.
    Skip,
    /// No block was added since the last scan.
    NoNewBlocks,
    /// Scan the blocks `from_block..=to_block` for events.
    ProcessRange { from_block: u64, to_block: u64 },
}

/// The last scanned block after a poll.
pub open spec fn poll_last(last: u64, o: PollOutcome) -> u64 {
    match o {
        PollOutcome::LatestBlock(b) => if b > last {
            b
        } else {
            last
        },
        _ => last,
    }
}

/// The action taken after a poll.
pub open spec fn poll_action(last: u64, o: PollOutcome) -> PollAction {
    match o {
        PollOutcome::LatestBlock(b) => if b > last {
            PollAction::ProcessRange { from_block: (last + 1) as u64, to_block: b }
        } else {
            PollAction::NoNewBlocks
        },
        _ => PollAction::Skip,
    }
}

/// The listener of one chain: it scans every block after the one it started at, once.
pub struct ChainListener {
    pub chain_id: u64,
    pub last_processed_block: u64,
}

impl ChainListener {
    /// A listener that starts after the chain's current block.
    pub fn start(chain_id: u64, current_block: u64) -> (r: ChainListener)
        ensures
            r.chain_id == chain_id,
            r.last_processed_block == current_block,
    {
        ChainListener { chain_id, last_processed_block: current_block }
    }

    /// Decides what a poll leads to: the range after the last scanned block up to the latest
    /// block where the chain has grown (that range then counts as scanned, whatever comes of
    /// scanning it), and nothing otherwise.
    pub fn on_poll(&mut self, outcome: PollOutcome) -> (a: PollAction)
        ensures
            a == poll_action(old(self).last_processed_block, outcome),
            final(self).last_processed_block == poll_last(old(self).last_processed_block, outcome),
            final(self).chain_id == old(self).chain_id,
            match outcome {
                PollOutcome::LatestBlock(b) => b > old(self).last_processed_block ==> {
                    &&& a == (PollAction::ProcessRange {
                        from_block: (old(self).last_processed_block + 1) as u64,
                        to_block: b,
                    })
                    &&& final(self).last_processed_block == b
                },
                _ => true,
            },
    {
        match outcome {
            PollOutcome::LatestBlock(b) => {
                if b > self.last_processed_block {
                    let from_block = self.last_processed_block + 1;
                    self.last_processed_block = b;
                    PollAction::ProcessRange { from_block, to_block: b }
                } else {
                    PollAction::NoNewBlocks
                }
            },
            _ => PollAction::Skip,
        }
    }
}

/// The last scanned block after a series of polls.
pub open spec fn run_last(last: u64, outcomes: Seq<PollOutcome>) -> u64
    decreases outcomes.len(),
{
    if outcomes.len() == 0 {
        last
    } else {
        run_last(poll_last(last, outcomes[0]), outcomes.drop_first())
    }
}

/// The ranges scanned over a series of polls, in order.
pub open spec fn run_ranges(last: u64, outcomes: Seq<PollOutcome>) -> Seq<(u64, u64)>
    decreases outcomes.len(),
{
    if outcomes.len() == 0 {
        Seq::empty()
    } else {
        let next = poll_last(last, outcomes[0]);
        let rest = run_ranges(next, outcomes.drop_first());
        match poll_action(last, outcomes[0]) {
            PollAction::ProcessRange { from_block, to_block } => seq![(from_block, to_block)]
                + rest,
            _ => rest,
        }
    }
}

/// The ranges cover the blocks after `start` up to `end`, each exactly once: they are
/// non-empty, consecutive and in order.
pub open spec fn tiles(start: nat, ranges: Seq<(u64, u64)>, end: nat) -> bool
    decreases ranges.len(),
{
    if ranges.len() == 0 {
        start == end
    } else {
        &&& ranges[0].0 == start + 1
        &&& ranges[0].0 <= ranges[0].1
        &&& tiles(ranges[0].1 as nat, ranges.drop_first(), end)
    }
}

/// Over any series of polls, the scanned ranges cover every block after the starting one
/// up to the last scanned block exactly once, in order: no block is scanned twice and none
/// is skipped.
pub proof fn lemma_blocks_scanned_once(last: u64, outcomes: Seq<PollOutcome>)
    ensures
        tiles(last as nat, run_ranges(last, outcomes), run_last(last, outcomes) as nat),
        last <= run_last(last, outcomes),
    decreases outcomes.len(),
{
    if outcomes.len() > 0 {
        let next = poll_last(last, outcomes[0]);
        lemma_blocks_scanned_once(next, outcomes.drop_first());
        let rest = run_ranges(next, outcomes.drop_first());
        match poll_action(last, outcomes[0]) {
            PollAction::ProcessRange { from_block, to_block } => {
                let all = seq![(from_block, to_block)] + rest;
                assert(all.drop_first() =~= rest);
                assert(all[0] == (from_block, to_block));
            },
            _ => {},
        }
    }
}

/// A poll that reports a latest block `b` beyond the last scanned block scans everything
/// new at once: the range from the block after the last scanned one up to `b` itself, and
/// `b` becomes the last scanned block. A poll that reports no growth, or fails, scans
/// nothing and moves nothing.
pub proof fn lemma_poll_catches_up(last: u64, o: PollOutcome)
    ensures
        match o {
            PollOutcome::LatestBlock(b) => if b > last {
                &&& poll_action(last, o) == (PollAction::ProcessRange {
                    from_block: (last + 1) as u64,
                    to_block: b,
                })
                &&& poll_last(last, o) == b
            } else {
                poll_last(last, o) == last && poll_action(last, o) == PollAction::NoNewBlocks
            },
            _ => poll_last(last, o) == last && poll_action(last, o) == PollAction::Skip,
        },
{
}

/// Over any series of polls the listener never lags: the last scanned block is the highest
/// of the starting block and every latest block that a poll reported, so once a poll has
/// reported block `b`, every block up to `b` has been scanned.
pub proof fn lemma_run_keeps_up(last: u64, outcomes: Seq<PollOutcome>)
    ensures
        last <= run_last(last, outcomes),
        forall|i: int|
            0 <= i < outcomes.len() ==> (#[trigger] outcomes[i] matches PollOutcome::LatestBlock(b)
                ==> b <= run_last(last, outcomes)),
        run_last(last, outcomes) == last || exists|i: int|
            0 <= i < outcomes.len() && #[trigger] outcomes[i] == PollOutcome::LatestBlock(
                run_last(last, outcomes),
            ),
    decreases outcomes.len(),
{
    if outcomes.len() > 0 {
        let next = poll_last(last, outcomes[0]);
        let rest = outcomes.drop_first();
        lemma_run_keeps_up(next, rest);
        let end = run_last(last, outcomes);
        assert(end == run_last(next, rest));
        assert forall|i: int|
            0 <= i < outcomes.len() implies (#[trigger] outcomes[i] matches PollOutcome::LatestBlock(b)
                ==> b <= end) by {
            if i > 0 {
                assert(outcomes[i] == rest[i - 1]);
            }
        }
        if end != last {
            if end == next {
                assert(outcomes[0] == PollOutcome::LatestBlock(end));
            } else {
                let j = choose|j: int|
                    0 <= j < rest.len() && #[trigger] rest[j] == PollOutcome::LatestBlock(end);
                assert(outcomes[j + 1] == rest[j]);
            }
        }
    }
}

/// Starting one listener for each id that `ContractRegistry::chain_ids` gives (ids without
/// repeats whose set is the registered chains) starts exactly one listener for every
/// registered chain, and none for another.
pub proof fn lemma_one_listener_per_chain(ids: Seq<u64>, chains: Set<u64>, chain_id: u64)
    requires
        ids.no_duplicates(),
        ids.to_set() == chains,
    ensures
        chains.contains(chain_id) <==> exists|i: int| 0 <= i < ids.len() && ids[i] == chain_id,
        forall|i: int, j: int|
            0 <= i < ids.len() && 0 <= j < ids.len() && ids[i] == chain_id && ids[j] == chain_id
                ==> i == j,
{
    if chains.contains(chain_id) {
        assert(ids.contains(chain_id));
    }
}

/// An event of the deposit graph contract, as found when scanning blocks.
#[derive(Clone, Copy, Debug)]
pub enum ChainEvent {
    WithdrawalRequested(WithdrawalRequested),
    SharesUpdated(SharesUpdated),
    UserSignedUp(UserSignedUp),
    Deposit(DepositMade),
}

/// What handling the events of a scanned range asks for next.
pub enum BatchAction {
    /// Pay out a withdrawal; on success it is remembered under `event_id`.
    ProcessWithdrawal { event_id: String, event: WithdrawalRequested },
    /// Save the record of an event.
    SaveRecord(EventRecord),
    /// Every event has been handled; `event_count` of them successfully.
    Finished { event_count: usize },
}

/// An event that is passed over: a withdrawal whose id is already handled.
pub open spec fn passed_over(chain_id: nat, handled: Set<Seq<char>>, e: ChainEvent) -> bool {
    e matches ChainEvent::WithdrawalRequested(w) && handled.contains(
        withdrawal_event_id_text(chain_id, w),
    )
}

/// The action asked for an event that is not passed over.
pub open spec fn action_for(chain_id: nat, e: ChainEvent, a: BatchAction) -> bool {
    match e {
        ChainEvent::WithdrawalRequested(w) => a matches BatchAction::ProcessWithdrawal {
            event_id,
            event,
        } && event_id@ == withdrawal_event_id_text(chain_id, w) && event == w,
        ChainEvent::SharesUpdated(s) => a matches BatchAction::SaveRecord(r) && r@
            == shares_updated_fields(chain_id, s),
        ChainEvent::UserSignedUp(u) => a matches BatchAction::SaveRecord(r) && r@
            == user_signed_up_fields(chain_id, u),
        ChainEvent::Deposit(d) => a matches BatchAction::SaveRecord(r) && r@ == deposit_fields(
            chain_id,
            d,
        ),
    }
}

enum Pending {
    Nothing,
    Withdrawal(String),
    Record,
}

/// The events found in one scanned range of a chain, handled one at a time: withdrawal
/// requests first, then share updates, sign-ups and deposits, each in the order found.
pub struct EventBatch {
    chain_id: Uint256,
    events: Vec<ChainEvent>,
    next: usize,
    pending: Pending,
    event_count: usize,
}

impl EventBatch {
    #[verifier::type_invariant]
    spec fn well_formed(&self) -> bool {
        &&& self.next <= self.events@.len()
        &&& self.event_count + (if self.pending is Nothing {
            0int
        } else {
            1int
        }) <= self.next
    }

    /// The chain the events were found on.
    pub closed spec fn chain(&self) -> nat {
        self.chain_id@
    }

    /// All events of the batch, in handling order.
    pub closed spec fn events(&self) -> Seq<ChainEvent> {
        self.events@
    }

    /// How many events have been handed out or passed over.
    pub closed spec fn position(&self) -> nat {
        self.next as nat
    }

    /// How many events were handled successfully.
    pub closed spec fn count(&self) -> nat {
        self.event_count as nat
    }

    /// The id of the withdrawal handed out last, while its outcome is awaited.
    pub closed spec fn awaited_withdrawal(&self) -> Option<Seq<char>> {
        match self.pending {
            Pending::Withdrawal(id) => Some(id@),
            _ => None,
        }
    }

    /// Whether the outcome of a handed-out action is awaited.
    pub closed spec fn awaiting(&self) -> bool {
        !(self.pending is Nothing)
    }

    /// A batch of the events found on a chain, in the order they are handled.
    pub fn new(
        chain_id: Uint256,
        withdrawals: Vec<WithdrawalRequested>,
        shares_updates: Vec<SharesUpdated>,
        sign_ups: Vec<UserSignedUp>,
        deposits: Vec<DepositMade>,
    ) -> (r: EventBatch)
        ensures
            r.chain() == chain_id@,
            r.events() == withdrawals@.map_values(|w| ChainEvent::WithdrawalRequested(w))
                + shares_updates@.map_values(|s| ChainEvent::SharesUpdated(s)) + sign_ups@.map_values(
                |u| ChainEvent::UserSignedUp(u),
            ) + deposits@.map_values(|d| ChainEvent::Deposit(d)),
            r.position() == 0,
            r.count() == 0,
            !r.awaiting(),
    {
        let mut events: Vec<ChainEvent> = Vec::new();
        let ghost target = withdrawals@.map_values(|w| ChainEvent::WithdrawalRequested(w))
            + shares_updates@.map_values(|s| ChainEvent::SharesUpdated(s)) + sign_ups@.map_values(
            |u| ChainEvent::UserSignedUp(u),
        ) + deposits@.map_values(|d| ChainEvent::Deposit(d));
        let mut i: usize = 0;
        while i < withdrawals.len()
            invariant
                i <= withdrawals@.len(),
                events@ == withdrawals@.subrange(0, i as int).map_values(
                    |w| ChainEvent::WithdrawalRequested(w),
                ),
            decreases withdrawals@.len() - i,
        {
            events.push(ChainEvent::WithdrawalRequested(withdrawals[i]));
            i += 1;
            assert(events@ =~= withdrawals@.subrange(0, i as int).map_values(
                |w| ChainEvent::WithdrawalRequested(w),
            ));
        }
        assert(withdrawals@.subrange(0, i as int) =~= withdrawals@);
        let ghost a = events@;
        let mut i: usize = 0;
        while i < shares_updates.len()
            invariant
                i <= shares_updates@.len(),
                events@ == a + shares_updates@.subrange(0, i as int).map_values(
                    |s| ChainEvent::SharesUpdated(s),
                ),
            decreases shares_updates@.len() - i,
        {
            events.push(ChainEvent::SharesUpdated(shares_updates[i]));
            i += 1;
            assert(events@ =~= a + shares_updates@.subrange(0, i as int).map_values(
                |s| ChainEvent::SharesUpdated(s),
            ));
        }
        assert(shares_updates@.subrange(0, i as int) =~= shares_updates@);
        let ghost b = events@;
        let mut i: usize = 0;
        while i < sign_ups.len()
            invariant
                i <= sign_ups@.len(),
                events@ == b + sign_ups@.subrange(0, i as int).map_values(
                    |u| ChainEvent::UserSignedUp(u),
                ),
            decreases sign_ups@.len() - i,
        {
            events.push(ChainEvent::UserSignedUp(sign_ups[i]));
            i += 1;
            assert(events@ =~= b + sign_ups@.subrange(0, i as int).map_values(
                |u| ChainEvent::UserSignedUp(u),
            ));
        }
        assert(sign_ups@.subrange(0, i as int) =~= sign_ups@);
        let ghost c = events@;
        let mut i: usize = 0;
        while i < deposits.len()
            invariant
                i <= deposits@.len(),
                events@ == c + deposits@.subrange(0, i as int).map_values(
                    |d| ChainEvent::Deposit(d),
                ),
            decreases deposits@.len() - i,
        {
            events.push(ChainEvent::Deposit(deposits[i]));
            i += 1;
            assert(events@ =~= c + deposits@.subrange(0, i as int).map_values(
                |d| ChainEvent::Deposit(d),
            ));
        }
        assert(deposits@.subrange(0, i as int) =~= deposits@);
        assert(events@ =~= target);
        EventBatch { chain_id, events, next: 0, pending: Pending::Nothing, event_count: 0 }
    }

    /// Takes the outcome of the action handed out last (`succeeded`; ignored where nothing
    /// is awaited) and hands out the next action. A successful withdrawal is remembered as
    /// handled and every successful action counts; then the withdrawals already handled
    /// are passed over, and the next event's action is handed out, or `Finished` with the
    /// count once every event has been dealt with.
    pub fn step(&mut self, handled: &mut ProcessedEvents, succeeded: bool) -> (a: BatchAction)
        ensures
            final(self).chain() == old(self).chain(),
            final(self).events() == old(self).events(),
            final(handled).view() == match old(self).awaited_withdrawal() {
                Some(id) => if succeeded {
                    old(handled).view().insert(id)
                } else {
                    old(handled).view()
                },
                None => old(handled).view(),
            },
            final(self).count() == if old(self).awaiting() && succeeded {
                old(self).count() + 1
            } else {
                old(self).count()
            },
            old(self).position() <= final(self).position(),
            forall|k: int|
                old(self).position() <= k < final(self).position() - 1 ==> passed_over(
                    old(self).chain(),
                    final(handled).view(),
                    #[trigger] old(self).events()[k],
                ),
            match a {
                BatchAction::Finished { event_count } => {
                    &&& event_count == final(self).count()
                    &&& final(self).position() == old(self).events().len()
                    &&& !final(self).awaiting()
                    &&& forall|k: int|
                        old(self).position() <= k < old(self).events().len() ==> passed_over(
                            old(self).chain(),
                            final(handled).view(),
                            #[trigger] old(self).events()[k],
                        )
                },
                _ => {
                    let j = final(self).position() - 1;
                    &&& old(self).position() < final(self).position()
                    &&& !passed_over(old(self).chain(), final(handled).view(), old(self).events()[j])
                    &&& action_for(old(self).chain(), old(self).events()[j], a)
                    &&& final(self).awaiting()
                    &&& (a matches BatchAction::ProcessWithdrawal { event_id, .. }
                        ==> final(self).awaited_withdrawal() == Some(event_id@))
                    &&& (a is SaveRecord ==> final(self).awaited_withdrawal() is None)
                },
            },
    {
        proof {
            use_type_invariant(&*self);
        }
        let mut pending = Pending::Nothing;
        core::mem::swap(&mut pending, &mut self.pending);
        match pending {
            Pending::Withdrawal(id) => {
                if succeeded {
                    handled.insert(id);
                    self.event_count = self.event_count + 1;
                }
            },
            Pending::Record => {
                if succeeded {
                    self.event_count = self.event_count + 1;
                }
            },
            Pending::Nothing => {},
        }
        let ghost start = self.next;
        let ghost settled_count = self.event_count;
        let ghost settled = handled.view();
        while self.next < self.events.len()
            invariant_except_break
                start <= self.next <= self.events@.len(),
                self.event_count <= start,
                self.event_count == settled_count,
                handled.view() == settled,
                self.events@ == old(self).events@,
                self.chain_id == old(self).chain_id,
                self.pending is Nothing,
                forall|k: int|
                    start <= k < self.next ==> passed_over(
                        self.chain_id@,
                        handled.view(),
                        #[trigger] self.events@[k],
                    ),
            ensures
                start <= self.next <= self.events@.len(),
                self.event_count <= start,
                self.event_count == settled_count,
                handled.view() == settled,
                self.events@ == old(self).events@,
                self.chain_id == old(self).chain_id,
                self.pending is Nothing,
                forall|k: int|
                    start <= k < self.next ==> passed_over(
                        self.chain_id@,
                        handled.view(),
                        #[trigger] self.events@[k],
                    ),
                self.next < self.events@.len() ==> !passed_over(
                    self.chain_id@,
                    handled.view(),
                    self.events@[self.next as int],
                ),
            decreases self.events@.len() - self.next,
        {
            let e = self.events[self.next];
            match e {
                ChainEvent::WithdrawalRequested(w) => {
                    let id = withdrawal_event_id(&self.chain_id, &w);
                    if !handled.contains(&id) {
                        break;
                    }
                },
                _ => {
                    break;
                },
            }
            self.next = self.next + 1;
        }
        if self.next == self.events.len() {
            return BatchAction::Finished { event_count: self.event_count };
        }
        let e = self.events[self.next];
        self.next = self.next + 1;
        match e {
            ChainEvent::WithdrawalRequested(w) => {
                let id = withdrawal_event_id(&self.chain_id, &w);
                self.pending = Pending::Withdrawal(id.clone());
                BatchAction::ProcessWithdrawal { event_id: id, event: w }
            },
            ChainEvent::SharesUpdated(s) => {
                self.pending = Pending::Record;
                BatchAction::SaveRecord(shares_updated_record(&self.chain_id, &s))
            },
            ChainEvent::UserSignedUp(u) => {
                self.pending = Pending::Record;
                BatchAction::SaveRecord(user_signed_up_record(&self.chain_id, &u))
            },
            ChainEvent::Deposit(d) => {
                self.pending = Pending::Record;
                BatchAction::SaveRecord(deposit_record(&self.chain_id, &d))
            },
        }
    }
}

/// A withdrawal is paid out at most once: once its id is recorded as handled (as a
/// successful payout records it, and handled ids are never dropped), every later batch
/// passes it over instead of handing it out again.
pub proof fn lemma_withdrawal_paid_once(
    chain_id: nat,
    handled: Set<Seq<char>>,
    e: WithdrawalRequested,
)
    ensures
        passed_over(
            chain_id,
            handled.insert(withdrawal_event_id_text(chain_id, e)),
            ChainEvent::WithdrawalRequested(e),
        ),
{
}

} // verus!
