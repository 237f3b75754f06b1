//! The synchronisation of the client with L1 and L2.

use vstd::prelude::*;

use crate::felt::Felt;
use crate::node::{node_after_state, node_after_states, NodeData};

verus! {

/// How a synchronised state was obtained.
#[derive(Clone, Copy, Debug, PartialEq, Eq, Structural)]
pub enum UpdateType {
    /// Accepted on L1
    L1Synchronized,
    /// Verified from the last L1 update
    L2Verified,
    /// The latest L2 block, taken in as the local state before it is proven
    L2Unproven,
}

/// A state that the synchronisation reports.
#[derive(Clone, Copy, Debug)]
pub struct LocalSyncState {
    /// The block number.
    pub block_number: u64,
    /// The state root (for a block verified on L2: its hash; for the latest
    /// L2 block: its new state root).
    pub state_root: Felt,
    /// How the state was obtained.
    pub type_: UpdateType,
}

/// A state newly proven on L1.
#[derive(Clone, Copy, Debug)]
pub struct L1Update {
    /// The number of the proven block.
    pub block_number: u64,
    /// The proven state root.
    pub state_root: Felt,
}

/// The last proven block number once the L1 source has polled `block_number`.
pub open spec fn l1_source_next(last_update: u64, block_number: u64) -> u64 {
    if last_update < block_number {
        block_number
    } else {
        last_update
    }
}

/// The block numbers that the L1 source forwards, in order, when it starts
/// from `last_update` and polls the numbers of `polls` in turn.
pub open spec fn l1_forwarded(last_update: u64, polls: Seq<u64>) -> Seq<u64>
    decreases polls.len(),
{
    if polls.len() == 0 {
        Seq::empty()
    } else if last_update < polls[0] {
        seq![polls[0]] + l1_forwarded(polls[0], polls.drop_first())
    } else {
        l1_forwarded(last_update, polls.drop_first())
    }
}

/// The last block number forwarded by the L1 source once it has polled
/// the numbers of `polls` in turn, starting from `last_update`.
pub open spec fn l1_last(last_update: u64, polls: Seq<u64>) -> u64
    decreases polls.len(),
{
    if polls.len() == 0 {
        last_update
    } else {
        l1_last(l1_source_next(last_update, polls[0]), polls.drop_first())
    }
}

/// The source of L1 updates: it polls the state of the core contract and
/// forwards each state whose block number is above the last it forwarded.
#[derive(Clone, Copy, Debug)]
pub struct L1Source {
    /// The number of the last block forwarded (0 before any).
    pub last_update: u64,
}

impl L1Source {
    /// A source that has forwarded nothing.
    pub fn new() -> (res: L1Source)
        ensures
            res.last_update == 0,
    {
        L1Source { last_update: 0 }
    }

    /// A source that forwards only blocks above `last_update`, the number
    /// of the last block already taken in.
    pub fn from_last(last_update: u64) -> (res: L1Source)
        ensures
            res.last_update == last_update,
    {
        L1Source { last_update }
    }

    /// Takes the state root and block number read from L1 at one poll and
    /// returns the update to forward, if the block is newer than the last
    /// one forwarded.
    pub fn on_poll(&mut self, state_root: Felt, block_number: u64) -> (res: Option<L1Update>)
        ensures
            old(self).last_update < block_number ==> res == Some(
                (L1Update { block_number, state_root }),
            ),
            !(old(self).last_update < block_number) ==> res is None,
            final(self).last_update == l1_source_next(old(self).last_update, block_number),
    {
        if self.last_update < block_number {
            self.last_update = block_number;
            Some(L1Update { block_number, state_root })
        } else {
            None
        }
    }
}

/// Where the L2 verifier stands.
#[derive(Clone, Copy, Debug, PartialEq, Eq, Structural)]
pub enum VerifierPhase {
    /// Waiting for the next state proven on L1.
    AwaitingL1Update,
    /// Waiting for the number of the latest L2 block, to catch up from the
    /// block proven on L1.
    AwaitingLatestBlock { from: u64 },
    /// Blocks up to `synced` are verified; blocks after it are verified
    /// while `synced <= to`.
    CatchingUp { synced: u64, to: u64 },
    /// Stopped: the L1 updates ended, or a block hash was inconsistent.
    Finished,
}

/// What the L2 verifier asks its driver to do next.
#[derive(Clone, Copy, Debug, PartialEq, Eq, Structural)]
pub enum VerifierCommand {
    /// Receive the next state proven on L1.
    ReceiveL1Update,
    /// Fetch the latest confirmed L2 block.
    FetchLatestBlock,
    /// Fetch the L2 block of this number, with its transactions and events,
    /// and compute its hash.
    FetchBlock(u64),
    /// Stop: the verifier is done.
    Stop,
}

/// Why the synchronisation stopped.
#[derive(Clone, Copy, Debug, PartialEq, Eq, Structural)]
pub enum SyncError {
    /// The hash computed for the block at this height differs from the
    /// hash that L2 gave for it.
    InconsistentBlockHash { height: u64 },
}

/// What the driver hands back to the L2 verifier.
#[derive(Clone, Copy, Debug)]
pub enum VerifierEvent {
    /// A state proven on L1.
    L1Update(L1Update),
    /// The L1 updates have ended.
    L1Closed,
    /// The latest confirmed L2 block: its number and new state root.
    LatestBlock { block_number: u64, state_root: Felt },
    /// The block fetched at the next height: its number, the hash that L2
    /// gave for it, and the hash computed from its content.
    Block { block_number: u64, block_hash: Felt, computed_hash: Felt },
}

/// The phase once the blocks up to `synced` are verified, catching up to `to`.
pub open spec fn catch_up_phase(synced: u64, to: u64) -> VerifierPhase {
    if synced <= to {
        VerifierPhase::CatchingUp { synced, to }
    } else {
        VerifierPhase::AwaitingL1Update
    }
}

/// The command once the blocks up to `synced` are verified, catching up to
/// `to`: the next block while `synced <= to`, else the next L1 update.
pub open spec fn catch_up_command(synced: u64, to: u64) -> VerifierCommand {
    if synced <= to {
        VerifierCommand::FetchBlock((synced + 1) as u64)
    } else {
        VerifierCommand::ReceiveL1Update
    }
}

/// The heights that the verifier fetches, in order, from the phase
/// `CatchingUp { synced, to }` when every block matches its hash.
pub open spec fn catch_up_heights(synced: u64, to: u64) -> Seq<u64>
    decreases to + 1 - synced,
{
    if synced < u64::MAX {
        match catch_up_command(synced, to) {
            VerifierCommand::FetchBlock(height) => seq![height] + catch_up_heights(height, to),
            _ => Seq::empty(),
        }
    } else {
        Seq::empty()
    }
}

/// Whether the verifier takes `event` in `phase`: the event that answers
/// its last command, and none that would ask for height `u64::MAX + 1`.
pub open spec fn verifier_accepts(phase: VerifierPhase, event: VerifierEvent) -> bool {
    match event {
        VerifierEvent::L1Update(_) => phase == VerifierPhase::AwaitingL1Update,
        VerifierEvent::L1Closed => phase == VerifierPhase::AwaitingL1Update,
        VerifierEvent::LatestBlock { block_number, .. } => match phase {
            VerifierPhase::AwaitingLatestBlock { from } => !(from == u64::MAX && block_number
                == u64::MAX),
            _ => false,
        },
        VerifierEvent::Block { block_hash, computed_hash, .. } => match phase {
            VerifierPhase::CatchingUp { synced, to } => synced <= to && synced < u64::MAX && !(
            computed_hash@ == block_hash@ && synced + 1 == u64::MAX && to == u64::MAX),
            _ => false,
        },
    }
}

/// The phase after the verifier takes `event` in `phase`.
pub open spec fn verifier_next(phase: VerifierPhase, event: VerifierEvent) -> VerifierPhase {
    match event {
        VerifierEvent::L1Update(update) => VerifierPhase::AwaitingLatestBlock {
            from: update.block_number,
        },
        VerifierEvent::L1Closed => VerifierPhase::Finished,
        VerifierEvent::LatestBlock { block_number, .. } => match phase {
            VerifierPhase::AwaitingLatestBlock { from } => catch_up_phase(from, block_number),
            _ => phase,
        },
        VerifierEvent::Block { block_hash, computed_hash, .. } => match phase {
            VerifierPhase::CatchingUp { synced, to } => if computed_hash@ == block_hash@ {
                catch_up_phase((synced + 1) as u64, to)
            } else {
                VerifierPhase::Finished
            },
            _ => phase,
        },
    }
}

/// The state that the verifier reports when it takes `event`: the state
/// proven on L1; the latest L2 block as unproven state; a block whose
/// computed hash equals its hash as verified; nothing else.
pub open spec fn verifier_report(event: VerifierEvent) -> Option<LocalSyncState> {
    match event {
        VerifierEvent::L1Update(update) => Some(
            LocalSyncState {
                block_number: update.block_number,
                state_root: update.state_root,
                type_: UpdateType::L1Synchronized,
            },
        ),
        VerifierEvent::L1Closed => None,
        VerifierEvent::LatestBlock { block_number, state_root } => Some(
            LocalSyncState { block_number, state_root, type_: UpdateType::L2Unproven },
        ),
        VerifierEvent::Block { block_number, block_hash, computed_hash } => if computed_hash@
            == block_hash@ {
            Some(
                LocalSyncState {
                    block_number,
                    state_root: block_hash,
                    type_: UpdateType::L2Verified,
                },
            )
        } else {
            None
        },
    }
}

/// What the verifier asks for next when it takes `event` in `phase`, or
/// the error that stops it.
pub open spec fn verifier_command(phase: VerifierPhase, event: VerifierEvent) -> Result<
    VerifierCommand,
    SyncError,
> {
    match event {
        VerifierEvent::L1Update(_) => Ok(VerifierCommand::FetchLatestBlock),
        VerifierEvent::L1Closed => Ok(VerifierCommand::Stop),
        VerifierEvent::LatestBlock { block_number, .. } => match phase {
            VerifierPhase::AwaitingLatestBlock { from } => Ok(catch_up_command(from, block_number)),
            _ => Ok(VerifierCommand::Stop),
        },
        VerifierEvent::Block { block_hash, computed_hash, .. } => match phase {
            VerifierPhase::CatchingUp { synced, to } => if computed_hash@ == block_hash@ {
                Ok(catch_up_command((synced + 1) as u64, to))
            } else {
                Err(SyncError::InconsistentBlockHash { height: (synced + 1) as u64 })
            },
            _ => Ok(VerifierCommand::Stop),
        },
    }
}

/// An optional report as a sequence of reports.
pub open spec fn report_seq(report: Option<LocalSyncState>) -> Seq<LocalSyncState> {
    match report {
        Some(s) => seq![s],
        None => Seq::empty(),
    }
}

/// The states that the verifier reports, in order, when it starts in
/// `phase` and is handed `events` in turn, up to the first event that it
/// does not take.
pub open spec fn verifier_run(phase: VerifierPhase, events: Seq<VerifierEvent>) -> Seq<
    LocalSyncState,
>
    decreases events.len(),
{
    if events.len() == 0 || !verifier_accepts(phase, events[0]) {
        Seq::empty()
    } else {
        report_seq(verifier_report(events[0])) + verifier_run(
            verifier_next(phase, events[0]),
            events.drop_first(),
        )
    }
}

/// The verifier of L2 blocks: for each state proven on L1 it reports that
/// state, then the latest L2 block as the unproven local state, then hashes
/// the L2 blocks that follow the proven one, one by one up to the latest,
/// and reports each block whose hash is consistent.
#[derive(Clone, Copy, Debug)]
pub struct L2Verifier {
    /// Where the verifier stands.
    pub phase: VerifierPhase,
}

impl L2Verifier {
    /// The verifier is consistent: while catching up, the next height exists.
    pub open spec fn wf(&self) -> bool {
        self.phase matches VerifierPhase::CatchingUp { synced, to } ==> synced <= to && synced
            < u64::MAX
    }

    /// A verifier waiting for its first L1 update.
    pub fn new() -> (res: L2Verifier)
        ensures
            res.phase == VerifierPhase::AwaitingL1Update,
            res.wf(),
    {
        L2Verifier { phase: VerifierPhase::AwaitingL1Update }
    }

    /// Takes a state proven on L1: reports it as synchronised from L1 and
    /// asks for the latest L2 block.
    pub fn on_l1_update(&mut self, update: L1Update) -> (res: (LocalSyncState, VerifierCommand))
        requires
            old(self).phase == VerifierPhase::AwaitingL1Update,
        ensures
            Some(res.0) == verifier_report(VerifierEvent::L1Update(update)),
            Ok::<VerifierCommand, SyncError>(res.1) == verifier_command(
                old(self).phase,
                VerifierEvent::L1Update(update),
            ),
            final(self).phase == verifier_next(old(self).phase, VerifierEvent::L1Update(update)),
            res.0 == (LocalSyncState {
                block_number: update.block_number,
                state_root: update.state_root,
                type_: UpdateType::L1Synchronized,
            }),
            res.1 == VerifierCommand::FetchLatestBlock,
            final(self).phase == (VerifierPhase::AwaitingLatestBlock { from: update.block_number }),
            final(self).wf(),
    {
        self.phase = VerifierPhase::AwaitingLatestBlock { from: update.block_number };
        (
            LocalSyncState {
                block_number: update.block_number,
                state_root: update.state_root,
                type_: UpdateType::L1Synchronized,
            },
            VerifierCommand::FetchLatestBlock,
        )
    }

    /// The L1 updates have ended: the verifier stops without error.
    pub fn on_l1_closed(&mut self) -> (res: VerifierCommand)
        requires
            old(self).phase == VerifierPhase::AwaitingL1Update,
        ensures
            verifier_report(VerifierEvent::L1Closed) is None,
            Ok::<VerifierCommand, SyncError>(res) == verifier_command(
                old(self).phase,
                VerifierEvent::L1Closed,
            ),
            final(self).phase == verifier_next(old(self).phase, VerifierEvent::L1Closed),
            res == VerifierCommand::Stop,
            final(self).phase == VerifierPhase::Finished,
            final(self).wf(),
    {
        self.phase = VerifierPhase::Finished;
        VerifierCommand::Stop
    }

    /// Takes the latest L2 block: reports it as the unproven local state,
    /// and starts catching up from the block proven on L1 to it.  Height
    /// `u64::MAX + 1` cannot be fetched: `requires` leaves out the one input
    /// that would ask for it.
    pub fn on_latest_block(&mut self, latest_number: u64, latest_root: Felt) -> (res: (
        LocalSyncState,
        VerifierCommand,
    ))
        requires
            verifier_accepts(
                old(self).phase,
                VerifierEvent::LatestBlock { block_number: latest_number, state_root: latest_root },
            ),
        ensures
            ({
                let event = VerifierEvent::LatestBlock {
                    block_number: latest_number,
                    state_root: latest_root,
                };
                &&& Some(res.0) == verifier_report(event)
                &&& Ok::<VerifierCommand, SyncError>(res.1) == verifier_command(old(self).phase, event)
                &&& final(self).phase == verifier_next(old(self).phase, event)
            }),
            res.0 == (LocalSyncState {
                block_number: latest_number,
                state_root: latest_root,
                type_: UpdateType::L2Unproven,
            }),
            old(self).phase matches VerifierPhase::AwaitingLatestBlock { from } && (from
                <= latest_number ==> res.1 == VerifierCommand::FetchBlock((from + 1) as u64)
                && final(self).phase == (VerifierPhase::CatchingUp {
                synced: from,
                to: latest_number,
            })) && (latest_number < from ==> res.1 == VerifierCommand::ReceiveL1Update
                && final(self).phase == VerifierPhase::AwaitingL1Update),
            final(self).wf(),
    {
        let from = match self.phase {
            VerifierPhase::AwaitingLatestBlock { from } => from,
            _ => 0,
        };
        let state = LocalSyncState {
            block_number: latest_number,
            state_root: latest_root,
            type_: UpdateType::L2Unproven,
        };
        if from <= latest_number {
            self.phase = VerifierPhase::CatchingUp { synced: from, to: latest_number };
            (state, VerifierCommand::FetchBlock(from + 1))
        } else {
            self.phase = VerifierPhase::AwaitingL1Update;
            (state, VerifierCommand::ReceiveL1Update)
        }
    }

    /// Takes the block fetched at the next height, with the hash that L2
    /// gave for it and the hash computed from its content.  A consistent
    /// block is reported as verified on L2 and the catch-up goes on; an
    /// inconsistent one stops the verifier with an error naming its height.
    /// Height `u64::MAX + 1` cannot be fetched: `requires` leaves out the one
    /// input that would ask for it.
    pub fn on_block(&mut self, block_number: u64, block_hash: Felt, computed_hash: Felt) -> (res:
        Result<(LocalSyncState, VerifierCommand), SyncError>)
        requires
            verifier_accepts(
                old(self).phase,
                VerifierEvent::Block { block_number, block_hash, computed_hash },
            ),
        ensures
            ({
                let event = VerifierEvent::Block { block_number, block_hash, computed_hash };
                &&& res is Ok ==> Some(res->Ok_0.0) == verifier_report(event) && Ok::<
                    VerifierCommand,
                    SyncError,
                >(res->Ok_0.1) == verifier_command(old(self).phase, event)
                &&& res is Err ==> verifier_report(event) is None && Err::<VerifierCommand, SyncError>(
                    res->Err_0,
                ) == verifier_command(old(self).phase, event)
                &&& final(self).phase == verifier_next(old(self).phase, event)
            }),
            old(self).phase matches VerifierPhase::CatchingUp { synced, to } && ({
                let height = (synced + 1) as u64;
                &&& computed_hash@ != block_hash@ ==> res is Err && res->Err_0
                    == (SyncError::InconsistentBlockHash { height }) && final(self).phase
                    == VerifierPhase::Finished
                &&& computed_hash@ == block_hash@ ==> res is Ok && res->Ok_0.0 == (LocalSyncState {
                    block_number,
                    state_root: block_hash,
                    type_: UpdateType::L2Verified,
                })
                &&& computed_hash@ == block_hash@ && height <= to ==> res->Ok_0.1
                    == VerifierCommand::FetchBlock((height + 1) as u64) && final(self).phase == (
                VerifierPhase::CatchingUp { synced: height, to })
                &&& computed_hash@ == block_hash@ && to < height ==> res->Ok_0.1
                    == VerifierCommand::ReceiveL1Update && final(self).phase
                    == VerifierPhase::AwaitingL1Update
            }),
            final(self).wf(),
    {
        let (synced, to) = match self.phase {
            VerifierPhase::CatchingUp { synced, to } => (synced, to),
            _ => (0, 0),
        };
        let candidate_number = synced + 1;
        if !(computed_hash == block_hash) {
            self.phase = VerifierPhase::Finished;
            return Err(SyncError::InconsistentBlockHash { height: candidate_number });
        }
        let state = LocalSyncState {
            block_number,
            state_root: block_hash,
            type_: UpdateType::L2Verified,
        };
        if candidate_number <= to {
            self.phase = VerifierPhase::CatchingUp { synced: candidate_number, to };
            Ok((state, VerifierCommand::FetchBlock(candidate_number + 1)))
        } else {
            self.phase = VerifierPhase::AwaitingL1Update;
            Ok((state, VerifierCommand::ReceiveL1Update))
        }
    }
}

/// Whether a report of type `type_` may come right after one of type
/// `prev` (`None` at the start): a state proven on L1 opens a round after
/// anything but another one, the latest L2 block comes right after the
/// state proven on L1, and the verified blocks come after the latest L2
/// block and after each other.
pub open spec fn may_follow(prev: Option<UpdateType>, type_: UpdateType) -> bool {
    match type_ {
        UpdateType::L1Synchronized => prev != Some(UpdateType::L1Synchronized),
        UpdateType::L2Unproven => prev == Some(UpdateType::L1Synchronized),
        UpdateType::L2Verified => prev == Some(UpdateType::L2Unproven) || prev == Some(
            UpdateType::L2Verified,
        ),
    }
}

/// Every report of `reports` may follow the one before it.
pub open spec fn reports_in_rounds(prev: Option<UpdateType>, reports: Seq<LocalSyncState>) -> bool {
    forall|k: int|
        0 <= k < reports.len() ==> may_follow(
            if k == 0 {
                prev
            } else {
                Some(reports[k - 1].type_)
            },
            #[trigger] reports[k].type_,
        )
}

/// The report that `phase` has last made, as far as the phase shows it.
spec fn phase_fits(phase: VerifierPhase, prev: Option<UpdateType>) -> bool {
    match phase {
        VerifierPhase::AwaitingL1Update => prev != Some(UpdateType::L1Synchronized),
        VerifierPhase::AwaitingLatestBlock { .. } => prev == Some(UpdateType::L1Synchronized),
        VerifierPhase::CatchingUp { .. } => prev == Some(UpdateType::L2Unproven) || prev == Some(
            UpdateType::L2Verified,
        ),
        VerifierPhase::Finished => true,
    }
}

/// The report of the previous step, or of the step before when there was none.
spec fn last_report_type(prev: Option<UpdateType>, report: Option<LocalSyncState>) -> Option<
    UpdateType,
> {
    match report {
        Some(s) => Some(s.type_),
        None => prev,
    }
}

proof fn lemma_step_in_rounds(phase: VerifierPhase, prev: Option<UpdateType>, e: VerifierEvent)
    requires
        phase_fits(phase, prev),
        verifier_accepts(phase, e),
    ensures
        phase_fits(verifier_next(phase, e), last_report_type(prev, verifier_report(e))),
        verifier_report(e) matches Some(s) ==> may_follow(prev, s.type_),
{
}

proof fn lemma_run_in_rounds_from(
    phase: VerifierPhase,
    prev: Option<UpdateType>,
    events: Seq<VerifierEvent>,
)
    requires
        phase_fits(phase, prev),
    ensures
        reports_in_rounds(prev, verifier_run(phase, events)),
    decreases events.len(),
{
    if events.len() > 0 && verifier_accepts(phase, events[0]) {
        let e = events[0];
        let report = verifier_report(e);
        let head = report_seq(report);
        let next = verifier_next(phase, e);
        let next_prev = last_report_type(prev, report);
        lemma_step_in_rounds(phase, prev, e);
        lemma_run_in_rounds_from(next, next_prev, events.drop_first());
        let rest = verifier_run(next, events.drop_first());
        let all = verifier_run(phase, events);
        assert(all == head + rest);
        assert forall|k: int| 0 <= k < all.len() implies may_follow(
            if k == 0 {
                prev
            } else {
                Some(all[k - 1].type_)
            },
            #[trigger] all[k].type_,
        ) by {
            if head.len() == 1 {
                if k == 0 {
                    assert(all[0] == report->Some_0);
                } else {
                    assert(all[k] == rest[k - 1]);
                    if k >= 2 {
                        assert(all[k - 1] == rest[k - 2]);
                    } else {
                        assert(all[0] == report->Some_0);
                    }
                    assert(may_follow(
                        if k - 1 == 0 {
                            next_prev
                        } else {
                            Some(rest[k - 2].type_)
                        },
                        rest[k - 1].type_,
                    ));
                }
            } else {
                assert(all[k] == rest[k]);
                if k >= 1 {
                    assert(all[k - 1] == rest[k - 1]);
                }
                assert(may_follow(
                    if k == 0 {
                        next_prev
                    } else {
                        Some(rest[k - 1].type_)
                    },
                    rest[k].type_,
                ));
            }
        }
    }
}

/// The verifier reports in rounds, one per state proven on L1: that state,
/// then the latest L2 block as unproven state, then the blocks verified in
/// its catch-up.  A round opens only once the catch-up of the round before
/// has ended, so each state proven on L1 is reported after every block
/// verified for the one before it and before every block verified for it.
pub proof fn lemma_verifier_reports_in_rounds(events: Seq<VerifierEvent>)
    ensures
        reports_in_rounds(None, verifier_run(VerifierPhase::AwaitingL1Update, events)),
{
    lemma_run_in_rounds_from(VerifierPhase::AwaitingL1Update, None, events);
}

/// Every block that the verifier reports as verified, in any run, is a
/// block handed to it whose computed hash equals the hash that L2 gave for
/// it, reported with that block's number and hash.
pub proof fn lemma_verified_reports_match_their_hash(
    phase: VerifierPhase,
    events: Seq<VerifierEvent>,
)
    ensures
        forall|k: int|
            0 <= k < verifier_run(phase, events).len() && (#[trigger] verifier_run(
                phase,
                events,
            )[k]).type_ == UpdateType::L2Verified ==> exists|i: int|
                0 <= i < events.len() && (#[trigger] events[i] matches VerifierEvent::Block {
                    block_number,
                    block_hash,
                    computed_hash,
                } && computed_hash@ == block_hash@ && verifier_run(phase, events)[k].block_number
                    == block_number && verifier_run(phase, events)[k].state_root == block_hash),
    decreases events.len(),
{
    if events.len() > 0 && verifier_accepts(phase, events[0]) {
        let e = events[0];
        let head = report_seq(verifier_report(e));
        let next = verifier_next(phase, e);
        let tail_events = events.drop_first();
        lemma_verified_reports_match_their_hash(next, tail_events);
        let rest = verifier_run(next, tail_events);
        let all = verifier_run(phase, events);
        assert(all == head + rest);
        assert forall|k: int|
            0 <= k < all.len() && (#[trigger] all[k]).type_ == UpdateType::L2Verified implies exists|i: int|
                0 <= i < events.len() && (#[trigger] events[i] matches VerifierEvent::Block {
                    block_number,
                    block_hash,
                    computed_hash,
                } && computed_hash@ == block_hash@ && all[k].block_number == block_number
                    && all[k].state_root == block_hash) by {
            if k < head.len() {
                assert(all[k] == verifier_report(e)->Some_0);
                assert(events[0] == e);
            } else {
                let r = k - head.len();
                assert(all[k] == rest[r]);
                let i = choose|i: int|
                    0 <= i < tail_events.len() && (#[trigger] tail_events[i] matches VerifierEvent::Block {
                        block_number,
                        block_hash,
                        computed_hash,
                    } && computed_hash@ == block_hash@ && rest[r].block_number == block_number
                        && rest[r].state_root == block_hash);
                assert(events[i + 1] == tail_events[i]);
            }
        }
    }
}

/// Whatever the gap between the block proven on L1 and the latest L2
/// block, the latest block starts a catch-up at the block right after the
/// proven one: from `AwaitingLatestBlock { from }` with `from <= to`, the
/// verifier asks for block `from + 1` and stands at `CatchingUp { synced:
/// from, to }`; with `to < from` it waits for the next L1 update.
pub proof fn lemma_latest_block_starts_catch_up(from: u64, to: u64, root: Felt)
    requires
        !(from == u64::MAX && to == u64::MAX),
    ensures
        ({
            let phase = VerifierPhase::AwaitingLatestBlock { from };
            let event = VerifierEvent::LatestBlock { block_number: to, state_root: root };
            &&& verifier_accepts(phase, event)
            &&& from <= to ==> verifier_command(phase, event) == Ok::<VerifierCommand, SyncError>(
                VerifierCommand::FetchBlock((from + 1) as u64),
            ) && verifier_next(phase, event) == (VerifierPhase::CatchingUp { synced: from, to })
            &&& to < from ==> verifier_command(phase, event) == Ok::<VerifierCommand, SyncError>(
                VerifierCommand::ReceiveL1Update,
            ) && verifier_next(phase, event) == VerifierPhase::AwaitingL1Update
        }),
{
}

/// A consistent block moves the catch-up on by exactly one height: in
/// `CatchingUp { synced, to }` it asks next for block `synced + 2` and
/// stands at `CatchingUp { synced: synced + 1, to }` while `synced + 1 <=
/// to`, and waits for the next L1 update once `synced + 1 > to`.
pub proof fn lemma_consistent_block_advances_one_height(
    synced: u64,
    to: u64,
    block_number: u64,
    hash: Felt,
)
    requires
        synced <= to < u64::MAX,
    ensures
        ({
            let phase = VerifierPhase::CatchingUp { synced, to };
            let event = VerifierEvent::Block { block_number, block_hash: hash, computed_hash: hash };
            &&& verifier_accepts(phase, event)
            &&& synced + 1 <= to ==> verifier_command(phase, event) == Ok::<VerifierCommand, SyncError>(
                VerifierCommand::FetchBlock((synced + 2) as u64),
            ) && verifier_next(phase, event) == (VerifierPhase::CatchingUp {
                synced: (synced + 1) as u64,
                to,
            })
            &&& synced == to ==> verifier_command(phase, event) == Ok::<VerifierCommand, SyncError>(
                VerifierCommand::ReceiveL1Update,
            ) && verifier_next(phase, event) == VerifierPhase::AwaitingL1Update
        }),
{
}

/// The commands that the verifier gives, from `phase`, when it is handed
/// one consistent block (hash `hash`) after each command that asks for a
/// block, up to `fuel` blocks.
pub open spec fn commands_while_consistent(phase: VerifierPhase, hash: Felt, fuel: nat) -> Seq<
    VerifierCommand,
>
    decreases fuel,
{
    let event = VerifierEvent::Block { block_number: 0, block_hash: hash, computed_hash: hash };
    if fuel == 0 || !verifier_accepts(phase, event) {
        Seq::empty()
    } else {
        match verifier_command(phase, event) {
            Ok(VerifierCommand::FetchBlock(height)) => seq![VerifierCommand::FetchBlock(height)]
                + commands_while_consistent(verifier_next(phase, event), hash, (fuel - 1) as nat),
            Ok(command) => seq![command],
            Err(_) => Seq::empty(),
        }
    }
}

/// Catching up from the block proven on L1 at `from` to the latest L2 block
/// `to`, when every block is consistent: after block `from + 1` (asked for
/// by the latest block), the verifier asks for `from + 2`, ..., `to + 1`, one
/// height after another, and then for the next L1 update.
pub proof fn lemma_catch_up_commands_consecutive(from: u64, to: u64, hash: Felt)
    requires
        from <= to < u64::MAX,
    ensures
        commands_while_consistent(VerifierPhase::CatchingUp { synced: from, to }, hash, (to - from
            + 1) as nat) =~= Seq::new(
            (to - from) as nat,
            |i: int| VerifierCommand::FetchBlock((from + 2 + i) as u64),
        ).push(VerifierCommand::ReceiveL1Update),
    decreases to - from,
{
    lemma_consistent_block_advances_one_height(from, to, 0, hash);
    let phase = VerifierPhase::CatchingUp { synced: from, to };
    let event = VerifierEvent::Block { block_number: 0, block_hash: hash, computed_hash: hash };
    let fuel = (to - from + 1) as nat;
    if from < to {
        let next = (from + 1) as u64;
        lemma_catch_up_commands_consecutive(next, to, hash);
        assert(commands_while_consistent(phase, hash, fuel) == seq![
            VerifierCommand::FetchBlock((from + 2) as u64),
        ] + commands_while_consistent(
            VerifierPhase::CatchingUp { synced: next, to },
            hash,
            (fuel - 1) as nat,
        ));
    } else {
        assert(commands_while_consistent(phase, hash, fuel) == seq![
            VerifierCommand::ReceiveL1Update,
        ]);
    }
}

/// Catching up from a block proven on L1 at `from` to the latest L2 block
/// `to` fetches every height from `from + 1` to `to + 1`, in order, each
/// once, when every block is consistent.
pub proof fn lemma_catch_up_fetches_consecutive_heights(from: u64, to: u64)
    requires
        from <= to < u64::MAX,
    ensures
        catch_up_heights(from, to) =~= Seq::new(
            (to - from + 1) as nat,
            |i: int| (from + 1 + i) as u64,
        ),
    decreases to - from,
{
    let next = (from + 1) as u64;
    assert(catch_up_heights(from, to) == seq![next] + catch_up_heights(next, to));
    if from < to {
        lemma_catch_up_fetches_consecutive_heights(next, to);
    } else {
        assert(catch_up_heights(next, to) == Seq::<u64>::empty());
    }
}

/// One more poll: `l1_forwarded` grows by the polled number exactly when
/// `on_poll` forwards it, that is when it lies above the last number
/// forwarded, and `l1_last` moves as `on_poll` moves `last_update`.  So a
/// source that polls `polls` in turn forwards `l1_forwarded` of them.
pub proof fn lemma_l1_forwarded_push(last_update: u64, polls: Seq<u64>, block_number: u64)
    ensures
        l1_forwarded(last_update, polls.push(block_number)) == l1_forwarded(last_update, polls) + (
        if l1_last(last_update, polls) < block_number {
            seq![block_number]
        } else {
            Seq::<u64>::empty()
        }),
        l1_last(last_update, polls.push(block_number)) == l1_source_next(
            l1_last(last_update, polls),
            block_number,
        ),
    decreases polls.len(),
{
    let pushed = polls.push(block_number);
    assert(pushed.len() > 0);
    if polls.len() == 0 {
        let e = Seq::<u64>::empty();
        assert(pushed.drop_first() =~= e);
        assert(pushed[0] == block_number);
        assert(l1_forwarded(block_number, e) == e);
        assert(l1_forwarded(last_update, e) == e);
        assert(l1_last(last_update, e) == last_update);
        assert(l1_last(l1_source_next(last_update, block_number), e) == l1_source_next(
            last_update,
            block_number,
        ));
        assert(l1_last(last_update, pushed) == l1_last(
            l1_source_next(last_update, block_number),
            pushed.drop_first(),
        ));
        if last_update < block_number {
            assert(l1_forwarded(last_update, pushed) == seq![block_number] + l1_forwarded(
                block_number,
                pushed.drop_first(),
            ));
            assert(seq![block_number] + e =~= seq![block_number]);
            assert(e + seq![block_number] =~= seq![block_number]);
        } else {
            assert(l1_forwarded(last_update, pushed) == l1_forwarded(
                last_update,
                pushed.drop_first(),
            ));
            assert(e + e =~= e);
        }
    } else {
        let first = polls[0];
        let rest = polls.drop_first();
        assert(pushed.drop_first() =~= rest.push(block_number));
        assert(pushed[0] == first);
        let next = l1_source_next(last_update, first);
        lemma_l1_forwarded_push(next, rest, block_number);
        assert(l1_last(last_update, polls) == l1_last(next, rest));
        assert(l1_last(last_update, pushed) == l1_last(next, pushed.drop_first()));
        let tail = if l1_last(next, rest) < block_number {
            seq![block_number]
        } else {
            Seq::<u64>::empty()
        };
        if last_update < first {
            assert(l1_forwarded(last_update, pushed) == seq![first] + l1_forwarded(
                first,
                pushed.drop_first(),
            ));
            assert(l1_forwarded(last_update, polls) == seq![first] + l1_forwarded(first, rest));
            assert(seq![first] + (l1_forwarded(first, rest) + tail) =~= (seq![first]
                + l1_forwarded(first, rest)) + tail);
        } else {
            assert(l1_forwarded(last_update, pushed) == l1_forwarded(
                last_update,
                pushed.drop_first(),
            ));
            assert(l1_forwarded(last_update, polls) == l1_forwarded(last_update, rest));
        }
    }
}

/// The block numbers that the L1 source forwards strictly increase, and all
/// lie above the number it started from: a block is never forwarded twice,
/// nor after a newer one.
pub proof fn lemma_l1_forwarded_strictly_increasing(last_update: u64, polls: Seq<u64>)
    ensures
        forall|i: int|
            0 <= i < l1_forwarded(last_update, polls).len() ==> last_update < #[trigger] l1_forwarded(
                last_update,
                polls,
            )[i],
        forall|i: int, j: int|
            0 <= i < j < l1_forwarded(last_update, polls).len() ==> #[trigger] l1_forwarded(
                last_update,
                polls,
            )[i] < #[trigger] l1_forwarded(last_update, polls)[j],
    decreases polls.len(),
{
    if polls.len() > 0 {
        let rest = polls.drop_first();
        if last_update < polls[0] {
            lemma_l1_forwarded_strictly_increasing(polls[0], rest);
            let f = l1_forwarded(last_update, polls);
            let g = l1_forwarded(polls[0], rest);
            assert(f =~= seq![polls[0]] + g);
            assert forall|i: int| 0 <= i < f.len() implies last_update < #[trigger] f[i] by {
                if i > 0 {
                    assert(f[i] == g[i - 1]);
                    assert(polls[0] < g[i - 1]);
                }
            }
            assert forall|i: int, j: int| 0 <= i < j < f.len() implies #[trigger] f[i] < #[trigger] f[j] by {
                assert(f[j] == g[j - 1]);
                assert(polls[0] < g[j - 1]);
                if i > 0 {
                    assert(f[i] == g[i - 1]);
                    assert(g[i - 1] < g[j - 1]);
                }
            }
        } else {
            lemma_l1_forwarded_strictly_increasing(last_update, rest);
            assert(l1_forwarded(last_update, polls) == l1_forwarded(last_update, rest));
        }
    }
}



/// One poll of the synchronisation, with a source started from the node's
/// own last proven block `m`: a state of L1 at block `n <= m` is not
/// forwarded, so the node is left as it is; a state at `n > m` with root `r`
/// is forwarded, the verifier reports it and then the latest L2 block, and
/// the node ends with `n` and `r` as its proven block and root and the
/// latest L2 block's number and root as its local unproven state.
pub proof fn lemma_poll_updates_node(
    node: NodeData,
    state_root: Felt,
    block_number: u64,
    latest_number: u64,
    latest_root: Felt,
)
    requires
        !(block_number == u64::MAX && latest_number == u64::MAX),
    ensures
        block_number <= node.l1_block_number ==> l1_forwarded(
            node.l1_block_number,
            seq![block_number],
        ) == Seq::<u64>::empty(),
        block_number > node.l1_block_number ==> ({
            let events = seq![
                VerifierEvent::L1Update(L1Update { block_number, state_root }),
                VerifierEvent::LatestBlock { block_number: latest_number, state_root: latest_root },
            ];
            let after = node_after_states(
                node,
                verifier_run(VerifierPhase::AwaitingL1Update, events),
            );
            &&& l1_forwarded(node.l1_block_number, seq![block_number]) == seq![block_number]
            &&& after.l1_block_number == block_number
            &&& after.l1_state_root == state_root
            &&& after.sync_block_number == latest_number
            &&& after.sync_root == latest_root
            &&& after.verified_block == node.verified_block
        }),
{
    let polls = seq![block_number];
    assert(polls.drop_first() =~= Seq::<u64>::empty());
    assert(l1_forwarded(block_number, Seq::<u64>::empty()) == Seq::<u64>::empty());
    assert(l1_forwarded(node.l1_block_number, Seq::<u64>::empty()) == Seq::<u64>::empty());
    if block_number > node.l1_block_number {
        assert(seq![block_number] + Seq::<u64>::empty() =~= seq![block_number]);
        let update = L1Update { block_number, state_root };
        let e0 = VerifierEvent::L1Update(update);
        let e1 = VerifierEvent::LatestBlock { block_number: latest_number, state_root: latest_root };
        let events = seq![e0, e1];
        let p1 = verifier_next(VerifierPhase::AwaitingL1Update, e0);
        let p2 = verifier_next(p1, e1);
        let s0 = verifier_report(e0)->Some_0;
        let s1 = verifier_report(e1)->Some_0;
        assert(events.drop_first() =~= seq![e1]);
        assert(seq![e1].drop_first() =~= Seq::<VerifierEvent>::empty());
        assert(verifier_run(p2, Seq::<VerifierEvent>::empty()) == Seq::<LocalSyncState>::empty());
        assert(verifier_run(p1, seq![e1]) == seq![s1] + verifier_run(p2, seq![e1].drop_first()));
        assert(verifier_run(p1, seq![e1]) =~= seq![s1]);
        assert(verifier_run(VerifierPhase::AwaitingL1Update, events) == seq![s0] + verifier_run(
            p1,
            events.drop_first(),
        ));
        let reports = verifier_run(VerifierPhase::AwaitingL1Update, events);
        assert(reports =~= seq![s0, s1]);
        let n1 = node_after_state(node, s0);
        let n2 = node_after_state(n1, s1);
        assert(reports.drop_first() =~= seq![s1]);
        assert(seq![s1].drop_first() =~= Seq::<LocalSyncState>::empty());
        assert(node_after_states(n2, Seq::<LocalSyncState>::empty()) == n2);
        assert(node_after_states(n1, seq![s1]) == node_after_states(n2, seq![s1].drop_first()));
        assert(node_after_states(node, reports) == node_after_states(n1, reports.drop_first()));
    }
}

} // verus!
