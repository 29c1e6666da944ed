//! One connection of the load producer: what it sends, and what it makes of the replies.
//!
//! A connection keeps up to a number of records under way. Each reply settles the oldest
//! of them; the first one that is no acceptance ends the connection. All connections of a
//! run claim their records in the same counts, so that none of them can take the others
//! over the ceiling. A claim may be given back, so it keeps another connection waiting and
//! never ends it.
use crate::load::{
    encode_record, has_room, record_of, reply_kind, wrapped, LoadConfig, LoadCounts, Reply,
};
use vstd::prelude::*;

verus! {

/// What a connection does next.
#[derive(Debug, PartialEq, Eq)]
pub enum LoadStep {
    /// Write this record.
    Send(Vec<u8>),
    /// Wait for a reply.
    Await,
    /// Ask again in a moment: other connections claim the room that is left, and may give
    /// it back.
    Later,
    /// Nothing more.
    Done,
}

/// What a connection does next, in mathematical terms.
pub enum LoadStepView {
    Send(Seq<u8>),
    Await,
    Later,
    Done,
}

impl View for LoadStep {
    type V = LoadStepView;

    open spec fn view(&self) -> LoadStepView {
        match *self {
            LoadStep::Send(record) => LoadStepView::Send(record@),
            LoadStep::Await => LoadStepView::Await,
            LoadStep::Later => LoadStepView::Later,
            LoadStep::Done => LoadStepView::Done,
        }
    }
}

/// A connection under way.
#[derive(Debug, Clone, Copy, PartialEq, Eq, Structural)]
pub struct ConnectionRun {
    /// Which connection of the run it is.
    pub id: usize,
    /// How many records may be under way.
    pub inflight: usize,
    /// The number of the oldest record that is not settled.
    pub sequence: u64,
    /// How many records are under way.
    pub outstanding: usize,
    /// Whether a reply ended the connection.
    pub ended: bool,
}

/// A number, or the greatest that fits where it does not.
pub open spec fn clamped(number: int) -> u64 {
    if number > u64::MAX {
        u64::MAX
    } else {
        number as u64
    }
}

impl ConnectionRun {
    /// Whether one more record is sent.
    pub open spec fn sends(
        self,
        config: LoadConfig,
        deadline_passed: bool,
        counts: LoadCounts,
    ) -> bool {
        &&& !self.ended
        &&& self.outstanding == 0 || self.outstanding < self.inflight
        &&& !deadline_passed
        &&& counts.allows(config.record_bytes, config.max_bytes)
    }

    /// What the connection does next.
    pub open spec fn step(
        self,
        config: LoadConfig,
        deadline_passed: bool,
        counts: LoadCounts,
    ) -> LoadStepView {
        if self.sends(config, deadline_passed, counts) {
            LoadStepView::Send(
                record_of(
                    config.run_id@,
                    self.id as nat,
                    clamped(self.sequence + self.outstanding) as nat,
                    config.record_bytes as nat,
                ),
            )
        } else if !self.ended && self.outstanding > 0 {
            LoadStepView::Await
        } else if self.ended || deadline_passed || counts.is_full(
            config.record_bytes,
            config.max_bytes,
        ) {
            LoadStepView::Done
        } else {
            LoadStepView::Later
        }
    }

    /// The connection with one more record under way.
    pub open spec fn with_one_more(self) -> ConnectionRun {
        ConnectionRun { outstanding: (self.outstanding + 1) as usize, ..self }
    }

    /// The connection with nothing under way and nothing more to send.
    pub open spec fn closed(self) -> ConnectionRun {
        ConnectionRun { outstanding: 0, ended: true, ..self }
    }

    /// Begins a connection.
    pub fn new(id: usize, inflight: usize) -> (run: Self)
        ensures
            run == (ConnectionRun { id, inflight, sequence: 0, outstanding: 0, ended: false }),
    {
        ConnectionRun { id, inflight, sequence: 0, outstanding: 0, ended: false }
    }

    /// What the connection does next, given whether the run is over. A record that is to be
    /// sent is claimed in the counts of all connections and is under way from now on.
    pub fn next(&mut self, config: &LoadConfig, deadline_passed: bool, counts: &mut LoadCounts) -> (step:
        LoadStep)
        ensures
            step@ == old(self).step(*config, deadline_passed, *old(counts)),
            old(self).sends(*config, deadline_passed, *old(counts)) ==> {
                &&& *final(self) == old(self).with_one_more()
                &&& *final(counts) == old(counts).with_claim(config.record_bytes)
            },
            !old(self).sends(*config, deadline_passed, *old(counts)) ==> {
                &&& *final(self) == *old(self)
                &&& *final(counts) == *old(counts)
            },
    {
        if !self.ended && has_room(self.outstanding, self.inflight) && !deadline_passed
            && counts.claim(config.record_bytes, config.max_bytes) {
            let number: u64 = self.sequence.saturating_add(self.outstanding as u64);
            self.outstanding = self.outstanding + 1;
            return LoadStep::Send(
                encode_record(config.run_id.as_str(), self.id, number, config.record_bytes),
            );
        }
        if !self.ended && self.outstanding > 0 {
            LoadStep::Await
        } else if self.ended || deadline_passed || counts.full(
            config.record_bytes,
            config.max_bytes,
        ) {
            LoadStep::Done
        } else {
            LoadStep::Later
        }
    }

    /// The connection once the oldest record under way is settled by a reply. A reply that
    /// is no acceptance ends it; what else is under way is then given up.
    pub open spec fn after(self, reply: Reply) -> ConnectionRun {
        if reply_kind(reply) is Accepted {
            ConnectionRun {
                sequence: clamped(self.sequence + 1),
                outstanding: (self.outstanding - 1) as usize,
                ..self
            }
        } else {
            self.closed()
        }
    }

    /// The counts of all connections after that reply.
    pub open spec fn counts_after(
        self,
        counts: LoadCounts,
        record_bytes: usize,
        reply: Reply,
    ) -> LoadCounts {
        let settled: int = if reply_kind(reply) is Accepted {
            1
        } else {
            self.outstanding as int
        };
        counts.without_claim(settled * record_bytes).counted(record_bytes, reply)
    }

    /// Settles the oldest record under way; says whether it was accepted.
    pub fn settle(&mut self, counts: &mut LoadCounts, record_bytes: usize, reply: Reply) -> (accepted:
        bool)
        requires
            old(self).outstanding > 0,
        ensures
            accepted == (reply_kind(reply) is Accepted),
            *final(self) == old(self).after(reply),
            *final(counts) == old(self).counts_after(*old(counts), record_bytes, reply),
    {
        let accepted = counts.count(record_bytes, reply);
        if accepted {
            counts.release(1, record_bytes);
            self.sequence = self.sequence.saturating_add(1);
            self.outstanding = self.outstanding - 1;
        } else {
            counts.release(self.outstanding, record_bytes);
            self.outstanding = 0;
            self.ended = true;
        }
        accepted
    }

    /// The counts of all connections once this one failed.
    pub open spec fn counts_failed(self, counts: LoadCounts, record_bytes: usize) -> LoadCounts {
        let released = counts.without_claim(self.outstanding * record_bytes);
        LoadCounts {
            transport_failures: wrapped(counts.transport_failures, 1),
            ..released
        }
    }

    /// Ends a connection that could not be made, written to or read from.
    pub fn fail(&mut self, counts: &mut LoadCounts, record_bytes: usize)
        ensures
            *final(self) == old(self).closed(),
            *final(counts) == old(self).counts_failed(*old(counts), record_bytes),
    {
        counts.release(self.outstanding, record_bytes);
        counts.connection_failed();
        self.outstanding = 0;
        self.ended = true;
    }
}

// Laws.

/// What happens on a connection.
pub enum LoadEvent {
    /// It was asked what to do, before or after the deadline.
    Asked { deadline_passed: bool },
    /// A reply came.
    Replied(Reply),
    /// It could not be made, written to or read from.
    Failed,
}

/// The connections of a run and the counts that they share.
pub struct LoadState {
    pub runs: Seq<ConnectionRun>,
    pub counts: LoadCounts,
}

impl LoadState {
    /// The state with another connection and other counts.
    pub open spec fn with(self, at: int, run: ConnectionRun, counts: LoadCounts) -> LoadState {
        LoadState { runs: self.runs.update(at, run), counts }
    }
}

/// What follows an event on one connection of a run.
pub open spec fn load_step(config: LoadConfig, state: LoadState, at: int, event: LoadEvent) -> LoadState {
    let run = state.runs[at];
    let counts = state.counts;
    if at < 0 || at >= state.runs.len() {
        state
    } else {
        match event {
            LoadEvent::Asked { deadline_passed } => if run.sends(config, deadline_passed, counts) {
                state.with(at, run.with_one_more(), counts.with_claim(config.record_bytes))
            } else {
                state
            },
            LoadEvent::Replied(reply) => if run.outstanding > 0 {
                state.with(
                    at,
                    run.after(reply),
                    run.counts_after(counts, config.record_bytes, reply),
                )
            } else {
                state
            },
            LoadEvent::Failed => state.with(
                at,
                run.closed(),
                run.counts_failed(counts, config.record_bytes),
            ),
        }
    }
}

/// A run on that many connections after these events, each on one of them.
pub open spec fn load_after(
    config: LoadConfig,
    inflight: usize,
    events: Seq<(int, LoadEvent)>,
) -> LoadState
    decreases events.len(),
{
    if events.len() == 0 {
        LoadState {
            runs: Seq::new(
                config.connections as nat,
                |id: int|
                    ConnectionRun {
                        id: id as usize,
                        inflight,
                        sequence: 0,
                        outstanding: 0,
                        ended: false,
                    },
            ),
            counts: LoadCounts::none(),
        }
    } else {
        let (at, event) = events.last();
        load_step(config, load_after(config, inflight, events.drop_last()), at, event)
    }
}

/// How many records are under way on all connections.
pub open spec fn under_way(runs: Seq<ConnectionRun>) -> int
    decreases runs.len(),
{
    if runs.len() == 0 {
        0
    } else {
        under_way(runs.drop_last()) + runs.last().outstanding
    }
}

proof fn lemma_under_way_changes(runs: Seq<ConnectionRun>, at: int, run: ConnectionRun)
    requires
        0 <= at < runs.len(),
    ensures
        under_way(runs.update(at, run)) == under_way(runs) - runs[at].outstanding
            + run.outstanding,
        under_way(runs) >= runs[at].outstanding,
    decreases runs.len(),
{
    let changed = runs.update(at, run);
    lemma_under_way_is_positive(runs.drop_last());
    if at == runs.len() - 1 {
        assert(changed.drop_last() =~= runs.drop_last());
    } else {
        assert(changed.drop_last() =~= runs.drop_last().update(at, run));
        lemma_under_way_changes(runs.drop_last(), at, run);
    }
}

proof fn lemma_under_way_is_positive(runs: Seq<ConnectionRun>)
    ensures
        under_way(runs) >= 0,
    decreases runs.len(),
{
    if runs.len() > 0 {
        lemma_under_way_is_positive(runs.drop_last());
    }
}

proof fn lemma_nothing_under_way(runs: Seq<ConnectionRun>)
    requires
        forall|i: int| 0 <= i < runs.len() ==> (#[trigger] runs[i]).outstanding == 0,
    ensures
        under_way(runs) == 0,
    decreases runs.len(),
{
    if runs.len() > 0 {
        assert(runs.last().outstanding == 0);
        assert forall|i: int| 0 <= i < runs.len() - 1 implies (#[trigger] runs.drop_last()[i]).outstanding
            == 0 by {
            assert(runs.drop_last()[i] == runs[i]);
        }
        lemma_nothing_under_way(runs.drop_last());
    }
}

/// Whether exactly what is under way is claimed, the ceiling is kept, and the accepted bytes
/// are those of the accepted records.
pub open spec fn within_the_ceiling(config: LoadConfig, state: LoadState) -> bool {
    &&& state.counts.claimed_bytes == under_way(state.runs) * config.record_bytes
    &&& state.counts.accepted_bytes + state.counts.claimed_bytes <= config.max_bytes
    &&& state.counts.accepted_bytes == state.counts.accepted_records * config.record_bytes
}

proof fn lemma_part_of(whole: int, part: int, each: int)
    requires
        0 <= part <= whole,
        0 <= each,
    ensures
        0 <= part * each <= whole * each,
        (whole - part) * each == whole * each - part * each,
        (whole + 1) * each == whole * each + each,
{
    assert(0 <= part * each <= whole * each && (whole - part) * each == whole * each - part * each
        && (whole + 1) * each == whole * each + each) by (nonlinear_arith)
        requires
            0 <= part <= whole,
            0 <= each,
    ;
}

proof fn lemma_step_keeps_the_ceiling(
    config: LoadConfig,
    state: LoadState,
    at: int,
    event: LoadEvent,
)
    requires
        config.record_bytes >= 1,
        within_the_ceiling(config, state),
    ensures
        within_the_ceiling(config, load_step(config, state, at, event)),
{
    let each = config.record_bytes as int;
    if 0 <= at < state.runs.len() {
        let run = state.runs[at];
        let whole = under_way(state.runs);
        lemma_under_way_changes(state.runs, at, load_step(config, state, at, event).runs[at]);
        lemma_part_of(whole, run.outstanding as int, each);
        assert(1 * each == each) by (nonlinear_arith);
        if run.outstanding > 0 {
            lemma_part_of(whole, 1, each);
        }
        let records = state.counts.accepted_records as int;
        lemma_part_of(records, records, each);
        assert(records <= records * each) by (nonlinear_arith)
            requires
                0 <= records,
                1 <= each,
        ;
    }
}

/// A run never has more bytes accepted than its ceiling allows, on all its connections
/// together, whatever the replies are and in whatever order they come, and however many
/// records are under way at a time. The accepted bytes are those of the accepted records.
pub proof fn law_runs_keep_the_ceiling(
    config: LoadConfig,
    inflight: usize,
    events: Seq<(int, LoadEvent)>,
)
    requires
        config.record_bytes >= 1,
    ensures
        ({
            let counts = load_after(config, inflight, events).counts;
            &&& counts.accepted_bytes + counts.claimed_bytes <= config.max_bytes
            &&& counts.accepted_bytes == counts.accepted_records * config.record_bytes
        }),
        within_the_ceiling(config, load_after(config, inflight, events)),
    decreases events.len(),
{
    if events.len() > 0 {
        law_runs_keep_the_ceiling(config, inflight, events.drop_last());
        let (at, event) = events.last();
        lemma_step_keeps_the_ceiling(
            config,
            load_after(config, inflight, events.drop_last()),
            at,
            event,
        );
    } else {
        lemma_nothing_under_way(load_after(config, inflight, events).runs);
        assert(0 * config.record_bytes == 0) by (nonlinear_arith);
    }
}

/// No connection ever has more records under way than it may, or more than one where it
/// may have none.
pub proof fn law_window_is_kept(
    config: LoadConfig,
    inflight: usize,
    events: Seq<(int, LoadEvent)>,
    at: int,
)
    requires
        0 <= at < config.connections,
    ensures
        ({
            let run = load_after(config, inflight, events).runs[at];
            &&& run.outstanding <= (if inflight == 0 {
                1
            } else {
                inflight as int
            })
            &&& run.id == at
            &&& run.inflight == inflight
        }),
        load_after(config, inflight, events).runs.len() == config.connections,
    decreases events.len(),
{
    if events.len() > 0 {
        law_window_is_kept(config, inflight, events.drop_last(), at);
    }
}

/// A connection with nothing under way ends for one of three causes: it was ended before,
/// the deadline passed, or the accepted bytes leave no room for a record. Claims of other
/// connections never end it.
pub proof fn law_idle_connections_end_for_cause(
    run: ConnectionRun,
    config: LoadConfig,
    deadline_passed: bool,
    counts: LoadCounts,
)
    requires
        run.outstanding == 0,
    ensures
        run.step(config, deadline_passed, counts) is Done <==> run.ended || deadline_passed
            || counts.is_full(config.record_bytes, config.max_bytes),
{
}

/// A connection is told to ask again only while another one of its run has a record under
/// way, so that there is always a reply to come.
pub proof fn law_waiting_is_for_another_connection(
    config: LoadConfig,
    inflight: usize,
    events: Seq<(int, LoadEvent)>,
    at: int,
)
    requires
        config.record_bytes >= 1,
        0 <= at < config.connections,
        ({
            let state = load_after(config, inflight, events);
            state.runs[at].step(config, false, state.counts) is Later
        }),
    ensures
        exists|other: int|
            0 <= other < config.connections && other != at && (#[trigger] load_after(
                config,
                inflight,
                events,
            ).runs[other]).outstanding > 0,
{
    let state = load_after(config, inflight, events);
    law_runs_keep_the_ceiling(config, inflight, events);
    law_window_is_kept(config, inflight, events, at);
    assert(state.counts.claimed_bytes > 0);
    if forall|i: int| 0 <= i < state.runs.len() ==> (#[trigger] state.runs[i]).outstanding == 0 {
        lemma_nothing_under_way(state.runs);
        assert(0 * config.record_bytes == 0) by (nonlinear_arith);
    }
    let other = choose|i: int|
        0 <= i < state.runs.len() && (#[trigger] state.runs[i]).outstanding != 0;
    assert(state.runs[other].outstanding > 0);
}

/// Nothing is written after a reply that is no acceptance, nor after a failure.
pub proof fn law_ended_connections_send_nothing(
    run: ConnectionRun,
    reply: Reply,
    config: LoadConfig,
    deadline_passed: bool,
    counts: LoadCounts,
)
    ensures
        !(reply_kind(reply) is Accepted) ==> run.after(reply).step(
            config,
            deadline_passed,
            counts,
        ) is Done,
        run.closed().step(config, deadline_passed, counts) is Done,
{
}

/// A connection sends exactly where it was not ended, the deadline has not passed, there is room
/// among its own records and under the ceiling of all; where it does not and has a record under
/// way, it waits for the reply.
pub proof fn law_connections_send_where_they_may(
    run: ConnectionRun,
    config: LoadConfig,
    deadline_passed: bool,
    counts: LoadCounts,
)
    ensures
        ({
            let step = run.step(config, deadline_passed, counts);
            let room = run.outstanding == 0 || run.outstanding < run.inflight;
            let fits = counts.accepted_bytes + counts.claimed_bytes + config.record_bytes
                <= config.max_bytes;
            &&& step is Send <==> !run.ended && !deadline_passed && room && fits
            &&& step is Await <==> !run.ended && run.outstanding > 0 && !(step is Send)
            &&& step is Later ==> !run.ended && !deadline_passed && run.outstanding == 0 && !fits
        }),
{
}

/// Records are numbered one by one: what is sent next has the number after all that were
/// settled and all that are under way, and neither a send nor an acceptance skips one.
pub proof fn law_records_are_numbered_one_by_one(
    run: ConnectionRun,
    config: LoadConfig,
    counts: LoadCounts,
    reply: Reply,
)
    requires
        run.sequence + run.outstanding < u64::MAX,
        run.outstanding < usize::MAX,
    ensures
        run.step(config, false, counts) matches LoadStepView::Send(record) ==> record == record_of(
            config.run_id@,
            run.id as nat,
            (run.sequence + run.outstanding) as nat,
            config.record_bytes as nat,
        ),
        run.with_one_more().sequence + run.with_one_more().outstanding == run.sequence
            + run.outstanding + 1,
        reply_kind(reply) is Accepted && run.outstanding > 0 ==> {
            let after = run.after(reply);
            &&& after.sequence == run.sequence + 1
            &&& after.outstanding == run.outstanding - 1
            &&& after.id == run.id
            &&& after.inflight == run.inflight
            &&& after.ended == run.ended
        },
{
}

/// An acceptance turns one claim into accepted bytes; any other reply gives back the claims of
/// all that the connection had under way.
pub proof fn law_replies_settle_their_claims(
    run: ConnectionRun,
    counts: LoadCounts,
    record_bytes: usize,
    reply: Reply,
)
    requires
        run.outstanding > 0,
        run.outstanding * record_bytes <= counts.claimed_bytes,
        counts.accepted_bytes + record_bytes <= u64::MAX,
        counts.accepted_records < u64::MAX,
    ensures
        ({
            let after = run.counts_after(counts, record_bytes, reply);
            &&& reply_kind(reply) is Accepted ==> after.claimed_bytes == counts.claimed_bytes
                - record_bytes && after.accepted_bytes == counts.accepted_bytes + record_bytes
                && after.accepted_records == counts.accepted_records + 1
            &&& !(reply_kind(reply) is Accepted) ==> after.claimed_bytes == counts.claimed_bytes
                - run.outstanding * record_bytes && after.accepted_bytes == counts.accepted_bytes
                && after.accepted_records == counts.accepted_records
        }),
        run.counts_failed(counts, record_bytes).claimed_bytes == counts.claimed_bytes
            - run.outstanding * record_bytes,
        counts.transport_failures < u64::MAX ==> run.counts_failed(
            counts,
            record_bytes,
        ).transport_failures == counts.transport_failures + 1,
{
    let each = record_bytes as int;
    let many = run.outstanding as int;
    assert(each <= many * each && 1 * each == each) by (nonlinear_arith)
        requires
            1 <= many,
            0 <= each,
    ;
}

/// What a connection does is done to it and to the shared counts: a send puts one record under
/// way and claims it, and nothing else changes either; settling says whether the record was
/// accepted.
pub proof fn law_sends_claim_and_replies_settle(
    sending: &mut ConnectionRun,
    config: LoadConfig,
    late: bool,
    claims: &mut LoadCounts,
    step: LoadStep,
    settling: &mut ConnectionRun,
    counts: &mut LoadCounts,
    record_bytes: usize,
    reply: Reply,
    accepted: bool,
)
    requires
        call_ensures(ConnectionRun::next, (sending, &config, late, claims), step),
        call_ensures(ConnectionRun::settle, (settling, counts, record_bytes, reply), accepted),
        old(sending).outstanding < usize::MAX,
        old(claims).claimed_bytes + config.record_bytes <= u64::MAX,
        old(settling).outstanding > 0,
    ensures
        step is Send ==> final(sending).outstanding == old(sending).outstanding + 1
            && final(claims).claimed_bytes == old(claims).claimed_bytes + config.record_bytes,
        !(step is Send) ==> final(sending).outstanding == old(sending).outstanding
            && final(claims).claimed_bytes == old(claims).claimed_bytes,
        final(claims).accepted_bytes == old(claims).accepted_bytes,
        final(sending).sequence == old(sending).sequence,
        accepted <==> reply_kind(reply) is Accepted,
        accepted ==> final(settling).outstanding == old(settling).outstanding - 1
            && !final(settling).ended == !old(settling).ended,
        !accepted ==> final(settling).outstanding == 0 && final(settling).ended,
{
}

/// A connection that failed has nothing under way, gives back its claims and counts one failure.
pub proof fn law_failed_connections_give_back(
    run: &mut ConnectionRun,
    counts: &mut LoadCounts,
    record_bytes: usize,
)
    requires
        call_ensures(ConnectionRun::fail, (run, counts, record_bytes), ()),
        old(run).outstanding * record_bytes <= old(counts).claimed_bytes,
        old(counts).transport_failures < u64::MAX,
    ensures
        final(run).outstanding == 0 && final(run).ended,
        final(run).sequence == old(run).sequence,
        final(counts).claimed_bytes == old(counts).claimed_bytes - old(run).outstanding
            * record_bytes,
        final(counts).transport_failures == old(counts).transport_failures + 1,
        final(counts).accepted_bytes == old(counts).accepted_bytes,
{
}

} // verus!
