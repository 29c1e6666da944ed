//! The order in which one Verse is started, promoted and opened to producers.
//!
//! Each run says what comes next and is told how it ended. What a run has not been told
//! it does not take for granted: ingress waits for a start that allows it, and for the
//! spool where there is one.
use crate::config::ScriptureConfig;
use crate::lifecycle::{
    check_spool, should_retry_promote_after_reply_loss, start_action, PromoteFailure,
    RootObservation, StartAction, VerseOutcome, NO_PROBES,
};
use crate::text::{concat, concat_of, texts_view};
use vstd::prelude::*;

verus! {

/// What comes next when a node serves.
#[derive(Debug, PartialEq, Eq)]
pub enum ServeStep {
    /// Read the membership root.
    Observe,
    /// Start the Verse.
    Start(StartAction),
    /// Say what the Verse has become.
    Announce { probes_only: bool },
    /// Open the local spool.
    OpenSpool,
    /// Bind the probe listener.
    BindProbes,
    /// Stay up for the probes alone.
    Park,
    /// Bind the ingress listener.
    BindIngress,
    /// Take producers.
    Accept,
    /// Serve nothing, for this reason.
    Refuse(String),
}

/// What comes next, in mathematical terms.
pub enum ServeStepView {
    Observe,
    Start(StartAction),
    Announce { probes_only: bool },
    OpenSpool,
    BindProbes,
    Park,
    BindIngress,
    Accept,
    Refuse(Seq<char>),
}

impl View for ServeStep {
    type V = ServeStepView;

    open spec fn view(&self) -> ServeStepView {
        match *self {
            ServeStep::Observe => ServeStepView::Observe,
            ServeStep::Start(action) => ServeStepView::Start(action),
            ServeStep::Announce { probes_only } => ServeStepView::Announce { probes_only },
            ServeStep::OpenSpool => ServeStepView::OpenSpool,
            ServeStep::BindProbes => ServeStepView::BindProbes,
            ServeStep::Park => ServeStepView::Park,
            ServeStep::BindIngress => ServeStepView::BindIngress,
            ServeStep::Accept => ServeStepView::Accept,
            ServeStep::Refuse(reason) => ServeStepView::Refuse(reason@),
        }
    }
}

/// How a step ended.
#[derive(Debug, PartialEq, Eq)]
pub enum ServeEvent {
    /// The root was read.
    Root(RootObservation),
    /// The Verse was started; the disposition is the outcome in words.
    Started { outcome: VerseOutcome, disposition: String },
    /// The spool was opened.
    SpoolOpened { serving: bool },
    /// The step is done.
    Done,
    /// The step failed.
    Failed(String),
}

/// A start under way.
pub struct ServeView {
    /// What comes next.
    pub step: ServeStepView,
    /// Whether a probe listener is configured.
    pub probes: bool,
    /// Whether a spool is configured.
    pub spools: bool,
    /// Whether the open generation needs recovery.
    pub recovering: bool,
}

impl ServeView {
    /// Whether nothing more comes.
    pub open spec fn ended(self) -> bool {
        self.step is Park || self.step is Accept || self.step is Refuse
    }

    /// The same start with another step.
    pub open spec fn at(self, step: ServeStepView) -> ServeView {
        ServeView { step, ..self }
    }

    /// What follows once the spool needs nothing more.
    pub open spec fn past_spool(self) -> ServeView {
        self.at(
            if self.probes {
                ServeStepView::BindProbes
            } else {
                ServeStepView::BindIngress
            },
        )
    }

    /// What follows once the outcome is announced.
    pub open spec fn announced(self) -> ServeView {
        if self.recovering {
            self.at(
                if self.probes {
                    ServeStepView::BindProbes
                } else {
                    ServeStepView::Refuse(NO_PROBES@)
                },
            )
        } else if self.spools {
            self.at(ServeStepView::OpenSpool)
        } else {
            self.past_spool()
        }
    }

    /// What follows a start with this outcome.
    pub open spec fn started(self, outcome: VerseOutcome, disposition: Seq<char>) -> ServeView {
        match outcome {
            VerseOutcome::ConflictNeedsInspect | VerseOutcome::StartFailed => self.at(
                ServeStepView::Refuse(
                    concat_of(seq!["refusing to listen: disposition="@, disposition]),
                ),
            ),
            _ => {
                let recovering = outcome == VerseOutcome::RecoveryRequired;
                ServeView {
                    step: ServeStepView::Announce { probes_only: recovering },
                    recovering,
                    ..self
                }
            },
        }
    }

    /// What follows an event. One that is no end of the current step changes nothing.
    pub open spec fn after(self, event: ServeEvent) -> ServeView {
        if self.ended() {
            self
        } else if event is Failed {
            self.at(ServeStepView::Refuse(event->Failed_0@))
        } else {
            match (self.step, event) {
                (ServeStepView::Observe, ServeEvent::Root(observation)) => self.at(
                    match observation {
                        RootObservation::Uninitialized => ServeStepView::Start(
                            StartAction::Bootstrap,
                        ),
                        RootObservation::Present => ServeStepView::Start(
                            StartAction::StartConfigured,
                        ),
                        RootObservation::Failed(reason) => ServeStepView::Refuse(reason@),
                    },
                ),
                (
                    ServeStepView::Start(_),
                    ServeEvent::Started { outcome, disposition },
                ) => self.started(outcome, disposition@),
                (ServeStepView::Announce { .. }, ServeEvent::Done) => self.announced(),
                (ServeStepView::OpenSpool, ServeEvent::SpoolOpened { serving }) => if serving {
                    self.past_spool()
                } else {
                    self.at(
                        ServeStepView::Refuse(
                            "spool opened non-serving after clean inspect (race/corruption); refusing serve"@,
                        ),
                    )
                },
                (ServeStepView::BindProbes, ServeEvent::Done) => self.at(
                    if self.recovering {
                        ServeStepView::Park
                    } else {
                        ServeStepView::BindIngress
                    },
                ),
                (ServeStepView::BindIngress, ServeEvent::Done) => self.at(ServeStepView::Accept),
                _ => self,
            }
        }
    }
}

/// The start of a configuration, of which nothing is done yet.
pub open spec fn serve_begun(config: ScriptureConfig) -> ServeView {
    ServeView {
        step: ServeStepView::Observe,
        probes: config.metrics.status_bind is Some,
        spools: config.paths.spool_dir is Some,
        recovering: false,
    }
}

/// The start of a configuration after these events.
pub open spec fn served(config: ScriptureConfig, events: Seq<ServeEvent>) -> ServeView
    decreases events.len(),
{
    if events.len() == 0 {
        serve_begun(config)
    } else {
        served(config, events.drop_last()).after(events.last())
    }
}

/// A start under way.
#[derive(Debug, PartialEq, Eq)]
pub struct ServeRun {
    step: ServeStep,
    probes: bool,
    spools: bool,
    recovering: bool,
}

impl View for ServeRun {
    type V = ServeView;

    closed spec fn view(&self) -> ServeView {
        ServeView {
            step: self.step@,
            probes: self.probes,
            spools: self.spools,
            recovering: self.recovering,
        }
    }
}

impl ServeRun {
    /// Begins to serve a configuration.
    pub fn new(config: &ScriptureConfig) -> (run: Self)
        ensures
            run@ == serve_begun(*config),
    {
        ServeRun {
            step: ServeStep::Observe,
            probes: config.metrics.status_bind.is_some(),
            spools: config.paths.spool_dir.is_some(),
            recovering: false,
        }
    }

    /// What comes next.
    pub fn step(&self) -> (step: &ServeStep)
        ensures
            step@ == self@.step,
    {
        &self.step
    }

    /// What follows once the spool needs nothing more.
    fn past_spool(&self) -> (step: ServeStep)
        ensures
            self@.at(step@) == self@.past_spool(),
    {
        if self.probes {
            ServeStep::BindProbes
        } else {
            ServeStep::BindIngress
        }
    }

    /// What follows once the outcome is announced.
    fn announced(&self) -> (step: ServeStep)
        ensures
            self@.at(step@) == self@.announced(),
    {
        if self.recovering {
            if self.probes {
                ServeStep::BindProbes
            } else {
                ServeStep::Refuse(NO_PROBES.to_owned())
            }
        } else if self.spools {
            ServeStep::OpenSpool
        } else {
            self.past_spool()
        }
    }

    /// What follows a start with this outcome.
    fn started(&mut self, outcome: VerseOutcome, disposition: &str)
        ensures
            final(self)@ == old(self)@.started(outcome, disposition@),
    {
        match outcome {
            VerseOutcome::ConflictNeedsInspect | VerseOutcome::StartFailed => {
                let parts = ["refusing to listen: disposition=", disposition];
                assert(texts_view(parts@)
                    =~= seq!["refusing to listen: disposition="@, disposition@]);
                self.step = ServeStep::Refuse(concat(parts.as_slice()));
            },
            _ => {
                let recovering = outcome == VerseOutcome::RecoveryRequired;
                self.step = ServeStep::Announce { probes_only: recovering };
                self.recovering = recovering;
            },
        }
    }

    /// Takes note of how the current step ended.
    pub fn settle(&mut self, event: ServeEvent)
        ensures
            final(self)@ == old(self)@.after(event),
    {
        match &self.step {
            ServeStep::Park | ServeStep::Accept | ServeStep::Refuse(_) => {
                return ;
            },
            _ => {},
        }
        match event {
            ServeEvent::Failed(reason) => {
                self.step = ServeStep::Refuse(reason);
            },
            ServeEvent::Root(observation) => {
                if let ServeStep::Observe = &self.step {
                    self.step = match start_action(observation) {
                        Ok(action) => ServeStep::Start(action),
                        Err(reason) => ServeStep::Refuse(reason),
                    };
                }
            },
            ServeEvent::Started { outcome, disposition } => {
                if let ServeStep::Start(_) = &self.step {
                    self.started(outcome, disposition.as_str());
                }
            },
            ServeEvent::SpoolOpened { serving } => {
                if let ServeStep::OpenSpool = &self.step {
                    self.step = match check_spool(serving) {
                        Ok(()) => self.past_spool(),
                        Err(reason) => ServeStep::Refuse(reason),
                    };
                }
            },
            ServeEvent::Done => {
                match &self.step {
                    ServeStep::Announce { .. } => {
                        self.step = self.announced();
                    },
                    ServeStep::BindProbes => {
                        self.step = if self.recovering {
                            ServeStep::Park
                        } else {
                            ServeStep::BindIngress
                        };
                    },
                    ServeStep::BindIngress => {
                        self.step = ServeStep::Accept;
                    },
                    _ => {},
                }
            },
        }
    }
}

/// What comes next when a node takes over a Verse.
#[derive(Debug, PartialEq, Eq)]
pub enum PromoteStep {
    /// Try to take over.
    Attempt,
    /// Serve the Verse.
    Serve,
    /// Serve nothing, for this reason.
    Refuse(String),
}

/// What comes next, in mathematical terms.
pub enum PromoteStepView {
    Attempt,
    Serve,
    Refuse(Seq<char>),
}

impl View for PromoteStep {
    type V = PromoteStepView;

    open spec fn view(&self) -> PromoteStepView {
        match *self {
            PromoteStep::Attempt => PromoteStepView::Attempt,
            PromoteStep::Serve => PromoteStepView::Serve,
            PromoteStep::Refuse(reason) => PromoteStepView::Refuse(reason@),
        }
    }
}

/// How an attempt ended.
#[derive(Debug, PartialEq, Eq)]
pub enum PromoteEvent {
    Succeeded,
    Failed {
        failure: PromoteFailure,
        message: String,
        /// Whether the loss of a root reply was asked for.
        reply_loss_armed: bool,
        /// Whether a root reply was seen to be lost after its write.
        reply_loss_applied: bool,
    },
}

/// A takeover under way.
pub struct PromoteView {
    pub step: PromoteStepView,
    /// Whether the attempt was repeated.
    pub retried: bool,
}

impl PromoteView {
    /// Whether a failure allows one more attempt.
    pub open spec fn retries(self, event: PromoteEvent) -> bool {
        event matches PromoteEvent::Failed { failure, reply_loss_armed, reply_loss_applied, .. }
            && !self.retried && reply_loss_armed && reply_loss_applied && failure
            != PromoteFailure::Other
    }

    /// What follows an attempt; nothing follows the end.
    pub open spec fn after(self, event: PromoteEvent) -> PromoteView {
        if !(self.step is Attempt) {
            self
        } else if self.retries(event) {
            PromoteView { step: PromoteStepView::Attempt, retried: true }
        } else {
            match event {
                PromoteEvent::Succeeded => PromoteView { step: PromoteStepView::Serve, ..self },
                PromoteEvent::Failed { message, .. } => PromoteView {
                    step: PromoteStepView::Refuse(message@),
                    ..self
                },
            }
        }
    }
}

/// A takeover of which nothing is done yet.
pub open spec fn promote_begun() -> PromoteView {
    PromoteView { step: PromoteStepView::Attempt, retried: false }
}

/// A takeover after these attempts.
pub open spec fn promoted(events: Seq<PromoteEvent>) -> PromoteView
    decreases events.len(),
{
    if events.len() == 0 {
        promote_begun()
    } else {
        promoted(events.drop_last()).after(events.last())
    }
}

/// A takeover under way.
#[derive(Debug, PartialEq, Eq)]
pub struct PromoteRun {
    step: PromoteStep,
    retried: bool,
}

impl View for PromoteRun {
    type V = PromoteView;

    closed spec fn view(&self) -> PromoteView {
        PromoteView { step: self.step@, retried: self.retried }
    }
}

impl PromoteRun {
    /// Begins a takeover.
    pub fn new() -> (run: Self)
        ensures
            run@ == promote_begun(),
    {
        PromoteRun { step: PromoteStep::Attempt, retried: false }
    }

    /// What comes next.
    pub fn step(&self) -> (step: &PromoteStep)
        ensures
            step@ == self@.step,
    {
        &self.step
    }

    /// Takes note of how an attempt ended; says whether it is to be repeated.
    pub fn settle(&mut self, event: PromoteEvent) -> (repeats: bool)
        ensures
            final(self)@ == old(self)@.after(event),
            repeats == (old(self)@.step is Attempt && old(self)@.retries(event)),
    {
        match &self.step {
            PromoteStep::Attempt => {},
            _ => {
                return false;
            },
        }
        match event {
            PromoteEvent::Succeeded => {
                self.step = PromoteStep::Serve;
                false
            },
            PromoteEvent::Failed { failure, message, reply_loss_armed, reply_loss_applied } => {
                if !self.retried && should_retry_promote_after_reply_loss(
                    reply_loss_armed,
                    reply_loss_applied,
                    failure,
                ) {
                    self.retried = true;
                    true
                } else {
                    self.step = PromoteStep::Refuse(message);
                    false
                }
            },
        }
    }
}

// Laws.

/// Whether one of these events is a start with an outcome that may be served.
pub open spec fn started_clean(events: Seq<ServeEvent>) -> bool {
    exists|at: int|
        0 <= at < events.len() && (#[trigger] events[at] matches ServeEvent::Started {
            outcome,
            ..
        } && (outcome == VerseOutcome::Serving || outcome == VerseOutcome::Standby))
}

/// Whether one of these events is the opening of a spool that may be served from.
pub open spec fn spool_opened(events: Seq<ServeEvent>) -> bool {
    exists|at: int|
        0 <= at < events.len() && #[trigger] events[at] == (ServeEvent::SpoolOpened {
            serving: true,
        })
}

proof fn lemma_events_grow(events: Seq<ServeEvent>)
    requires
        events.len() > 0,
    ensures
        started_clean(events.drop_last()) ==> started_clean(events),
        spool_opened(events.drop_last()) ==> spool_opened(events),
        ({
            &&& events.last() matches ServeEvent::Started { outcome, .. }
            &&& outcome == VerseOutcome::Serving || outcome == VerseOutcome::Standby
        }) ==> started_clean(events),
        events.last() == (ServeEvent::SpoolOpened { serving: true }) ==> spool_opened(events),
{
    let before = events.drop_last();
    if started_clean(before) {
        let at = choose|at: int|
            0 <= at < before.len() && (#[trigger] before[at] matches ServeEvent::Started {
                outcome,
                ..
            } && (outcome == VerseOutcome::Serving || outcome == VerseOutcome::Standby));
        assert(events[at] == before[at]);
    }
    if spool_opened(before) {
        let at = choose|at: int|
            0 <= at < before.len() && #[trigger] before[at] == (ServeEvent::SpoolOpened {
                serving: true,
            });
        assert(events[at] == before[at]);
    }
    assert(events[events.len() - 1] == events.last());
}

/// What holds of every start, whatever happened so far.
proof fn lemma_serve_keeps(config: ScriptureConfig, events: Seq<ServeEvent>)
    ensures
        ({
            let run = served(config, events);
            &&& run.probes == (config.metrics.status_bind is Some)
            &&& run.spools == (config.paths.spool_dir is Some)
            &&& run.recovering ==> !(run.step is Observe || run.step is Start
                || run.step is OpenSpool || run.step is BindIngress || run.step is Accept)
            &&& run.step is Announce ==> run.step->probes_only == run.recovering
            &&& run.step is OpenSpool ==> run.spools
            &&& run.step is Park ==> run.recovering && run.probes
            &&& run.step is BindProbes ==> run.probes
            &&& (run.step is Announce || run.step is OpenSpool || run.step is BindProbes
                || run.step is BindIngress || run.step is Accept) && !run.recovering
                ==> started_clean(events)
            &&& (run.step is BindProbes || run.step is BindIngress || run.step is Accept)
                && !run.recovering && run.spools ==> spool_opened(events)
        }),
    decreases events.len(),
{
    if events.len() > 0 {
        lemma_serve_keeps(config, events.drop_last());
        lemma_events_grow(events);
    }
}

/// Producers are let in only after a start that may be served, never while the open
/// generation needs recovery.
pub proof fn law_ingress_needs_a_clean_start(config: ScriptureConfig, events: Seq<ServeEvent>)
    requires
        served(config, events).step is BindIngress || served(config, events).step is Accept,
    ensures
        started_clean(events),
        !served(config, events).recovering,
{
    lemma_serve_keeps(config, events);
}

/// Where a spool is configured, producers are let in only once it was opened and found
/// fit to serve from.
pub proof fn law_ingress_waits_for_the_spool(config: ScriptureConfig, events: Seq<ServeEvent>)
    requires
        config.paths.spool_dir is Some,
        served(config, events).step is BindIngress || served(config, events).step is Accept,
    ensures
        spool_opened(events),
{
    lemma_serve_keeps(config, events);
}

/// A node that needs recovery opens neither its spool nor its ingress, and stays up only
/// where probes can reach it.
pub proof fn law_recovery_opens_probes_only(config: ScriptureConfig, events: Seq<ServeEvent>)
    requires
        served(config, events).recovering,
    ensures
        ({
            let step = served(config, events).step;
            &&& step is Announce || step is BindProbes || step is Park || step is Refuse
            &&& step is Park || step is BindProbes ==> config.metrics.status_bind is Some
        }),
{
    lemma_serve_keeps(config, events);
}

/// Once a start has ended, nothing that happens later changes it.
pub proof fn law_ended_starts_stay_ended(
    config: ScriptureConfig,
    events: Seq<ServeEvent>,
    more: Seq<ServeEvent>,
)
    requires
        served(config, events).ended(),
    ensures
        served(config, events + more) == served(config, events),
    decreases more.len(),
{
    if more.len() == 0 {
        assert(events + more =~= events);
    } else {
        law_ended_starts_stay_ended(config, events, more.drop_last());
        assert((events + more).drop_last() =~= events + more.drop_last());
        assert((events + more).last() == more.last());
    }
}

/// A takeover is attempted at most twice, and the second time only after a reply was
/// lost that was meant to be lost.
pub proof fn law_promotion_is_retried_once(events: Seq<PromoteEvent>)
    ensures
        promoted(events).step is Attempt ==> events.len() < 2,
        promoted(events).step is Attempt && events.len() == 1 ==> (events[0] matches
            PromoteEvent::Failed { failure, reply_loss_armed, reply_loss_applied, .. }
            && reply_loss_armed && reply_loss_applied && failure != PromoteFailure::Other),
{
    lemma_promotion(events);
}

proof fn lemma_promotion(events: Seq<PromoteEvent>)
    ensures
        promoted(events).step is Attempt ==> events.len() == (if promoted(events).retried {
            1nat
        } else {
            0
        }),
        promoted(events).step is Attempt && events.len() == 1 ==> promote_begun().retries(
            events[0],
        ),
    decreases events.len(),
{
    if events.len() > 0 {
        lemma_promotion(events.drop_last());
        if events.len() == 1 {
            assert(events.drop_last().len() == 0);
            assert(promoted(events.drop_last()) == promote_begun());
        }
    }
}

/// Whether an event ends the step well that it answers.
pub open spec fn ends_well(step: ServeStepView, event: ServeEvent) -> bool {
    match step {
        ServeStepView::Observe => event matches ServeEvent::Root(root) && !(root is Failed),
        ServeStepView::Start(_) => event matches ServeEvent::Started { outcome, .. } && (outcome
            == VerseOutcome::Serving || outcome == VerseOutcome::Standby),
        ServeStepView::OpenSpool => event == (ServeEvent::SpoolOpened { serving: true }),
        _ => event is Done,
    }
}

proof fn lemma_all_well(config: ScriptureConfig, events: Seq<ServeEvent>)
    requires
        forall|i: int|
            0 <= i < events.len() ==> ends_well(
                served(config, events.take(i)).step,
                #[trigger] events[i],
            ),
    ensures
        ({
            let run = served(config, events);
            let spool: int = if config.paths.spool_dir is Some {
                1
            } else {
                0
            };
            let probes: int = if config.metrics.status_bind is Some {
                1
            } else {
                0
            };
            &&& run.probes == (config.metrics.status_bind is Some)
            &&& run.spools == (config.paths.spool_dir is Some)
            &&& !run.recovering
            &&& events.len() == 0 ==> run.step is Observe
            &&& events.len() == 1 ==> run.step is Start
            &&& events.len() == 2 ==> run.step is Announce && !run.step->probes_only
            &&& spool == 1 && events.len() == 3 ==> run.step is OpenSpool
            &&& probes == 1 && events.len() == 3 + spool ==> run.step is BindProbes
            &&& events.len() == 3 + spool + probes ==> run.step is BindIngress
            &&& events.len() > 3 + spool + probes ==> run.step is Accept
        }),
    decreases events.len(),
{
    if events.len() > 0 {
        let before = events.drop_last();
        assert forall|i: int| 0 <= i < before.len() implies ends_well(
            served(config, before.take(i)).step,
            #[trigger] before[i],
        ) by {
            assert(before.take(i) =~= events.take(i));
            assert(ends_well(served(config, events.take(i)).step, events[i]));
        }
        lemma_all_well(config, before);
        let last = events.len() - 1;
        assert(events.take(last) =~= before);
        assert(ends_well(served(config, events.take(last)).step, events[last]));
    }
}

/// A start gets through. Where the root was read, the Verse was started to serve or to stand
/// by, and every later step that was asked for ended well, the next step is to announce, then
/// to open the spool where one is configured, then to bind the probes where they are, then to
/// bind the ingress, and then to take producers. No configuration keeps a clean start from its
/// producers.
pub proof fn law_clean_starts_reach_their_producers(
    config: ScriptureConfig,
    events: Seq<ServeEvent>,
)
    requires
        forall|i: int|
            0 <= i < events.len() ==> match served(config, events.take(i)).step {
                ServeStepView::Observe => #[trigger] events[i] matches ServeEvent::Root(root)
                    && !(root is Failed),
                ServeStepView::Start(_) => events[i] matches ServeEvent::Started { outcome, .. }
                    && (outcome == VerseOutcome::Serving || outcome == VerseOutcome::Standby),
                ServeStepView::OpenSpool => events[i] == (ServeEvent::SpoolOpened {
                    serving: true,
                }),
                _ => events[i] is Done,
            },
    ensures
        ({
            let step = served(config, events).step;
            let spool: int = if config.paths.spool_dir is Some {
                1
            } else {
                0
            };
            let probes: int = if config.metrics.status_bind is Some {
                1
            } else {
                0
            };
            &&& events.len() == 0 ==> step is Observe
            &&& events.len() == 1 ==> step is Start
            &&& events.len() == 2 ==> step is Announce && !step->probes_only
            &&& spool == 1 && events.len() == 3 ==> step is OpenSpool
            &&& probes == 1 && events.len() == 3 + spool ==> step is BindProbes
            &&& events.len() == 3 + spool + probes ==> step is BindIngress
            &&& events.len() > 3 + spool + probes ==> step is Accept
        }),
{
    assert forall|i: int| 0 <= i < events.len() implies ends_well(
        served(config, events.take(i)).step,
        #[trigger] events[i],
    ) by {}
    lemma_all_well(config, events);
}

/// A start is refused only for a cause: a step failed, the root could not be read, the outcome
/// was a conflict or a failed start, the spool did not serve, or the open generation needs
/// recovery and there are no probes.
pub proof fn law_starts_are_refused_for_cause(config: ScriptureConfig, events: Seq<ServeEvent>)
    requires
        served(config, events).step is Refuse,
    ensures
        exists|i: int|
            0 <= i < events.len() && match #[trigger] events[i] {
                ServeEvent::Failed(_) => true,
                ServeEvent::Root(root) => root is Failed,
                ServeEvent::Started { outcome, .. } => outcome
                    == VerseOutcome::ConflictNeedsInspect || outcome == VerseOutcome::StartFailed
                    || outcome == VerseOutcome::RecoveryRequired && config.metrics.status_bind
                    is None,
                ServeEvent::SpoolOpened { serving } => !serving,
                ServeEvent::Done => false,
            },
    decreases events.len(),
{
    lemma_refusals(config, events);
}

/// Whether an event is a cause to refuse a start.
pub open spec fn is_cause(config: ScriptureConfig, event: ServeEvent) -> bool {
    match event {
        ServeEvent::Failed(_) => true,
        ServeEvent::Root(root) => root is Failed,
        ServeEvent::Started { outcome, .. } => outcome == VerseOutcome::ConflictNeedsInspect
            || outcome == VerseOutcome::StartFailed || outcome == VerseOutcome::RecoveryRequired
            && config.metrics.status_bind is None,
        ServeEvent::SpoolOpened { serving } => !serving,
        ServeEvent::Done => false,
    }
}

proof fn lemma_refusals(config: ScriptureConfig, events: Seq<ServeEvent>)
    ensures
        served(config, events).probes == (config.metrics.status_bind is Some),
        served(config, events).step is Refuse || (served(config, events).recovering
            && config.metrics.status_bind is None) ==> exists|i: int|
            0 <= i < events.len() && is_cause(config, #[trigger] events[i]),
    decreases events.len(),
{
    if events.len() > 0 {
        let before = events.drop_last();
        lemma_refusals(config, before);
        if exists|i: int| 0 <= i < before.len() && is_cause(config, #[trigger] before[i]) {
            let i = choose|i: int| 0 <= i < before.len() && is_cause(config, #[trigger] before[i]);
            assert(events[i] == before[i]);
        }
        assert(events[events.len() - 1] == events.last());
    }
}

/// A root that is not initialized is bootstrapped, and one that is present is started as it is
/// configured.
pub proof fn law_the_root_decides_the_start(config: ScriptureConfig, root: RootObservation)
    ensures
        root is Uninitialized ==> served(config, seq![ServeEvent::Root(root)]).step
            == ServeStepView::Start(StartAction::Bootstrap),
        root is Present ==> served(config, seq![ServeEvent::Root(root)]).step
            == ServeStepView::Start(StartAction::StartConfigured),
        root matches RootObservation::Failed(reason) ==> served(
            config,
            seq![ServeEvent::Root(root)],
        ).step == ServeStepView::Refuse(reason@),
{
    let events = seq![ServeEvent::Root(root)];
    assert(events.drop_last() =~= Seq::<ServeEvent>::empty());
    reveal_with_fuel(served, 2);
}

/// A generation that needs recovery is announced as one for the probes alone; where probes
/// are configured they are bound and nothing else comes, and where they are not the start is
/// refused.
pub proof fn law_recovery_parks_behind_probes(
    config: ScriptureConfig,
    root: RootObservation,
    disposition: String,
)
    requires
        !(root is Failed),
    ensures
        ({
            let start = seq![
                ServeEvent::Root(root),
                ServeEvent::Started { outcome: VerseOutcome::RecoveryRequired, disposition },
            ];
            let announced = start.push(ServeEvent::Done);
            &&& served(config, start).step == (ServeStepView::Announce { probes_only: true })
            &&& config.metrics.status_bind is None ==> served(config, announced).step is Refuse
            &&& config.metrics.status_bind is Some ==> served(config, announced).step
                is BindProbes && served(config, announced.push(ServeEvent::Done)).step is Park
        }),
{
    let one = seq![ServeEvent::Root(root)];
    let start = seq![
        ServeEvent::Root(root),
        ServeEvent::Started { outcome: VerseOutcome::RecoveryRequired, disposition },
    ];
    let announced = start.push(ServeEvent::Done);
    assert(one.drop_last() =~= Seq::<ServeEvent>::empty());
    assert(start.drop_last() =~= one);
    assert(announced.drop_last() =~= start);
    assert(announced.push(ServeEvent::Done).drop_last() =~= announced);
    law_the_root_decides_the_start(config, root);
    lemma_refusals(config, one);
    assert(served(config, start).step is Announce);
}

/// A failed step refuses the start with the reason that it gave, wherever the start was.
pub proof fn law_failures_are_passed_on(
    config: ScriptureConfig,
    events: Seq<ServeEvent>,
    reason: String,
)
    requires
        !(served(config, events).step is Park),
        !(served(config, events).step is Accept),
        !(served(config, events).step is Refuse),
    ensures
        served(config, events.push(ServeEvent::Failed(reason))).step == ServeStepView::Refuse(
            reason@,
        ),
{
    assert(events.push(ServeEvent::Failed(reason)).drop_last() =~= events);
}

/// A takeover that succeeds serves; one that fails is refused with its message, but for the
/// one repetition after a reply that was meant to be lost and was.
pub proof fn law_takeovers_end_as_they_went(events: Seq<PromoteEvent>, event: PromoteEvent)
    requires
        promoted(events).step is Attempt,
    ensures
        event is Succeeded ==> promoted(events.push(event)).step is Serve,
        event matches PromoteEvent::Failed {
            failure,
            message,
            reply_loss_armed,
            reply_loss_applied,
        } ==> if events.len() == 0 && reply_loss_armed && reply_loss_applied && failure
            != PromoteFailure::Other {
            promoted(events.push(event)).step is Attempt
        } else {
            promoted(events.push(event)).step == PromoteStepView::Refuse(message@)
        },
{
    assert(events.push(event).drop_last() =~= events);
    lemma_promotion(events);
}

/// A start begins by observing the root, and takes each event as its state says; a promotion
/// begins by its attempt.
pub proof fn law_starts_over_whole_calls(
    config: ScriptureConfig,
    begun: ServeRun,
    run: &mut ServeRun,
    reason: String,
    promotion: PromoteRun,
)
    requires
        call_ensures(ServeRun::new, (&config,), begun),
        call_ensures(ServeRun::settle, (run, ServeEvent::Failed(reason)), ()),
        call_ensures(PromoteRun::new, (), promotion),
    ensures
        begun@.step is Observe,
        begun@.probes <==> config.metrics.status_bind is Some,
        begun@.spools <==> config.paths.spool_dir is Some,
        !begun@.recovering,
        !(old(run)@.step is Park) && !(old(run)@.step is Accept) && !(old(run)@.step is Refuse)
            ==> final(run)@.step == ServeStepView::Refuse(reason@),
        old(run)@.step is Accept ==> final(run)@.step is Accept,
        promotion@.step is Attempt,
{
}

} // verus!
