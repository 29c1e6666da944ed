//! Fault campaigns: what the environment asks for, and when a fault is armed.
//!
//! For temporary actors only. Nothing is armed unless the environment says so.
use crate::text::{
    chars_of, concat, concat_of, decimal, decimal_text, lower, parse_number, parsed_number,
    same_but_case, same_text, texts_view,
};
use crate::text_laws::{differ_behind, law_numbers_are_read_back, lemma_differ_in_parts};
use vstd::prelude::*;

verus! {

/// Environment name of the trace file.
pub const ENV_TRACE_PATH: &'static str = "SCRIPTURE_CAMPAIGN_TRACE_PATH";

/// Environment name of the run.
pub const ENV_RUN_ID: &'static str = "SCRIPTURE_CAMPAIGN_RUN_ID";

/// Environment name of the actor.
pub const ENV_ACTOR_ID: &'static str = "SCRIPTURE_CAMPAIGN_ACTOR_ID";

/// Environment name of the fault that hangs a durable write.
pub const ENV_DIE_AFTER_PAYLOAD: &'static str = "SCRIPTURE_FAULT_DIE_AFTER_PAYLOAD";

/// Environment name of how many committed ACKs come before that fault.
pub const ENV_DIE_AFTER_PAYLOAD_SKIP: &'static str = "SCRIPTURE_FAULT_DIE_AFTER_PAYLOAD_SKIP";

/// Environment name of the fault that loses the reply to a root write.
pub const ENV_ROOT_CAS_REPLY_LOSS: &'static str = "SCRIPTURE_FAULT_ROOT_CAS_REPLY_LOSS";

/// Whether the value of a flag switches it on.
pub open spec fn is_on(value: Seq<char>) -> bool {
    value == "1"@ || value == "true"@ || value == "TRUE"@ || value == "yes"@ || value == "YES"@
}

/// Whether a flag is switched on; one that is not set is off.
pub fn env_flag(value: Option<&str>) -> (on: bool)
    ensures
        on == (value is Some && is_on(value->0@)),
{
    match value {
        Some(value) => same_text(value, "1") || same_text(value, "true") || same_text(
            value,
            "TRUE",
        ) || same_text(value, "yes") || same_text(value, "YES"),
        None => false,
    }
}

/// The number that a value is, if it is one.
pub fn env_u64(value: Option<&str>) -> (number: Option<u64>)
    ensures
        match number {
            Some(number) => value is Some && parsed_number(value->0@, u64::MAX as nat) == Some(
                number as nat,
            ),
            None => value is None || parsed_number(value->0@, u64::MAX as nat) is None,
        },
{
    match value {
        Some(value) => {
            let chars = chars_of(value);
            parse_number(chars.as_slice(), u64::MAX)
        },
        None => None,
    }
}

/// What the environment says of a campaign.
#[derive(Debug, Clone, Copy)]
pub struct CampaignEnv<'a> {
    pub trace_path: Option<&'a str>,
    pub run_id: Option<&'a str>,
    pub actor_id: Option<&'a str>,
    pub die_after_payload: Option<&'a str>,
    pub die_after_payload_skip: Option<&'a str>,
    pub root_cas_reply_loss: Option<&'a str>,
}

/// A text, or another.
pub open spec fn or_default(text: Option<&str>, default: Seq<char>) -> Seq<char> {
    match text {
        Some(text) => text@,
        None => default,
    }
}

/// A campaign as it was asked for.
#[derive(Debug, PartialEq, Eq)]
pub struct Campaign {
    pub run_id: String,
    pub actor_id: String,
    /// Whether the loss of the reply to a root write is armed at once.
    pub root_cas_reply_loss: bool,
    pub arming: PayloadArming,
}

/// Whether the environment asks for a campaign.
pub open spec fn asks_for_campaign(env: CampaignEnv<'_>) -> bool {
    env.trace_path is Some || env.die_after_payload is Some && is_on(env.die_after_payload->0@)
        || env.root_cas_reply_loss is Some && is_on(env.root_cas_reply_loss->0@)
}

/// The campaign that the environment asks for, if it asks for one.
pub fn campaign_requested(env: &CampaignEnv<'_>) -> (campaign: Option<Campaign>)
    ensures
        match campaign {
            None => !asks_for_campaign(*env),
            Some(campaign) => {
                &&& asks_for_campaign(*env)
                &&& campaign.run_id@ == or_default(env.run_id, "campaign-run"@)
                &&& campaign.actor_id@ == or_default(env.actor_id, "scripture-actor"@)
                &&& campaign.root_cas_reply_loss == (env.root_cas_reply_loss is Some && is_on(
                    env.root_cas_reply_loss->0@,
                ))
                &&& campaign.arming.requested == (env.die_after_payload is Some && is_on(
                    env.die_after_payload->0@,
                ))
                &&& campaign.arming.after_acks == skipped(env.die_after_payload_skip)
                &&& campaign.arming.acks == 0
                &&& !campaign.arming.armed
            },
        },
{
    let requested = env_flag(env.die_after_payload);
    let root_cas_reply_loss = env_flag(env.root_cas_reply_loss);
    if env.trace_path.is_none() && !requested && !root_cas_reply_loss {
        return None;
    }
    let run_id = match env.run_id {
        Some(id) => id,
        None => "campaign-run",
    };
    let actor_id = match env.actor_id {
        Some(id) => id,
        None => "scripture-actor",
    };
    let after_acks: u64 = match env_u64(env.die_after_payload_skip) {
        Some(count) => count,
        None => 0,
    };
    Some(
        Campaign {
            run_id: run_id.to_owned(),
            actor_id: actor_id.to_owned(),
            root_cas_reply_loss,
            arming: PayloadArming { requested, after_acks, acks: 0, armed: false },
        },
    )
}

/// How many committed ACKs come before the fault: none where no number is given.
pub open spec fn skipped(value: Option<&str>) -> u64 {
    match value {
        Some(text) => match parsed_number(text@, u64::MAX as nat) {
            Some(number) => number as u64,
            None => 0,
        },
        None => 0,
    }
}

/// When the fault that hangs a durable write is armed: once serving where no ACKs are to
/// come first, else at the ACK that completes their number. Writes of the bootstrap can
/// never use it up.
#[derive(Debug, Clone, Copy, PartialEq, Eq, Structural)]
pub struct PayloadArming {
    pub requested: bool,
    /// Committed ACKs that come first.
    pub after_acks: u64,
    /// Committed ACKs that came; the count wraps around.
    pub acks: u64,
    pub armed: bool,
}

impl PayloadArming {
    /// The session serves; says whether the fault is armed now.
    pub fn serving(&mut self) -> (arms: bool)
        ensures
            arms == (old(self).requested && old(self).after_acks == 0),
            *final(self) == (PayloadArming { armed: old(self).armed || arms, ..*old(self) }),
    {
        let arms = self.requested && self.after_acks == 0;
        self.armed = self.armed || arms;
        arms
    }

    /// A record was acknowledged as committed; says whether the fault is armed now.
    pub fn committed_ack(&mut self) -> (arms: bool)
        ensures
            ({
                let counts = old(self).requested && old(self).after_acks > 0;
                let acks = if old(self).acks == u64::MAX {
                    0
                } else {
                    (old(self).acks + 1) as u64
                };
                if counts {
                    &&& arms == (acks == old(self).after_acks)
                    &&& *final(self) == (PayloadArming {
                        acks,
                        armed: old(self).armed || arms,
                        ..*old(self)
                    })
                } else {
                    &&& !arms
                    &&& *final(self) == *old(self)
                }
            }),
    {
        if !self.requested || self.after_acks == 0 {
            return false;
        }
        self.acks = self.acks.wrapping_add(1);
        let arms = self.acks == self.after_acks;
        self.armed = self.armed || arms;
        arms
    }
}

/// The generation that an ACK is attributed to: the one it names, else the active one.
pub fn attributed_loglet<'a>(named: Option<&'a str>, active: &'a str) -> (loglet: &'a str)
    ensures
        loglet@ == (if named is Some && named->0@.len() > 0 {
            named->0@
        } else {
            active@
        }),
{
    match named {
        Some(id) => if chars_of(id).len() > 0 {
            id
        } else {
            active
        },
        None => active,
    }
}

/// A step of the schedule in words: its name, and what it is about.
pub fn schedule_step(name: &str, about: &str) -> (step: String)
    ensures
        step@ == concat_of(seq![name@, ":"@, about@]),
{
    let parts = [name, ":", about];
    assert(texts_view(parts@) =~= seq![name@, ":"@, about@]);
    concat(parts.as_slice())
}

/// How often a campaign looks whether its fault has fired.
pub const DEATH_WATCH_LOOKS: u32 = 200;

/// What follows a look whether the fault has fired.
#[derive(Debug, Clone, Copy, PartialEq, Eq, Structural)]
pub enum DeathStep {
    /// It has: let the hanging write fail after a while.
    OpenGate,
    /// It has not: look again in a moment.
    LookAgain,
    /// It has not, and nothing is looked at any more.
    GiveUp,
}

/// Waits for the fault that hangs a durable write. The write then fails closed, without an
/// acknowledgement, where it would hang for ever.
#[derive(Debug, Clone, Copy, PartialEq, Eq, Structural)]
pub struct DeathWatch {
    /// How many looks are left.
    pub looks: u32,
}

impl DeathWatch {
    /// A watch that begins.
    pub fn new() -> (watch: Self)
        ensures
            watch.looks == DEATH_WATCH_LOOKS,
    {
        DeathWatch { looks: DEATH_WATCH_LOOKS }
    }

    /// Takes in how many faults have fired.
    pub fn look(&mut self, fired: u64) -> (step: DeathStep)
        ensures
            step == (if old(self).looks == 0 {
                DeathStep::GiveUp
            } else if fired > 0 {
                DeathStep::OpenGate
            } else {
                DeathStep::LookAgain
            }),
            final(self).looks == (if old(self).looks == 0 {
                0
            } else {
                old(self).looks - 1
            }),
    {
        if self.looks == 0 {
            return DeathStep::GiveUp;
        }
        self.looks = self.looks - 1;
        if fired > 0 {
            DeathStep::OpenGate
        } else {
            DeathStep::LookAgain
        }
    }
}

/// What is said when the fault is armed by an ACK.
pub fn armed_notice(acks: u64) -> (line: String)
    ensures
        line@ == concat_of(
            seq![
                "scripture: campaign-faults armed DieAfterPayload after "@,
                decimal(acks as nat),
                " committed ACK(s)"@,
            ],
        ),
{
    let count = decimal_text(acks);
    let parts = [
        "scripture: campaign-faults armed DieAfterPayload after ",
        count.as_str(),
        " committed ACK(s)",
    ];
    assert(texts_view(parts@) =~= seq![
        "scripture: campaign-faults armed DieAfterPayload after "@,
        decimal(acks as nat),
        " committed ACK(s)"@,
    ]);
    concat(parts.as_slice())
}

// Laws.

/// Arming after a number of ACKs, from none.
pub open spec fn armed_after(arming: PayloadArming, acks: nat) -> bool {
    arming.requested && (arming.after_acks == 0 || acks >= arming.after_acks)
}

/// The state after so many committed ACKs from none, while the count does not wrap.
pub open spec fn after_committed(arming: PayloadArming, acks: nat) -> PayloadArming {
    PayloadArming {
        acks: if arming.requested && arming.after_acks > 0 {
            acks as u64
        } else {
            0
        },
        armed: armed_after(arming, acks),
        ..arming
    }
}

/// Counting one ACK more keeps the fault armed exactly where enough ACKs have come.
pub proof fn law_arming_counts_acks(arming: PayloadArming, acks: nat, next: PayloadArming)
    requires
        acks < u64::MAX,
        arming.requested && arming.after_acks > 0,
        next == (PayloadArming {
            acks: (acks + 1) as u64,
            armed: after_committed(arming, acks).armed || acks + 1 == arming.after_acks,
            ..after_committed(arming, acks)
        }),
    ensures
        next == after_committed(arming, acks + 1),
{
}

/// Nothing is ever armed that the environment did not ask for.
pub proof fn law_unrequested_faults_stay_unarmed(arming: PayloadArming, acks: nat)
    requires
        !arming.requested,
    ensures
        !after_committed(arming, acks).armed,
{
}

/// A campaign is asked for by a trace, or by a fault that is switched on, and by nothing else;
/// what the environment leaves out has its default.
pub proof fn law_campaigns_are_asked_for(
    env: CampaignEnv<'_>,
    campaign: Option<Campaign>,
    count: u64,
)
    requires
        call_ensures(campaign_requested, (&env,), campaign),
    ensures
        ({
            let dies = env.die_after_payload is Some && is_on(env.die_after_payload->0@);
            let loses = env.root_cas_reply_loss is Some && is_on(env.root_cas_reply_loss->0@);
            &&& campaign is Some <==> env.trace_path is Some || dies || loses
            &&& campaign matches Some(found) ==> {
                &&& found.arming.requested == dies
                &&& found.root_cas_reply_loss == loses
                &&& !found.arming.armed && found.arming.acks == 0
                &&& env.run_id is None ==> found.run_id@ == "campaign-run"@
                &&& env.run_id matches Some(id) ==> found.run_id@ == id@
                &&& env.actor_id is None ==> found.actor_id@ == "scripture-actor"@
                &&& env.actor_id matches Some(id) ==> found.actor_id@ == id@
                &&& env.die_after_payload_skip is None ==> found.arming.after_acks == 0
                &&& env.die_after_payload_skip matches Some(text) ==> (text@ == decimal(
                    count as nat,
                ) ==> found.arming.after_acks == count)
            }
        }),
{
    law_numbers_are_read_back(count as nat, u64::MAX as nat);
}

/// A flag is on where it is `1`, or `true` or `yes` in one case throughout, and off wherever it
/// is anything else.
pub proof fn law_flags_are_on_by_few_words(value: Seq<char>)
    ensures
        is_on("1"@) && is_on("true"@) && is_on("TRUE"@) && is_on("yes"@) && is_on("YES"@),
        is_on(value) ==> value == "1"@ || same_but_case(value, "true"@) || same_but_case(
            value,
            "yes"@,
        ),
        is_on(value) && value.len() > 1 ==> (value[0] <= 'Z' <==> value[1] <= 'Z'),
{
    reveal_strlit("1");
    reveal_strlit("true");
    reveal_strlit("TRUE");
    reveal_strlit("yes");
    reveal_strlit("YES");
    if value == "TRUE"@ {
        assert forall|i: int| 0 <= i < value.len() implies lower(#[trigger] value[i]) == lower(
            "true"@[i],
        ) by {}
    }
    if value == "YES"@ {
        assert forall|i: int| 0 <= i < value.len() implies lower(#[trigger] value[i]) == lower(
            "yes"@[i],
        ) by {}
    }
}

/// The fault is armed after so many ACKs exactly where it was asked for and so many, or none at
/// all, were to come first; once armed it stays so.
pub proof fn law_faults_are_armed_after_their_acks(arming: PayloadArming, acks: nat)
    ensures
        armed_after(arming, acks) ==> arming.requested && armed_after(arming, acks + 1),
        arming.requested && arming.after_acks > 0 ==> !armed_after(
            arming,
            (arming.after_acks - 1) as nat,
        ) && armed_after(arming, arming.after_acks as nat),
        arming.requested && arming.after_acks == 0 ==> armed_after(arming, 0),
{
}

/// What is said when the fault is armed counts the ACKs.
pub proof fn law_notices_count_their_acks(
    acks: u64,
    other: u64,
    line: String,
    changed: String,
)
    requires
        call_ensures(armed_notice, (acks,), line),
        call_ensures(armed_notice, (other,), changed),
    ensures
        differ_behind(
            line@,
            changed@,
            "scripture: campaign-faults armed DieAfterPayload after "@,
            decimal(acks as nat),
            decimal(other as nat),
        ),
{
    let parts = seq![
        "scripture: campaign-faults armed DieAfterPayload after "@,
        decimal(acks as nat),
        " committed ACK(s)"@,
    ];
    lemma_differ_in_parts(parts, 1, decimal(other as nat));
    assert(parts.update(1, decimal(other as nat)) =~= seq![
        "scripture: campaign-faults armed DieAfterPayload after "@,
        decimal(other as nat),
        " committed ACK(s)"@,
    ]);
}

/// The fault is armed when serving begins exactly where it was asked for and no ACKs come first;
/// else at the ACK that completes their number, and at no other.
pub proof fn law_arming_follows_serving_and_acks(
    on_serving: &mut PayloadArming,
    on_ack: &mut PayloadArming,
    serves: bool,
    acked: bool,
)
    requires
        call_ensures(PayloadArming::serving, (on_serving,), serves),
        call_ensures(PayloadArming::committed_ack, (on_ack,), acked),
        old(on_ack).acks < u64::MAX,
    ensures
        serves <==> old(on_serving).requested && old(on_serving).after_acks == 0,
        final(on_serving).armed <==> old(on_serving).armed || serves,
        final(on_serving).acks == old(on_serving).acks,
        acked <==> old(on_ack).requested && old(on_ack).after_acks >= 1 && old(on_ack).acks + 1
            == old(on_ack).after_acks,
        final(on_ack).armed <==> old(on_ack).armed || acked,
        old(on_ack).requested && old(on_ack).after_acks >= 1 ==> final(on_ack).acks
            == old(on_ack).acks + 1,
        final(on_ack).requested == old(on_ack).requested && final(on_ack).after_acks
            == old(on_ack).after_acks,
{
}

/// A watch lets the write fail at the first look at which the fault has fired, and gives up only once
/// its looks are used up.
pub proof fn law_watches_look_until_they_give_up(
    watch: &mut DeathWatch,
    fired: u64,
    step: DeathStep,
    fresh: DeathWatch,
)
    requires
        call_ensures(DeathWatch::look, (watch, fired), step),
        call_ensures(DeathWatch::new, (), fresh),
    ensures
        fresh.looks == 200,
        step is GiveUp <==> old(watch).looks == 0,
        step is OpenGate <==> old(watch).looks >= 1 && fired >= 1,
        old(watch).looks >= 1 ==> final(watch).looks == old(watch).looks - 1,
        old(watch).looks == 0 ==> final(watch).looks == 0,
{
}

/// An ACK is attributed to the generation that it names, and to the active one where it names
/// none.
pub proof fn law_acks_are_attributed(named: Option<&str>, active: &str, loglet: &str)
    requires
        call_ensures(attributed_loglet, (named, active), loglet),
    ensures
        named matches Some(id) ==> (id@.len() > 0 ==> loglet@ == id@),
        named matches Some(id) ==> (id@.len() == 0 ==> loglet@ == active@),
        named is None ==> loglet@ == active@,
{
}

/// A step of the schedule is its name and what it is about; a flag and a number are read from
/// what is set.
pub proof fn law_settings_over_whole_calls(
    name: &str,
    about: &str,
    step: String,
    value: &str,
    on: bool,
    unset: bool,
    number: Option<u64>,
    count: u64,
)
    requires
        call_ensures(schedule_step, (name, about), step),
        call_ensures(env_flag, (Some(value),), on),
        call_ensures(env_flag, (None,), unset),
        call_ensures(env_u64, (Some(value),), number),
    ensures
        step@ == name@ + ":"@ + about@,
        on <==> is_on(value@),
        !unset,
        value@ == decimal(count as nat) ==> number == Some(count),
{
    law_numbers_are_read_back(count as nat, u64::MAX as nat);
    let parts = seq![name@, ":"@, about@];
    assert(parts.drop_last() =~= seq![name@, ":"@]);
    assert(seq![name@, ":"@].drop_last() =~= seq![name@]);
    assert(seq![name@].drop_last() =~= Seq::<Seq<char>>::empty());
    reveal_with_fuel(concat_of, 4);
    assert(concat_of(parts) =~= name@ + ":"@ + about@);
}

} // verus!
