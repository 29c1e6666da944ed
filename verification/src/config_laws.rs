//! What a configuration must be to be accepted, and what its assignments get.
use crate::config::{
    assignment_durable_root, assignment_problem, assignments_problem, assignments_view,
    chunk_policy, default_max_assignments, default_max_concurrent_tasks,
    default_max_pending_bytes, default_max_pending_records, default_region, deployment_prefix,
    durable_root, endpoint_refusal, fixed_id_problem, is_bucket_wide, is_fixed_id, parse_fixed_id,
    AssignmentConfig, AssignmentView, ConfigError, ConfigProblem, HaMode, ProducerSpoolConfig, ScribeLimits, ScriptureConfig, TokenRefusals,
    VerseRuntimeConfig,
};
use crate::text::{
    contains_text, decimal, hex, law_hex_digits, lemma_char_index, quoted, trimmed,
};
use crate::text_laws::{
    all_space, law_a_found_pattern_stands_there_first, law_trailing_characters_are_taken_off,
    law_trimming_takes_outer_whitespace,
};
use vstd::prelude::*;
use vstd::utf8::{encode_utf8, is_ascii_chars};

verus! {

/// Sixteen characters, each of them ASCII.
pub open spec fn sixteen_ascii(raw: Seq<char>) -> bool {
    raw.len() == 16 && forall|i: int| 0 <= i < raw.len() ==> '\0' <= #[trigger] raw[i] <= '\u{7f}'
}

/// Two dots next to each other.
pub open spec fn climbs(text: Seq<char>) -> bool {
    exists|i: int| 0 <= i < text.len() - 1 && #[trigger] text[i] == '.' && text[i + 1] == '.'
}

/// Nobody refused the endpoint.
pub open spec fn accepted(refused: Seq<(String, String)>, endpoint: Seq<char>) -> bool {
    forall|i: int| 0 <= i < refused.len() ==> (#[trigger] refused[i]).0@ != endpoint
}

/// An assignment that is sound by itself.
pub open spec fn sound_assignment(
    assignment: AssignmentView,
    refused: Seq<(String, String)>,
) -> bool {
    &&& !all_space(assignment.id)
    &&& forall|i: int| 0 <= i < assignment.id.len() ==> #[trigger] assignment.id[i] != '/'
    &&& !climbs(assignment.id)
    &&& !all_space(assignment.bind)
    &&& accepted(refused, assignment.advertise)
    &&& sixteen_ascii(assignment.canon)
    &&& sixteen_ascii(assignment.verse)
    &&& sixteen_ascii(assignment.cohort_id)
    &&& sixteen_ascii(assignment.writer_id)
}

/// Two assignments that can live in one process: they differ in id, in listener, in route, and
/// in Canon or Verse.
pub open spec fn apart(left: AssignmentView, right: AssignmentView) -> bool {
    &&& left.id != right.id
    &&& left.bind != right.bind
    &&& left.advertise != right.advertise
    &&& left.canon != right.canon || left.verse != right.verse
}

/// A described spool that can be mounted.
pub open spec fn sound_spool(spool: ProducerSpoolConfig) -> bool {
    &&& spool.kind@ == "local"@
    &&& spool.fsync@ == "every_record"@
    &&& spool.on_full@ == "reject"@
    &&& !all_space(spool.path@)
    &&& !all_space(spool.scribe_id@)
    &&& spool.max_bytes >= 1
    &&& spool.loss_budget_secs >= 1
}

/// Limits that leave room for something.
pub open spec fn sound_limits(limits: ScribeLimits) -> bool {
    &&& limits.max_assignments >= 1
    &&& limits.max_pending_bytes >= 1
    &&& limits.max_pending_records >= 1
    &&& limits.max_concurrent_tasks >= 1
}

/// A fixed identity is sixteen ASCII characters.
pub proof fn lemma_sixteen_ascii(raw: Seq<char>)
    ensures
        is_fixed_id(raw) == sixteen_ascii(raw),
{
    if is_ascii_chars(raw) {
        vstd::utf8::is_ascii_chars_encode_utf8(raw);
    }
    if sixteen_ascii(raw) {
        assert(is_ascii_chars(raw));
    }
}

proof fn lemma_climbs(text: Seq<char>)
    ensures
        contains_text(text, ".."@) == climbs(text),
{
    reveal_strlit("..");
    law_a_found_pattern_stands_there_first(text, ".."@);
    if climbs(text) {
        let i = choose|i: int|
            0 <= i < text.len() - 1 && #[trigger] text[i] == '.' && text[i + 1] == '.';
        assert(text.subrange(i, i + ".."@.len()) =~= ".."@);
    }
    if contains_text(text, ".."@) {
        let at = choose|at: int|
            #![trigger text.subrange(at, at + ".."@.len())]
            0 <= at && at + ".."@.len() <= text.len() && text.subrange(at, at + ".."@.len())
                == ".."@;
        assert(text[at] == text.subrange(at, at + ".."@.len())[0]);
        assert(text[at + 1] == text.subrange(at, at + ".."@.len())[1]);
    }
}

/// An endpoint is refused exactly where it stands among the refused.
pub proof fn lemma_accepted(refused: Seq<(String, String)>, endpoint: Seq<char>)
    ensures
        endpoint_refusal(refused, endpoint) is None <==> accepted(refused, endpoint),
    decreases refused.len(),
{
    if refused.len() > 0 && refused[0].0@ != endpoint {
        lemma_accepted(refused.skip(1), endpoint);
        assert forall|i: int| 0 <= i < refused.len() && accepted(
            refused.skip(1),
            endpoint,
        ) implies (#[trigger] refused[i]).0@ != endpoint by {
            if i > 0 {
                assert(refused.skip(1)[i - 1] == refused[i]);
            }
        }
        assert forall|i: int| 0 <= i < refused.len() - 1 && accepted(refused, endpoint) implies (
        #[trigger] refused.skip(1)[i]).0@ != endpoint by {
            assert(refused.skip(1)[i] == refused[i + 1]);
        }
    }
}

/// The deployment prefix stands in the configured one.
proof fn lemma_prefix_stands_there(prefix: Seq<char>) -> (start: int)
    ensures
        0 <= start,
        start + deployment_prefix(prefix).len() <= prefix.len(),
        deployment_prefix(prefix) == prefix.subrange(
            start,
            start + deployment_prefix(prefix).len(),
        ),
{
    law_trimming_takes_outer_whitespace(prefix);
    let (lead, trail) = choose|lead: Seq<char>, trail: Seq<char>| #[trigger]
        all_space(lead) && #[trigger] all_space(trail) && prefix == lead + trimmed(prefix) + trail;
    law_trailing_characters_are_taken_off(trimmed(prefix), '/');
    let kept = deployment_prefix(prefix);
    let start = lead.len() as int;
    assert forall|i: int| 0 <= i < kept.len() implies kept[i] == #[trigger] prefix.subrange(
        start,
        start + kept.len(),
    )[i] by {
        assert(kept[i] == trimmed(prefix).take(kept.len() as int)[i]);
    }
    assert(kept =~= prefix.subrange(start, start + kept.len()));
    start
}

/// A store root climbs only where its prefix does.
pub proof fn law_roots_climb_only_with_their_prefix(
    prefix: Seq<char>,
    canon: Seq<u8>,
    verse: Seq<u8>,
)
    requires
        !climbs(prefix),
    ensures
        !climbs(durable_root(prefix, canon, verse)),
{
    let start = lemma_prefix_stands_there(prefix);
    let kept = deployment_prefix(prefix);
    let root = durable_root(prefix, canon, verse);
    reveal_strlit("/cv/");
    reveal_strlit("/");
    assert forall|i: int| kept.len() <= i < root.len() implies #[trigger] root[i] != '.' by {
        let rest = i - kept.len();
        if rest < 4 {
            assert(root[i] == "/cv/"@[rest]);
        } else if rest < 4 + hex(canon).len() {
            assert(root[i] == hex(canon)[rest - 4]);
            law_hex_digits(canon, rest - 4);
        } else if rest == 4 + hex(canon).len() {
            assert(root[i] == "/"@[0]);
        } else {
            let at = rest - 5 - hex(canon).len();
            assert(root[i] == hex(verse)[at]);
            law_hex_digits(verse, at);
        }
    }
    if climbs(root) {
        let i = choose|i: int|
            0 <= i < root.len() - 1 && #[trigger] root[i] == '.' && root[i + 1] == '.';
        assert(i + 1 < kept.len());
        assert(root[i] == kept[i] && root[i + 1] == kept[i + 1]);
        assert(prefix[start + i] == kept[i]);
        assert(prefix[start + i + 1] == kept[i + 1]);
    }
}

/// Something is left of a prefix exactly where, between the surrounding whitespace, there is
/// more than slashes.
pub proof fn law_a_prefix_is_more_than_slashes(prefix: Seq<char>)
    ensures
        deployment_prefix(prefix).len() > 0 <==> exists|i: int|
            0 <= i < trimmed(prefix).len() && #[trigger] trimmed(prefix)[i] != '/',
{
    let inner = trimmed(prefix);
    law_trailing_characters_are_taken_off(inner, '/');
    let kept = deployment_prefix(prefix);
    if kept.len() > 0 {
        let last = kept.len() - 1;
        assert(inner.take(kept.len() as int)[last] == inner[last]);
        assert(inner[last] != '/');
    }
}

proof fn lemma_one(
    prefix: Seq<char>,
    assignments: Seq<AssignmentView>,
    at: int,
    refused: Seq<(String, String)>,
)
    requires
        0 <= at < assignments.len(),
        !climbs(prefix),
    ensures
        assignment_problem(prefix, assignments, at, refused) is None <==> sound_assignment(
            assignments[at],
            refused,
        ) && forall|i: int| 0 <= i < at ==> apart(#[trigger] assignments[i], assignments[at]),
{
    let one = assignments[at];
    law_trimming_takes_outer_whitespace(one.id);
    law_trimming_takes_outer_whitespace(one.bind);
    lemma_char_index(one.id, '/');
    lemma_climbs(one.id);
    lemma_accepted(refused, one.advertise);
    lemma_sixteen_ascii(one.canon);
    lemma_sixteen_ascii(one.verse);
    lemma_sixteen_ascii(one.cohort_id);
    lemma_sixteen_ascii(one.writer_id);
    let canon = encode_utf8(one.canon);
    let verse = encode_utf8(one.verse);
    law_roots_climb_only_with_their_prefix(prefix, canon, verse);
    lemma_climbs(durable_root(prefix, canon, verse));
}

proof fn lemma_all(
    prefix: Seq<char>,
    assignments: Seq<AssignmentView>,
    from: int,
    refused: Seq<(String, String)>,
)
    requires
        0 <= from <= assignments.len(),
        !climbs(prefix),
    ensures
        assignments_problem(prefix, assignments, from, refused) is None <==> forall|at: int|
            #![trigger assignments[at]]
            from <= at < assignments.len() ==> sound_assignment(assignments[at], refused)
                && forall|i: int| 0 <= i < at ==> apart(#[trigger] assignments[i], assignments[at]),
    decreases assignments.len() - from,
{
    if from < assignments.len() {
        lemma_one(prefix, assignments, from, refused);
        lemma_all(prefix, assignments, from + 1, refused);
        assert(assignments[from] == assignments[from]);
    }
}

/// Assignments are accepted exactly where each is sound by itself and any two are apart: those
/// that share only the Canon, or only the Verse, are welcome.
pub proof fn law_assignments_are_accepted_when_sound_and_apart(
    prefix: Seq<char>,
    assignments: Seq<AssignmentView>,
    refused: Seq<(String, String)>,
)
    requires
        !climbs(prefix),
    ensures
        assignments_problem(prefix, assignments, 0, refused) is None <==> {
            &&& forall|at: int|
                0 <= at < assignments.len() ==> sound_assignment(
                    #[trigger] assignments[at],
                    refused,
                )
            &&& forall|left: int, right: int|
                0 <= left < right < assignments.len() ==> apart(
                    #[trigger] assignments[left],
                    #[trigger] assignments[right],
                )
        },
{
    lemma_all(prefix, assignments, 0, refused);
}

/// One more assignment, sound by itself and apart from the others, is accepted too.
pub proof fn law_an_assignment_apart_can_join(
    prefix: Seq<char>,
    assignments: Seq<AssignmentView>,
    one: AssignmentView,
    refused: Seq<(String, String)>,
)
    requires
        !climbs(prefix),
        assignments_problem(prefix, assignments, 0, refused) is None,
    ensures
        assignments_problem(prefix, assignments.push(one), 0, refused) is None <==> (
        sound_assignment(one, refused) && forall|i: int|
            0 <= i < assignments.len() ==> apart(#[trigger] assignments[i], one)),
{
    let more = assignments.push(one);
    let last = assignments.len() as int;
    lemma_all(prefix, assignments, 0, refused);
    lemma_all(prefix, more, 0, refused);
    assert(more[last] == one);
    assert forall|i: int| 0 <= i < last implies #[trigger] more[i] == assignments[i] by {}
    if assignments_problem(prefix, more, 0, refused) is None {
        assert forall|i: int| 0 <= i < last implies apart(#[trigger] assignments[i], one) by {
            assert(apart(more[i], more[last]));
        }
    }
    if sound_assignment(one, refused) && forall|i: int|
        0 <= i < assignments.len() ==> apart(#[trigger] assignments[i], one) {
        assert forall|at: int|
            #![trigger more[at]]
            0 <= at < more.len() implies sound_assignment(more[at], refused) && forall|i: int|
            0 <= i < at ==> apart(#[trigger] more[i], more[at]) by {
            assert forall|i: int| 0 <= i < at implies apart(#[trigger] more[i], more[at]) by {
                assert(more[i] == assignments[i]);
                if at < last {
                    assert(more[at] == assignments[at]);
                    assert(apart(assignments[i], assignments[at]));
                }
            }
            if at < last {
                assert(more[at] == assignments[at]);
            }
        }
    }
}

/// A config is accepted exactly where everything in it is sound.
pub proof fn law_sound_configs_are_accepted(config: &ScriptureConfig, refusals: TokenRefusals)
    ensures
        config.problem(refusals) is None <==> {
            &&& config.version == 1
            &&& refusals.backend is None
            &&& !climbs(config.store.prefix@)
            &&& exists|i: int|
                0 <= i < trimmed(config.store.prefix@).len() && #[trigger] trimmed(
                    config.store.prefix@,
                )[i] != '/'
            &&& accepted(refusals.endpoints@, config.node.advertise@)
            &&& sixteen_ascii(config.node.owner_id@)
            &&& config.producer_spool matches Some(spool) ==> sound_spool(spool)
            &&& config.safety matches Some(safety) ==> safety.require.min_storage_failure_domains
                != Some(0u32)
            &&& match config.scribe {
                None => {
                    &&& config.listener matches Some(listener) && !all_space(listener.bind@)
                    &&& config.verse matches Some(verse) && sixteen_ascii(verse.journal_id@)
                        && sixteen_ascii(verse.verse_id@) && sixteen_ascii(verse.cohort_id@)
                        && sixteen_ascii(verse.writer_id@)
                },
                Some(scribe) => {
                    let assignments = assignments_view(scribe.assignments@);
                    &&& config.listener is None
                    &&& config.verse is None
                    &&& config.paths.spool_dir is None
                    &&& config.ha.mode == HaMode::ServingAuthority
                    &&& sound_limits(scribe.limits)
                    &&& 1 <= assignments.len() <= scribe.limits.max_assignments
                    &&& forall|at: int|
                        0 <= at < assignments.len() ==> sound_assignment(
                            #[trigger] assignments[at],
                            refusals.endpoints@,
                        )
                    &&& forall|left: int, right: int|
                        0 <= left < right < assignments.len() ==> apart(
                            #[trigger] assignments[left],
                            #[trigger] assignments[right],
                        )
                },
            }
        },
{
    let prefix = config.store.prefix@;
    lemma_climbs(prefix);
    law_a_prefix_is_more_than_slashes(prefix);
    lemma_accepted(refusals.endpoints@, config.node.advertise@);
    lemma_sixteen_ascii(config.node.owner_id@);
    if let Some(spool) = config.producer_spool {
        law_trimming_takes_outer_whitespace(spool.path@);
        law_trimming_takes_outer_whitespace(spool.scribe_id@);
    }
    if let Some(listener) = config.listener {
        law_trimming_takes_outer_whitespace(listener.bind@);
    }
    if let Some(verse) = config.verse {
        lemma_sixteen_ascii(verse.journal_id@);
        lemma_sixteen_ascii(verse.verse_id@);
        lemma_sixteen_ascii(verse.cohort_id@);
        lemma_sixteen_ascii(verse.writer_id@);
    }
    if let Some(scribe) = config.scribe {
        if !climbs(prefix) {
            law_assignments_are_accepted_when_sound_and_apart(
                prefix,
                assignments_view(scribe.assignments@),
                refusals.endpoints@,
            );
        }
    }
}

/// An assignment runs exactly where its four identities and the node's are sixteen ASCII
/// characters; it has a store root, besides, only where the prefix does not climb.
pub proof fn law_sound_identities_run(config: &ScriptureConfig, assignment: AssignmentView)
    ensures
        config.assignment_runtime_problem(assignment) is None <==> sixteen_ascii(
            assignment.canon,
        ) && sixteen_ascii(assignment.verse) && sixteen_ascii(assignment.cohort_id)
            && sixteen_ascii(assignment.writer_id) && sixteen_ascii(config.node.owner_id@),
        !climbs(config.store.prefix@) ==> (config.store_root_problem(assignment) is None
            <==> sixteen_ascii(assignment.canon) && sixteen_ascii(assignment.verse)),
{
    lemma_sixteen_ascii(assignment.canon);
    lemma_sixteen_ascii(assignment.verse);
    lemma_sixteen_ascii(assignment.cohort_id);
    lemma_sixteen_ascii(assignment.writer_id);
    lemma_sixteen_ascii(config.node.owner_id@);
    let root = config.store_root(assignment);
    lemma_climbs(root);
    if !climbs(config.store.prefix@) {
        law_roots_climb_only_with_their_prefix(
            config.store.prefix@,
            encode_utf8(assignment.canon),
            encode_utf8(assignment.verse),
        );
    }
}

/// The single verse runs exactly where its four identities and the node's are sixteen ASCII
/// characters.
pub proof fn law_sound_verses_run(config: &ScriptureConfig)
    ensures
        config.verse_runtime_problem() is None <==> (config.verse matches Some(verse)
            && sixteen_ascii(verse.journal_id@) && sixteen_ascii(verse.verse_id@)
            && sixteen_ascii(verse.cohort_id@) && sixteen_ascii(verse.writer_id@)
            && sixteen_ascii(config.node.owner_id@)),
{
    lemma_sixteen_ascii(config.node.owner_id@);
    if let Some(verse) = config.verse {
        lemma_sixteen_ascii(verse.journal_id@);
        lemma_sixteen_ascii(verse.verse_id@);
        lemma_sixteen_ascii(verse.cohort_id@);
        lemma_sixteen_ascii(verse.writer_id@);
    }
}

/// A spool is mounted exactly where it is described soundly and switched on.
pub proof fn law_mounted_spools_are_sound_and_on(config: &ScriptureConfig)
    ensures
        config.spool_mounted() <==> (config.producer_spool matches Some(spool) && sound_spool(spool)
            && spool.enabled),
{
    if let Some(spool) = config.producer_spool {
        law_trimming_takes_outer_whitespace(spool.path@);
        law_trimming_takes_outer_whitespace(spool.scribe_id@);
    }
}

/// Two chunks fit into the buffer, sixteen of the largest records into a chunk, and a chunk is
/// open no longer than it may stay uncommitted.
pub proof fn law_chunks_fit()
    ensures
        chunk_policy().max_buffered_bytes == 2 * chunk_policy().max_chunk_bytes,
        chunk_policy().max_chunk_bytes == 16 * chunk_policy().max_record_bytes,
        chunk_policy().max_record_bytes == 16 * chunk_policy().max_chunk_records,
        chunk_policy().max_chunk_records == 1024,
        chunk_policy().max_chunk_age_secs == 60 == chunk_policy().max_uncommitted_age_secs,
        chunk_policy().max_inflight_chunks == 1,
        chunk_policy().recovery_scan == 8,
{
}

/// An unsupported version, and nothing else, is answered by itself; every other refusal says
/// what is invalid.
pub proof fn law_versions_are_refused_by_number(config: &ScriptureConfig, refusals: TokenRefusals)
    ensures
        config.problem(refusals) matches Some(ConfigProblem::UnsupportedVersion { found })
            ==> found == config.version && found != 1,
        config.version != 1 ==> config.problem(refusals) is Some && config.problem(refusals)->0
            is UnsupportedVersion,
{
    assert(assignments_say_what_is_invalid(config, refusals)) by {
        if let Some(scribe) = config.scribe {
            lemma_invalid(
                config.store.prefix@,
                assignments_view(scribe.assignments@),
                0,
                refusals.endpoints@,
            );
        }
    }
}

spec fn assignments_say_what_is_invalid(config: &ScriptureConfig, refusals: TokenRefusals) -> bool {
    config.scribe matches Some(scribe) ==> (assignments_problem(
        config.store.prefix@,
        assignments_view(scribe.assignments@),
        0,
        refusals.endpoints@,
    ) matches Some(problem) ==> problem is Invalid)
}

proof fn lemma_invalid(
    prefix: Seq<char>,
    assignments: Seq<AssignmentView>,
    at: int,
    refused: Seq<(String, String)>,
)
    ensures
        assignments_problem(prefix, assignments, at, refused) matches Some(problem) ==> problem
            is Invalid,
    decreases assignments.len() - at,
{
    if 0 <= at < assignments.len() {
        lemma_invalid(prefix, assignments, at + 1, refused);
    }
}

/// A fixed identity is read exactly where it is sixteen ASCII characters, and is their bytes.
pub proof fn law_identities_are_their_bytes(
    field: &str,
    raw: &str,
    id: Result<[u8; 16], ConfigError>,
    at: int,
)
    requires
        call_ensures(parse_fixed_id, (field, raw), id),
        0 <= at < 16,
    ensures
        id is Ok <==> sixteen_ascii(raw@),
        id matches Ok(bytes) ==> bytes@.len() == 16 && bytes@[at] == raw@[at] as u8,
{
    lemma_sixteen_ascii(raw@);
    if sixteen_ascii(raw@) {
        vstd::utf8::is_ascii_chars_encode_utf8(raw@);
    }
}

/// A refused identity is named with how many bytes it has.
pub proof fn law_refused_identities_are_named(field: Seq<char>, raw: Seq<char>)
    requires
        !sixteen_ascii(raw),
    ensures
        fixed_id_problem(field, raw) == Some(
            ConfigProblem::Invalid(
                field + " must be exactly 16 ASCII bytes (got "@ + decimal(encode_utf8(raw).len())
                    + ")"@,
            ),
        ),
{
    lemma_sixteen_ascii(raw);
}

/// What runs a Verse has its own identities, each in its place, and the limits of every Verse.
pub proof fn law_runtimes_have_their_identities(
    config: ScriptureConfig,
    assignment: AssignmentConfig,
    single: Result<VerseRuntimeConfig, ConfigError>,
    one: Result<VerseRuntimeConfig, ConfigError>,
)
    requires
        call_ensures(ScriptureConfig::verse_runtime_config, (&config,), single),
        call_ensures(ScriptureConfig::assignment_runtime_config, (&config, &assignment), one),
    ensures
        single matches Ok(runtime) ==> config.verse is Some && {
            let verse = config.verse->0;
            &&& runtime.journal_id@ == encode_utf8(verse.journal_id@)
            &&& runtime.verse_id@ == encode_utf8(verse.verse_id@)
            &&& runtime.cohort_id@ == encode_utf8(verse.cohort_id@)
            &&& runtime.writer_id@ == encode_utf8(verse.writer_id@)
            &&& runtime.owner_id@ == encode_utf8(config.node.owner_id@)
            &&& runtime.recovery_bound == 8 && runtime.queue_capacity == 256
        },
        one matches Ok(runtime) ==> {
            &&& runtime.journal_id@ == encode_utf8(assignment.canon@)
            &&& runtime.verse_id@ == encode_utf8(assignment.verse@)
            &&& runtime.cohort_id@ == encode_utf8(assignment.cohort_id@)
            &&& runtime.writer_id@ == encode_utf8(assignment.writer_id@)
            &&& runtime.owner_id@ == encode_utf8(config.node.owner_id@)
            &&& runtime.recovery_bound == 8 && runtime.queue_capacity == 256
        },
        one is Ok <==> sixteen_ascii(assignment.canon@) && sixteen_ascii(assignment.verse@)
            && sixteen_ascii(assignment.cohort_id@) && sixteen_ascii(assignment.writer_id@)
            && sixteen_ascii(config.node.owner_id@),
{
    law_sound_identities_run(&config, assignment@);
    law_sound_verses_run(&config);
}

/// A node's route, store profile and listener are the configured ones, or refused for the reason
/// that was given.
pub proof fn law_nodes_use_what_is_configured(
    config: ScriptureConfig,
    refusals: TokenRefusals,
    route: Result<&str, ConfigError>,
    backend: Result<&str, ConfigError>,
    bind: Result<&str, ConfigError>,
)
    requires
        call_ensures(ScriptureConfig::advertise, (&config, &refusals), route),
        call_ensures(ScriptureConfig::backend, (&config, &refusals), backend),
        call_ensures(ScriptureConfig::listener_bind, (&config,), bind),
    ensures
        route is Ok <==> accepted(refusals.endpoints@, config.node.advertise@),
        route matches Ok(found) ==> found@ == config.node.advertise@,
        backend is Ok <==> refusals.backend is None,
        backend matches Ok(found) ==> found@ == config.store.backend@,
        bind is Ok <==> config.listener is Some,
        bind matches Ok(found) ==> found@ == config.listener->0.bind@,
{
    lemma_accepted(refusals.endpoints@, config.node.advertise@);
}

/// A config is valid exactly where nothing is wrong with it, and a described spool is handed out
/// only where it is sound.
pub proof fn law_validation_finds_what_is_wrong(
    config: ScriptureConfig,
    refusals: TokenRefusals,
    checked: Result<(), ConfigError>,
    spool: Result<Option<&ProducerSpoolConfig>, ConfigError>,
    mounted: bool,
    several: bool,
)
    requires
        call_ensures(ScriptureConfig::validate, (&config, &refusals), checked),
        call_ensures(ScriptureConfig::validated_producer_spool, (&config,), spool),
        call_ensures(ScriptureConfig::durable_producer_spool_configured, (&config,), mounted),
        call_ensures(ScriptureConfig::is_multi_assignment, (&config,), several),
    ensures
        checked is Ok ==> config.version == 1 && !climbs(config.store.prefix@) && sixteen_ascii(
            config.node.owner_id@,
        ),
        config.version != 1 ==> checked is Err,
        spool matches Ok(Some(found)) ==> config.producer_spool == Some(*found) && sound_spool(
            *found,
        ),
        mounted <==> (config.producer_spool matches Some(spool) && sound_spool(spool)
            && spool.enabled),
        several <==> config.scribe is Some && config.scribe->0.assignments@.len() >= 1,
{
    law_sound_configs_are_accepted(&config, refusals);
    law_mounted_spools_are_sound_and_on(&config);
    if let Some(spool) = config.producer_spool {
        law_trimming_takes_outer_whitespace(spool.path@);
        law_trimming_takes_outer_whitespace(spool.scribe_id@);
    }
}

/// A prefix is bucket-wide where nothing but slashes and surrounding whitespace is left of it;
/// the root of a single-assignment node is its prefix without the slashes at its end.
pub proof fn law_prefixes_name_a_part_of_the_bucket(
    config: ScriptureConfig,
    prefix: &str,
    wide: bool,
    root: String,
)
    requires
        call_ensures(is_bucket_wide, (prefix,), wide),
        call_ensures(ScriptureConfig::single_store_root, (&config,), root),
    ensures
        wide <==> forall|i: int|
            0 <= i < trimmed(prefix@).len() ==> #[trigger] trimmed(prefix@)[i] == '/',
        root@.len() <= config.store.prefix@.len(),
        config.store.prefix@.take(root@.len() as int) == root@,
        root@.len() > 0 ==> root@.last() != '/',
        forall|i: int|
            root@.len() <= i < config.store.prefix@.len() ==> #[trigger] config.store.prefix@[i]
                == '/',
{
    law_a_prefix_is_more_than_slashes(prefix@);
    law_trailing_characters_are_taken_off(config.store.prefix@, '/');
}

/// A store root is the deployment prefix, then the Canon and the Verse in hexadecimal.
pub proof fn law_roots_are_prefix_canon_verse(
    prefix: &str,
    canon: [u8; 16],
    verse: [u8; 16],
    root: String,
)
    requires
        call_ensures(assignment_durable_root, (prefix, &canon, &verse), root),
    ensures
        ({
            let kept = deployment_prefix(prefix@);
            let start = kept.len() as int;
            &&& root@.len() == start + 69
            &&& root@.take(start) == kept
            &&& root@.subrange(start, start + 4) == seq!['/', 'c', 'v', '/']
            &&& root@.subrange(start + 4, start + 36) == hex(canon@)
            &&& root@[start + 36] == '/'
            &&& root@.subrange(start + 37, start + 69) == hex(verse@)
        }),
{
    reveal_strlit("/cv/");
    reveal_strlit("/");
    let kept = deployment_prefix(prefix@);
    let start = kept.len() as int;
    assert("/cv/"@ =~= seq!['/', 'c', 'v', '/']);
    assert(root@.take(start) =~= kept);
    assert(root@.subrange(start, start + 4) =~= "/cv/"@);
    assert(root@.subrange(start + 4, start + 36) =~= hex(canon@));
    assert(root@[start + 36] == "/"@[0]);
    assert(root@.subrange(start + 37, start + 69) =~= hex(verse@));
}

/// Of an assignment the first fault is said: its id, its listener, its route, its identities, and
/// whether an earlier one has the same.
pub proof fn law_the_first_fault_of_an_assignment_is_said(
    prefix: Seq<char>,
    assignments: Seq<AssignmentView>,
    at: int,
    refused: Seq<(String, String)>,
)
    requires
        0 <= at < assignments.len(),
        !climbs(prefix),
    ensures
        ({
            let one = assignments[at];
            let said = assignment_problem(prefix, assignments, at, refused);
            let named = !all_space(one.id) && !one.id.contains('/') && !climbs(one.id);
            let fresh_id = forall|i: int|
                0 <= i < at ==> (#[trigger] assignments[i]).id != one.id;
            let bound = !all_space(one.bind);
            let fresh_bind = forall|i: int|
                0 <= i < at ==> (#[trigger] assignments[i]).bind != one.bind;
            let routed = accepted(refused, one.advertise);
            let fresh_route = forall|i: int|
                0 <= i < at ==> (#[trigger] assignments[i]).advertise != one.advertise;
            let ids = sixteen_ascii(one.canon) && sixteen_ascii(one.verse) && sixteen_ascii(
                one.cohort_id,
            ) && sixteen_ascii(one.writer_id);
            &&& !named ==> said == Some(
                ConfigProblem::Invalid(
                    "assignment id "@ + quoted(one.id)
                        + " must be a non-empty path segment without '/' or '..'"@,
                ),
            )
            &&& named && !fresh_id ==> said == Some(
                ConfigProblem::Invalid("duplicate assignment id "@ + quoted(one.id)),
            )
            &&& named && fresh_id && !bound ==> said == Some(
                ConfigProblem::Invalid(
                    "assignment "@ + quoted(one.id) + " ingress.bind is required"@,
                ),
            )
            &&& named && fresh_id && bound && !fresh_bind ==> said == Some(
                ConfigProblem::Invalid(
                    "duplicate ingress.bind "@ + quoted(one.bind)
                        + " (one listener per assignment)"@,
                ),
            )
            &&& named && fresh_id && bound && fresh_bind && routed && !fresh_route ==> said
                == Some(
                ConfigProblem::Invalid(
                    "duplicate assignment advertise "@ + quoted(one.advertise)
                        + " (one writer route per assignment)"@,
                ),
            )
            &&& named && fresh_id && bound && fresh_bind && routed && fresh_route && !sixteen_ascii(
                one.canon,
            ) ==> said == fixed_id_problem("assignment["@ + one.id + "]."@ + "canon"@, one.canon)
            &&& named && fresh_id && bound && fresh_bind && routed && fresh_route && ids && said
                is Some ==> said == Some(
                ConfigProblem::Invalid(
                    "duplicate canon/verse for assignment "@ + quoted(one.id)
                        + " (durable roots are Canon/Verse-derived; renaming id alone does not change the root)"@,
                ),
            )
        }),
{
    let one = assignments[at];
    law_trimming_takes_outer_whitespace(one.id);
    law_trimming_takes_outer_whitespace(one.bind);
    lemma_char_index(one.id, '/');
    if one.id.contains('/') {
        let i = choose|i: int| 0 <= i < one.id.len() && one.id[i] == '/';
        assert(one.id[i] == '/');
    }
    lemma_climbs(one.id);
    lemma_accepted(refused, one.advertise);
    lemma_sixteen_ascii(one.canon);
    lemma_sixteen_ascii(one.verse);
    lemma_sixteen_ascii(one.cohort_id);
    lemma_sixteen_ascii(one.writer_id);
    let canon = encode_utf8(one.canon);
    let verse = encode_utf8(one.verse);
    law_roots_climb_only_with_their_prefix(prefix, canon, verse);
    lemma_climbs(durable_root(prefix, canon, verse));
}

/// A refused route gives the reason that was given for it.
pub proof fn law_refused_routes_give_the_reason(
    refused: Seq<(String, String)>,
    endpoint: Seq<char>,
    at: int,
)
    requires
        0 <= at < refused.len(),
        refused[at].0@ == endpoint,
        forall|i: int| 0 <= i < at ==> (#[trigger] refused[i]).0@ != endpoint,
    ensures
        endpoint_refusal(refused, endpoint) == Some(refused[at].1@),
    decreases refused.len(),
{
    if at > 0 {
        let rest = refused.skip(1);
        assert(refused[0].0@ != endpoint);
        assert forall|i: int| 0 <= i < at - 1 implies (#[trigger] rest[i]).0@ != endpoint by {
            assert(rest[i] == refused[i + 1]);
        }
        law_refused_routes_give_the_reason(rest, endpoint, at - 1);
    }
}

/// Of a config the first fault is said: the version, the store profile, the prefix, the node's
/// own route and identity, then the spool.
pub proof fn law_the_first_fault_of_a_config_is_said(
    config: &ScriptureConfig,
    refusals: TokenRefusals,
)
    ensures
        ({
            let said = config.problem(refusals);
            let prefixed = !climbs(config.store.prefix@) && deployment_prefix(
                config.store.prefix@,
            ).len() > 0;
            let routed = accepted(refusals.endpoints@, config.node.advertise@);
            let sound = config.version == 1 && refusals.backend is None && prefixed && routed
                && sixteen_ascii(config.node.owner_id@);
            &&& config.version == 1 && refusals.backend is Some ==> said == Some(
                ConfigProblem::Invalid(refusals.backend->0@),
            )
            &&& config.version == 1 && refusals.backend is None && !prefixed ==> said == Some(
                ConfigProblem::Invalid("store.prefix must be a non-empty path without '..'"@),
            )
            &&& config.version == 1 && refusals.backend is None && prefixed && !routed ==> said
                == Some(
                ConfigProblem::Invalid(
                    "node.advertise: "@ + endpoint_refusal(
                        refusals.endpoints@,
                        config.node.advertise@,
                    )->0,
                ),
            )
            &&& config.version == 1 && refusals.backend is None && prefixed && routed
                && !sixteen_ascii(config.node.owner_id@) ==> said == fixed_id_problem(
                "node.owner_id"@,
                config.node.owner_id@,
            )
            &&& sound && config.producer_spool is Some && config.producer_spool->0.kind@
                != "local"@ ==> said == Some(
                ConfigProblem::Invalid("producer_spool.kind must be local"@),
            )
            &&& sound && config.producer_spool is None && config.safety is Some
                && config.safety->0.require.min_storage_failure_domains == Some(0u32) ==> said
                == Some(
                ConfigProblem::Invalid(
                    "safety.require.min_storage_failure_domains must be an integer >= 1"@,
                ),
            )
            &&& sound && config.producer_spool is None && config.safety is None && config.scribe
                is Some && config.scribe->0.assignments@.len() == 0 ==> said == Some(
                ConfigProblem::Invalid("scribe.assignments must be non-empty when scribe is set"@),
            )
            &&& sound && config.producer_spool is None && config.safety is None && config.scribe
                is None && config.listener is None ==> said == Some(
                ConfigProblem::Invalid("listener is required for single-assignment config"@),
            )
            &&& sound && config.producer_spool is None && config.safety is None && config.scribe
                is None && config.listener is Some && config.verse is None ==> said == Some(
                ConfigProblem::Invalid("verse is required for single-assignment config"@),
            )
        }),
{
    lemma_climbs(config.store.prefix@);
    lemma_accepted(refusals.endpoints@, config.node.advertise@);
    lemma_sixteen_ascii(config.node.owner_id@);
}

/// A spool with one thing wrong is told which.
pub proof fn law_spools_are_told_what_is_wrong(
    config: &ScriptureConfig,
    good: ProducerSpoolConfig,
    other: ProducerSpoolConfig,
)
    requires
        sound_spool(good),
    ensures
        ({
            let spool = config.producer_spool;
            let said = config.spool_problem();
            &&& spool == Some(ProducerSpoolConfig { path: other.path, ..good }) && all_space(
                other.path@,
            ) ==> said == Some(ConfigProblem::Invalid("producer_spool.path is required"@))
            &&& spool == Some(ProducerSpoolConfig { max_bytes: 0, ..good }) ==> said == Some(
                ConfigProblem::Invalid("producer_spool.max_bytes must be >= 1"@),
            )
            &&& spool == Some(ProducerSpoolConfig { fsync: other.fsync, ..good })
                && other.fsync@ != "every_record"@ ==> said == Some(
                ConfigProblem::Invalid("producer_spool.fsync must be every_record"@),
            )
            &&& spool == Some(ProducerSpoolConfig { on_full: other.on_full, ..good })
                && other.on_full@ != "reject"@ ==> said == Some(
                ConfigProblem::Invalid("producer_spool.on_full must be reject"@),
            )
            &&& spool == Some(ProducerSpoolConfig { loss_budget_secs: 0, ..good }) ==> said == Some(
                ConfigProblem::Invalid("producer_spool.loss_budget must be >= 1s"@),
            )
            &&& spool == Some(ProducerSpoolConfig { scribe_id: other.scribe_id, ..good })
                && all_space(other.scribe_id@) ==> said == Some(
                ConfigProblem::Invalid("producer_spool.scribe_id is required"@),
            )
            &&& spool == Some(good) || spool is None ==> said is None
        }),
{
    law_trimming_takes_outer_whitespace(good.path@);
    law_trimming_takes_outer_whitespace(good.scribe_id@);
    law_trimming_takes_outer_whitespace(other.path@);
    law_trimming_takes_outer_whitespace(other.scribe_id@);
}

/// A config of several assignments with one thing wrong around them is told which.
pub proof fn law_fleets_are_told_what_is_wrong(
    config: &ScriptureConfig,
    refused: Seq<(String, String)>,
)
    requires
        config.scribe is Some,
    ensures
        ({
            let scribe = config.scribe->0;
            let count = scribe.assignments@.len();
            let alone = config.listener is None && config.verse is None;
            let spooled = config.paths.spool_dir is Some;
            let fits = count <= scribe.limits.max_assignments;
            let limited = sound_limits(scribe.limits);
            let authority = config.ha.mode == HaMode::ServingAuthority;
            let said = config.multi_problem(refused);
            &&& !alone && !spooled && fits && limited && authority ==> said == Some(
                ConfigProblem::Invalid(
                    "multi-assignment config must omit top-level listener and verse (use scribe.assignments[].ingress / canon+verse)"@,
                ),
            )
            &&& alone && spooled && fits && limited && authority ==> said == Some(
                ConfigProblem::Invalid(
                    "paths.spool_dir is not supported with scribe.assignments (per-assignment spool is out of scope)"@,
                ),
            )
            &&& alone && !spooled && !fits && limited && authority ==> said == Some(
                ConfigProblem::Invalid(
                    "scribe.assignments length "@ + decimal(count)
                        + " exceeds limits.max_assignments "@ + decimal(
                        scribe.limits.max_assignments as nat,
                    ),
                ),
            )
            &&& alone && !spooled && fits && !limited && authority ==> said == Some(
                ConfigProblem::Invalid("scribe.limits values must be >= 1"@),
            )
            &&& alone && !spooled && fits && limited && !authority ==> said == Some(
                ConfigProblem::Invalid("scribe.assignments requires ha.mode: serving-authority"@),
            )
        }),
{
}

/// Where nothing is configured, a Scribe has room for sixteen assignments, four mebibytes, a
/// thousand and twenty-four records and two hundred and fifty-six tasks, and a store the region
/// that finds itself.
pub proof fn law_defaults_are_as_documented(
    assignments: usize,
    bytes: usize,
    records: usize,
    tasks: usize,
    region: String,
)
    requires
        call_ensures(default_max_assignments, (), assignments),
        call_ensures(default_max_pending_bytes, (), bytes),
        call_ensures(default_max_pending_records, (), records),
        call_ensures(default_max_concurrent_tasks, (), tasks),
        call_ensures(default_region, (), region),
    ensures
        assignments == 16,
        bytes == 4 * 1024 * 1024,
        records == 1024,
        tasks == 256,
        region@ == "auto"@,
{
}

/// An assignment's route and root are its own, over whole calls.
pub proof fn law_assignments_use_their_own(
    config: ScriptureConfig,
    assignment: AssignmentConfig,
    refusals: TokenRefusals,
    route: Result<&str, ConfigError>,
    root: Result<String, ConfigError>,
)
    requires
        call_ensures(
            ScriptureConfig::assignment_advertise,
            (&config, &assignment, &refusals),
            route,
        ),
        call_ensures(ScriptureConfig::assignment_store_root, (&config, &assignment), root),
        !climbs(config.store.prefix@),
    ensures
        route is Ok <==> accepted(refusals.endpoints@, assignment.advertise@),
        route matches Ok(found) ==> found@ == assignment.advertise@,
        root is Ok <==> sixteen_ascii(assignment.canon@) && sixteen_ascii(assignment.verse@),
        root matches Ok(found) ==> found@ == durable_root(
            config.store.prefix@,
            encode_utf8(assignment.canon@),
            encode_utf8(assignment.verse@),
        ),
{
    lemma_accepted(refusals.endpoints@, assignment.advertise@);
    law_sound_identities_run(&config, assignment@);
}

} // verus!
