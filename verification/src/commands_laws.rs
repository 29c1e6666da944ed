//! What the flags of each command do to its request.
use crate::args::{
    arguments_view, law_a_flag_fills_its_place, law_arguments_are_read_one_after_the_other,
    law_values_are_taken_as_written, lemma_scan_keeps_places, no_values, scan_of, taken, Rule,
    ScanView, ValueView,
};
use crate::commands::{
    bootstrap_flags, config_only_flags, consume_flags, consume_lab_flags, directory_flags,
    dispatch, doctor_flags, is_config_only, parse_bootstrap_args, parse_config_only_args,
    parse_consume_args, parse_consume_lab_args, parse_directory_args, parse_doctor_args,
    parse_produce_lab_args, parse_promote_args, parse_replace_args, parse_scribe_run_args,
    produce_lab_flags, promote_flags, replace_flags, scribe_run_flags, BootstrapRequest,
    ConsumeLabRequest, ConsumeRequest, DirectoryRequest, DoctorRequest, Parsed, ProduceLabRequest,
    PromoteCommand, ReplaceRequest, Request, ScribeRunRequest,
};
use crate::consume::OutputFormat;
use crate::doctor::DoctorFormat;
use crate::text::{decimal, optional, quoted};
use vstd::prelude::*;

verus! {

/// A flag and its value behind other arguments fill the place of its rule.
pub proof fn lemma_pair(
    arguments: Seq<Seq<char>>,
    flag: Seq<char>,
    text: Seq<char>,
    value: ValueView,
    rules: Seq<Rule<'_>>,
    at: int,
    unknown: Seq<char>,
    values: Seq<Option<ValueView>>,
)
    requires
        scan_of(arguments, rules, unknown) == ScanView::Given(values),
        0 <= at < rules.len(),
        rules[at].flag@ == flag,
        forall|i: int| 0 <= i < at ==> (#[trigger] rules[i]).flag@ != flag,
        rules[at].kind !is Help,
        rules[at].kind !is Refused,
        rules[at].kind !is Switch,
        taken(rules[at].kind, text) == Ok::<_, Seq<char>>(value),
    ensures
        scan_of(arguments + seq![flag, text], rules, unknown) == ScanView::Given(
            values.update(at, Some(value)),
        ),
{
    law_arguments_are_read_one_after_the_other(
        arguments,
        seq![flag, text],
        rules,
        unknown,
        true,
        no_values(rules.len()),
    );
    law_a_flag_fills_its_place(flag, text, rules, at, unknown, true, values);
}

/// A switch behind other arguments fills the place of its rule.
proof fn lemma_switch(
    arguments: Seq<Seq<char>>,
    flag: Seq<char>,
    rules: Seq<Rule<'_>>,
    at: int,
    unknown: Seq<char>,
    values: Seq<Option<ValueView>>,
)
    requires
        scan_of(arguments, rules, unknown) == ScanView::Given(values),
        0 <= at < rules.len(),
        rules[at].flag@ == flag,
        forall|i: int| 0 <= i < at ==> (#[trigger] rules[i]).flag@ != flag,
        rules[at].kind is Switch,
    ensures
        scan_of(arguments + seq![flag], rules, unknown) == ScanView::Given(
            values.update(at, Some(ValueView::On)),
        ),
{
    law_arguments_are_read_one_after_the_other(
        arguments,
        seq![flag],
        rules,
        unknown,
        true,
        no_values(rules.len()),
    );
    law_a_flag_fills_its_place(flag, flag, rules, at, unknown, true, values);
}

/// A flag behind the arguments of `bootstrap` sets its own field and leaves the others.
#[verifier::spinoff_prover]
#[verifier::rlimit(60)]
pub proof fn law_bootstrap_flags_set_their_fields(
    given: &[String],
    more: &[String],
    request: BootstrapRequest,
    parsed: Parsed<BootstrapRequest>,
    text: Seq<char>,
    number: u64,
)
    requires
        call_ensures(parse_bootstrap_args, (given,), Parsed::Run(request)),
        call_ensures(parse_bootstrap_args, (more,), parsed),
    ensures
        arguments_view(more@) == arguments_view(given@) + seq!["--config"@, text] ==> (parsed
            matches Parsed::Run(now) && now.config@ == text
                && optional(now.loglet_id) == optional(request.loglet_id)
                && now.initial_term == request.initial_term),
        arguments_view(more@) == arguments_view(given@) + seq!["--loglet-id"@, text] ==> (parsed
            matches Parsed::Run(now) && optional(now.loglet_id) == Some(text)
                && now.config@ == request.config@ && now.initial_term == request.initial_term),
        arguments_view(more@) == arguments_view(given@) + seq!["--initial-term"@, decimal(number as nat)]
            && number > 0 ==> (parsed
            matches Parsed::Run(now) && now.initial_term == number
                && now.config@ == request.config@
                && optional(now.loglet_id) == optional(request.loglet_id)),
{
    reveal_strlit("--config");
    reveal_strlit("--loglet-id");
    reveal_strlit("--initial-term");
    assert("--config"@.len() == 8 && "--loglet-id"@.len() == 11 && "--initial-term"@.len() == 14);
    let rules = bootstrap_flags();
    let unknown = "unknown argument: "@;
    let arguments = arguments_view(given@);
    lemma_scan_keeps_places(arguments, rules, unknown, no_values(rules.len()));
    let values = scan_of(arguments, rules, unknown)->Given_0;
    if arguments_view(more@) == arguments + seq!["--config"@, text] {
        law_values_are_taken_as_written(rules[0].kind, 0, text);
        lemma_pair(
            arguments,
            "--config"@,
            text,
            ValueView::Text(text),
            rules,
            0,
            unknown,
            values,
        );
    }
    if arguments_view(more@) == arguments + seq!["--loglet-id"@, text] {
        law_values_are_taken_as_written(rules[1].kind, 0, text);
        lemma_pair(
            arguments,
            "--loglet-id"@,
            text,
            ValueView::Text(text),
            rules,
            1,
            unknown,
            values,
        );
    }
    if arguments_view(more@) == arguments + seq!["--initial-term"@, decimal(number as nat)]
        && number > 0 {
        law_values_are_taken_as_written(rules[2].kind, number as nat, text);
        lemma_pair(
            arguments,
            "--initial-term"@,
            decimal(number as nat),
            ValueView::Number(number),
            rules,
            2,
            unknown,
            values,
        );
    }
}

/// Without further flags `bootstrap` has its defaults; without its required ones it is refused.
#[verifier::spinoff_prover]
#[verifier::rlimit(60)]
pub proof fn law_bootstrap_has_its_defaults(
    given: &[String],
    parsed: Parsed<BootstrapRequest>,
    config: Seq<char>,
)
    requires
        call_ensures(parse_bootstrap_args, (given,), parsed),
    ensures
        arguments_view(given@) == seq!["--config"@, config]
            ==> (parsed matches Parsed::Run(now) && now.config@ == config && now.loglet_id is None
            && now.initial_term == 1),
        arguments_view(given@).len() == 0 ==> parsed is Refused && parsed->Refused_0@
            == "bootstrap requires --config PATH"@,
{
    reveal_strlit("--config");
    reveal_strlit("--loglet-id");
    reveal_strlit("--initial-term");
    assert("--config"@.len() == 8 && "--loglet-id"@.len() == 11 && "--initial-term"@.len() == 14);
    let rules = bootstrap_flags();
    let unknown = "unknown argument: "@;
    let none = Seq::<Seq<char>>::empty();
    let values = no_values(rules.len());
    if arguments_view(given@).len() == 0 {
        assert(arguments_view(given@) =~= none);
    }
    assert(scan_of(none, rules, unknown) == ScanView::Given(values));
    law_values_are_taken_as_written(rules[0].kind, 0, config);
    lemma_pair(none, "--config"@, config, ValueView::Text(config), rules, 0, unknown, values);
    let values = values.update(0, Some(ValueView::Text(config)));
    let given_config = none + seq!["--config"@, config];
    assert(given_config =~= seq!["--config"@, config]);
}

/// A flag behind the arguments of `replace` sets its own field and leaves the others.
#[verifier::spinoff_prover]
#[verifier::rlimit(60)]
pub proof fn law_replace_flags_set_their_fields(
    given: &[String],
    more: &[String],
    request: ReplaceRequest,
    parsed: Parsed<ReplaceRequest>,
    text: Seq<char>,
)
    requires
        call_ensures(parse_replace_args, (given,), Parsed::Run(request)),
        call_ensures(parse_replace_args, (more,), parsed),
    ensures
        arguments_view(more@) == arguments_view(given@) + seq!["--config"@, text] ==> (parsed
            matches Parsed::Run(now) && now.config@ == text
                && now.successor@ == request.successor@),
        arguments_view(more@) == arguments_view(given@) + seq!["--successor-loglet-id"@, text] ==> (parsed
            matches Parsed::Run(now) && now.successor@ == text && now.config@ == request.config@),
{
    reveal_strlit("--config");
    reveal_strlit("--successor-loglet-id");
    assert("--config"@.len() == 8 && "--successor-loglet-id"@.len() == 21);
    let rules = replace_flags();
    let unknown = "unknown argument: "@;
    let arguments = arguments_view(given@);
    lemma_scan_keeps_places(arguments, rules, unknown, no_values(rules.len()));
    let values = scan_of(arguments, rules, unknown)->Given_0;
    if arguments_view(more@) == arguments + seq!["--config"@, text] {
        law_values_are_taken_as_written(rules[0].kind, 0, text);
        lemma_pair(
            arguments,
            "--config"@,
            text,
            ValueView::Text(text),
            rules,
            0,
            unknown,
            values,
        );
    }
    if arguments_view(more@) == arguments + seq!["--successor-loglet-id"@, text] {
        law_values_are_taken_as_written(rules[1].kind, 0, text);
        lemma_pair(
            arguments,
            "--successor-loglet-id"@,
            text,
            ValueView::Text(text),
            rules,
            1,
            unknown,
            values,
        );
    }
}

/// Without further flags `replace` has its defaults; without its required ones it is refused.
#[verifier::spinoff_prover]
#[verifier::rlimit(60)]
pub proof fn law_replace_has_its_defaults(
    given: &[String],
    parsed: Parsed<ReplaceRequest>,
    config: Seq<char>,
    successor: Seq<char>,
)
    requires
        call_ensures(parse_replace_args, (given,), parsed),
    ensures
        arguments_view(given@) == seq!["--config"@, config, "--successor-loglet-id"@, successor]
            ==> (parsed matches Parsed::Run(now) && now.config@ == config
            && now.successor@ == successor),
        arguments_view(given@).len() == 0 ==> parsed is Refused && parsed->Refused_0@
            == "replace requires --config PATH"@,
        arguments_view(given@) == seq!["--config"@, config] ==> parsed is Refused
            && parsed->Refused_0@ == "replace requires --successor-loglet-id ID"@,
{
    reveal_strlit("--config");
    reveal_strlit("--successor-loglet-id");
    assert("--config"@.len() == 8 && "--successor-loglet-id"@.len() == 21);
    let rules = replace_flags();
    let unknown = "unknown argument: "@;
    let none = Seq::<Seq<char>>::empty();
    let values = no_values(rules.len());
    if arguments_view(given@).len() == 0 {
        assert(arguments_view(given@) =~= none);
    }
    assert(scan_of(none, rules, unknown) == ScanView::Given(values));
    law_values_are_taken_as_written(rules[0].kind, 0, config);
    lemma_pair(none, "--config"@, config, ValueView::Text(config), rules, 0, unknown, values);
    let values = values.update(0, Some(ValueView::Text(config)));
    let given_config = none + seq!["--config"@, config];
    assert(given_config =~= seq!["--config"@, config]);
    law_values_are_taken_as_written(rules[1].kind, 0, successor);
    lemma_pair(
        given_config,
        "--successor-loglet-id"@,
        successor,
        ValueView::Text(successor),
        rules,
        1,
        unknown,
        values,
    );
    let values = values.update(1, Some(ValueView::Text(successor)));
    let given_successor = given_config + seq!["--successor-loglet-id"@, successor];
    assert(given_successor =~= seq!["--config"@, config, "--successor-loglet-id"@, successor]);
}

/// A flag behind the arguments of `promote` sets its own field and leaves the others.
#[verifier::spinoff_prover]
#[verifier::rlimit(60)]
pub proof fn law_promote_flags_set_their_fields(
    given: &[String],
    more: &[String],
    request: PromoteCommand,
    parsed: Parsed<PromoteCommand>,
    text: Seq<char>,
    number: u64,
)
    requires
        call_ensures(parse_promote_args, (given,), Parsed::Run(request)),
        call_ensures(parse_promote_args, (more,), parsed),
    ensures
        arguments_view(more@) == arguments_view(given@) + seq!["--config"@, text] ==> (parsed
            matches Parsed::Run(now) && now.config@ == text
                && now.candidate_term == request.candidate_term
                && optional(now.assignment) == optional(request.assignment)),
        arguments_view(more@) == arguments_view(given@) + seq!["--candidate-term"@, decimal(number as nat)] ==> (parsed
            matches Parsed::Run(now) && now.candidate_term == number
                && now.config@ == request.config@
                && optional(now.assignment) == optional(request.assignment)),
        arguments_view(more@) == arguments_view(given@) + seq!["--assignment"@, text] ==> (parsed
            matches Parsed::Run(now) && optional(now.assignment) == Some(text)
                && now.config@ == request.config@
                && now.candidate_term == request.candidate_term),
{
    reveal_strlit("--config");
    reveal_strlit("--candidate-term");
    reveal_strlit("--assignment");
    assert("--config"@.len() == 8 && "--candidate-term"@.len() == 16
        && "--assignment"@.len() == 12);
    let rules = promote_flags();
    let unknown = "unknown argument: "@;
    let arguments = arguments_view(given@);
    lemma_scan_keeps_places(arguments, rules, unknown, no_values(rules.len()));
    let values = scan_of(arguments, rules, unknown)->Given_0;
    if arguments_view(more@) == arguments + seq!["--config"@, text] {
        law_values_are_taken_as_written(rules[0].kind, 0, text);
        lemma_pair(
            arguments,
            "--config"@,
            text,
            ValueView::Text(text),
            rules,
            0,
            unknown,
            values,
        );
    }
    if arguments_view(more@) == arguments + seq!["--candidate-term"@, decimal(number as nat)] {
        law_values_are_taken_as_written(rules[1].kind, number as nat, text);
        lemma_pair(
            arguments,
            "--candidate-term"@,
            decimal(number as nat),
            ValueView::Number(number),
            rules,
            1,
            unknown,
            values,
        );
    }
    if arguments_view(more@) == arguments + seq!["--assignment"@, text] {
        law_values_are_taken_as_written(rules[2].kind, 0, text);
        lemma_pair(
            arguments,
            "--assignment"@,
            text,
            ValueView::Text(text),
            rules,
            2,
            unknown,
            values,
        );
    }
}

/// Without further flags `promote` has its defaults; without its required ones it is refused.
#[verifier::spinoff_prover]
#[verifier::rlimit(60)]
pub proof fn law_promote_has_its_defaults(
    given: &[String],
    parsed: Parsed<PromoteCommand>,
    config: Seq<char>,
    term: u64,
)
    requires
        call_ensures(parse_promote_args, (given,), parsed),
    ensures
        arguments_view(given@) == seq![
            "--config"@,
            config,
            "--candidate-term"@,
            decimal(term as nat),
        ]
            ==> (parsed matches Parsed::Run(now) && now.config@ == config
            && now.candidate_term == term && now.assignment is None),
        arguments_view(given@).len() == 0 ==> parsed is Refused && parsed->Refused_0@
            == "promote requires --config PATH"@,
        arguments_view(given@) == seq!["--config"@, config] ==> parsed is Refused
            && parsed->Refused_0@ == "promote requires --candidate-term N"@,
{
    reveal_strlit("--config");
    reveal_strlit("--candidate-term");
    reveal_strlit("--assignment");
    assert("--config"@.len() == 8 && "--candidate-term"@.len() == 16
        && "--assignment"@.len() == 12);
    let rules = promote_flags();
    let unknown = "unknown argument: "@;
    let none = Seq::<Seq<char>>::empty();
    let values = no_values(rules.len());
    if arguments_view(given@).len() == 0 {
        assert(arguments_view(given@) =~= none);
    }
    assert(scan_of(none, rules, unknown) == ScanView::Given(values));
    law_values_are_taken_as_written(rules[0].kind, 0, config);
    lemma_pair(none, "--config"@, config, ValueView::Text(config), rules, 0, unknown, values);
    let values = values.update(0, Some(ValueView::Text(config)));
    let given_config = none + seq!["--config"@, config];
    assert(given_config =~= seq!["--config"@, config]);
    law_values_are_taken_as_written(rules[1].kind, term as nat, ""@);
    lemma_pair(
        given_config,
        "--candidate-term"@,
        decimal(term as nat),
        ValueView::Number(term),
        rules,
        1,
        unknown,
        values,
    );
    let values = values.update(1, Some(ValueView::Number(term)));
    let given_term = given_config + seq!["--candidate-term"@, decimal(term as nat)];
    assert(given_term =~= seq!["--config"@, config, "--candidate-term"@, decimal(term as nat)]);
}

/// A flag behind the arguments of `scribe run` sets its own field and leaves the others.
#[verifier::spinoff_prover]
#[verifier::rlimit(60)]
pub proof fn law_scribe_run_flags_set_their_fields(
    given: &[String],
    more: &[String],
    request: ScribeRunRequest,
    parsed: Parsed<ScribeRunRequest>,
    text: Seq<char>,
    number: u64,
)
    requires
        call_ensures(parse_scribe_run_args, (given,), Parsed::Run(request)),
        call_ensures(parse_scribe_run_args, (more,), parsed),
    ensures
        arguments_view(more@) == arguments_view(given@) + seq!["--config"@, text] ==> (parsed
            matches Parsed::Run(now) && now.config@ == text
                && now.peer_grace_ms == request.peer_grace_ms
                && now.initial_term == request.initial_term),
        arguments_view(more@) == arguments_view(given@) + seq!["--peer-grace-ms"@, decimal(number as nat)]
            && number > 0 ==> (parsed
            matches Parsed::Run(now) && now.peer_grace_ms == number
                && now.config@ == request.config@ && now.initial_term == request.initial_term),
        arguments_view(more@) == arguments_view(given@) + seq!["--initial-term"@, decimal(number as nat)]
            && number > 0 ==> (parsed
            matches Parsed::Run(now) && now.initial_term == number
                && now.config@ == request.config@ && now.peer_grace_ms == request.peer_grace_ms),
{
    reveal_strlit("--config");
    reveal_strlit("--peer-grace-ms");
    reveal_strlit("--initial-term");
    assert("--config"@.len() == 8 && "--peer-grace-ms"@.len() == 15
        && "--initial-term"@.len() == 14);
    let rules = scribe_run_flags();
    let unknown = "scribe run: unexpected argument "@;
    let arguments = arguments_view(given@);
    lemma_scan_keeps_places(arguments, rules, unknown, no_values(rules.len()));
    let values = scan_of(arguments, rules, unknown)->Given_0;
    if arguments_view(more@) == arguments + seq!["--config"@, text] {
        law_values_are_taken_as_written(rules[0].kind, 0, text);
        lemma_pair(
            arguments,
            "--config"@,
            text,
            ValueView::Text(text),
            rules,
            0,
            unknown,
            values,
        );
    }
    if arguments_view(more@) == arguments + seq!["--peer-grace-ms"@, decimal(number as nat)]
        && number > 0 {
        law_values_are_taken_as_written(rules[1].kind, number as nat, text);
        lemma_pair(
            arguments,
            "--peer-grace-ms"@,
            decimal(number as nat),
            ValueView::Number(number),
            rules,
            1,
            unknown,
            values,
        );
    }
    if arguments_view(more@) == arguments + seq!["--initial-term"@, decimal(number as nat)]
        && number > 0 {
        law_values_are_taken_as_written(rules[2].kind, number as nat, text);
        lemma_pair(
            arguments,
            "--initial-term"@,
            decimal(number as nat),
            ValueView::Number(number),
            rules,
            2,
            unknown,
            values,
        );
    }
}

/// Without further flags `scribe run` has its defaults; without its required ones it is refused.
#[verifier::spinoff_prover]
#[verifier::rlimit(60)]
pub proof fn law_scribe_run_has_its_defaults(
    given: &[String],
    parsed: Parsed<ScribeRunRequest>,
    config: Seq<char>,
)
    requires
        call_ensures(parse_scribe_run_args, (given,), parsed),
    ensures
        arguments_view(given@) == seq!["--config"@, config]
            ==> (parsed matches Parsed::Run(now) && now.config@ == config
            && now.peer_grace_ms == 2000 && now.initial_term == 1),
        arguments_view(given@).len() == 0 ==> parsed is Refused && parsed->Refused_0@
            == "scribe run requires --config"@,
{
    reveal_strlit("--config");
    reveal_strlit("--peer-grace-ms");
    reveal_strlit("--initial-term");
    assert("--config"@.len() == 8 && "--peer-grace-ms"@.len() == 15
        && "--initial-term"@.len() == 14);
    let rules = scribe_run_flags();
    let unknown = "scribe run: unexpected argument "@;
    let none = Seq::<Seq<char>>::empty();
    let values = no_values(rules.len());
    if arguments_view(given@).len() == 0 {
        assert(arguments_view(given@) =~= none);
    }
    assert(scan_of(none, rules, unknown) == ScanView::Given(values));
    law_values_are_taken_as_written(rules[0].kind, 0, config);
    lemma_pair(none, "--config"@, config, ValueView::Text(config), rules, 0, unknown, values);
    let values = values.update(0, Some(ValueView::Text(config)));
    let given_config = none + seq!["--config"@, config];
    assert(given_config =~= seq!["--config"@, config]);
}

/// A flag behind the arguments of `doctor` sets its own field and leaves the others.
#[verifier::spinoff_prover]
#[verifier::rlimit(60)]
pub proof fn law_doctor_flags_set_their_fields(
    given: &[String],
    more: &[String],
    request: DoctorRequest,
    parsed: Parsed<DoctorRequest>,
    text: Seq<char>,
)
    requires
        call_ensures(parse_doctor_args, (given,), Parsed::Run(request)),
        call_ensures(parse_doctor_args, (more,), parsed),
    ensures
        arguments_view(more@) == arguments_view(given@) + seq!["--config"@, text] ==> (parsed
            matches Parsed::Run(now) && now.config@ == text && now.format == request.format),
        arguments_view(more@) == arguments_view(given@) + seq!["--format"@, "json"@] ==> (parsed
            matches Parsed::Run(now) && now.format == DoctorFormat::Json
                && now.config@ == request.config@),
        arguments_view(more@) == arguments_view(given@) + seq!["--format"@, "human"@] ==> (parsed
            matches Parsed::Run(now) && now.format == DoctorFormat::Human
                && now.config@ == request.config@),
{
    reveal_strlit("--config");
    reveal_strlit("--format");
    reveal_strlit("human");
    reveal_strlit("json");
    assert("--config"@.len() == 8 && "--format"@.len() == 8 && "human"@.len() == 5
        && "json"@.len() == 4);
    assert("--config"@[2] == 'c' && "--format"@[2] == 'f');
    let rules = doctor_flags();
    let unknown = "doctor: unexpected argument "@;
    let arguments = arguments_view(given@);
    lemma_scan_keeps_places(arguments, rules, unknown, no_values(rules.len()));
    let values = scan_of(arguments, rules, unknown)->Given_0;
    if arguments_view(more@) == arguments + seq!["--config"@, text] {
        law_values_are_taken_as_written(rules[0].kind, 0, text);
        lemma_pair(
            arguments,
            "--config"@,
            text,
            ValueView::Text(text),
            rules,
            0,
            unknown,
            values,
        );
    }
    if arguments_view(more@) == arguments + seq!["--format"@, "json"@] {
        lemma_pair(
            arguments,
            "--format"@,
            "json"@,
            ValueView::Text("json"@),
            rules,
            1,
            unknown,
            values,
        );
    }
    if arguments_view(more@) == arguments + seq!["--format"@, "human"@] {
        lemma_pair(
            arguments,
            "--format"@,
            "human"@,
            ValueView::Text("human"@),
            rules,
            1,
            unknown,
            values,
        );
    }
}

/// Without further flags `doctor` has its defaults; without its required ones it is refused.
#[verifier::spinoff_prover]
#[verifier::rlimit(60)]
pub proof fn law_doctor_has_its_defaults(
    given: &[String],
    parsed: Parsed<DoctorRequest>,
    config: Seq<char>,
)
    requires
        call_ensures(parse_doctor_args, (given,), parsed),
    ensures
        arguments_view(given@) == seq!["--config"@, config]
            ==> (parsed matches Parsed::Run(now) && now.config@ == config
            && now.format == DoctorFormat::Human),
        arguments_view(given@).len() == 0 ==> parsed is Refused && parsed->Refused_0@
            == "doctor requires --config"@,
{
    reveal_strlit("--config");
    reveal_strlit("--format");
    reveal_strlit("human");
    reveal_strlit("json");
    assert("--config"@.len() == 8 && "--format"@.len() == 8 && "human"@.len() == 5
        && "json"@.len() == 4);
    assert("--config"@[2] == 'c' && "--format"@[2] == 'f');
    let rules = doctor_flags();
    let unknown = "doctor: unexpected argument "@;
    let none = Seq::<Seq<char>>::empty();
    let values = no_values(rules.len());
    if arguments_view(given@).len() == 0 {
        assert(arguments_view(given@) =~= none);
    }
    assert(scan_of(none, rules, unknown) == ScanView::Given(values));
    law_values_are_taken_as_written(rules[0].kind, 0, config);
    lemma_pair(none, "--config"@, config, ValueView::Text(config), rules, 0, unknown, values);
    let values = values.update(0, Some(ValueView::Text(config)));
    let given_config = none + seq!["--config"@, config];
    assert(given_config =~= seq!["--config"@, config]);
}

/// A flag behind the arguments of `produce-lab` sets its own field and leaves the others.
#[verifier::spinoff_prover]
#[verifier::rlimit(60)]
pub proof fn law_produce_lab_flags_set_their_fields(
    given: &[String],
    more: &[String],
    request: ProduceLabRequest,
    parsed: Parsed<ProduceLabRequest>,
    text: Seq<char>,
    number: u64,
    size: usize,
)
    requires
        call_ensures(parse_produce_lab_args, (given,), Parsed::Run(request)),
        call_ensures(parse_produce_lab_args, (more,), parsed),
    ensures
        arguments_view(more@) == arguments_view(given@) + seq!["--config"@, text] ==> (parsed
            matches Parsed::Run(now) && now.config@ == text
                && now.options.canon@ == request.options.canon@
                && now.options.verse@ == request.options.verse@
                && now.options.workers == request.options.workers
                && now.options.per_worker == request.options.per_worker
                && now.options.payload_bytes == request.options.payload_bytes
                && now.options.records_per_submission == request.options.records_per_submission),
        arguments_view(more@) == arguments_view(given@) + seq!["--canon"@, text] ==> (parsed
            matches Parsed::Run(now) && now.options.canon@ == text
                && now.config@ == request.config@ && now.options.verse@ == request.options.verse@
                && now.options.workers == request.options.workers
                && now.options.per_worker == request.options.per_worker
                && now.options.payload_bytes == request.options.payload_bytes
                && now.options.records_per_submission == request.options.records_per_submission),
        arguments_view(more@) == arguments_view(given@) + seq!["--verse"@, text] ==> (parsed
            matches Parsed::Run(now) && now.options.verse@ == text
                && now.config@ == request.config@ && now.options.canon@ == request.options.canon@
                && now.options.workers == request.options.workers
                && now.options.per_worker == request.options.per_worker
                && now.options.payload_bytes == request.options.payload_bytes
                && now.options.records_per_submission == request.options.records_per_submission),
        arguments_view(more@) == arguments_view(given@) + seq!["--workers"@, decimal(size as nat)] ==> (parsed
            matches Parsed::Run(now) && now.options.workers == size
                && now.config@ == request.config@ && now.options.canon@ == request.options.canon@
                && now.options.verse@ == request.options.verse@
                && now.options.per_worker == request.options.per_worker
                && now.options.payload_bytes == request.options.payload_bytes
                && now.options.records_per_submission == request.options.records_per_submission),
        arguments_view(more@) == arguments_view(given@) + seq!["--per-worker"@, decimal(number as nat)] ==> (parsed
            matches Parsed::Run(now) && now.options.per_worker == number
                && now.config@ == request.config@ && now.options.canon@ == request.options.canon@
                && now.options.verse@ == request.options.verse@
                && now.options.workers == request.options.workers
                && now.options.payload_bytes == request.options.payload_bytes
                && now.options.records_per_submission == request.options.records_per_submission),
        arguments_view(more@) == arguments_view(given@) + seq!["--payload-bytes"@, decimal(size as nat)] ==> (parsed
            matches Parsed::Run(now) && now.options.payload_bytes == size
                && now.config@ == request.config@ && now.options.canon@ == request.options.canon@
                && now.options.verse@ == request.options.verse@
                && now.options.workers == request.options.workers
                && now.options.per_worker == request.options.per_worker
                && now.options.records_per_submission == request.options.records_per_submission),
        arguments_view(more@) == arguments_view(given@) + seq!["--records-per-submission"@, decimal(size as nat)] ==> (parsed
            matches Parsed::Run(now) && now.options.records_per_submission == size
                && now.config@ == request.config@ && now.options.canon@ == request.options.canon@
                && now.options.verse@ == request.options.verse@
                && now.options.workers == request.options.workers
                && now.options.per_worker == request.options.per_worker
                && now.options.payload_bytes == request.options.payload_bytes),
{
    reveal_strlit("--config");
    reveal_strlit("--canon");
    reveal_strlit("--verse");
    reveal_strlit("--workers");
    reveal_strlit("--per-worker");
    reveal_strlit("--payload-bytes");
    reveal_strlit("--records-per-submission");
    assert("--config"@.len() == 8 && "--canon"@.len() == 7 && "--verse"@.len() == 7
        && "--workers"@.len() == 9 && "--per-worker"@.len() == 12
        && "--payload-bytes"@.len() == 15 && "--records-per-submission"@.len() == 24);
    assert("--canon"@[2] == 'c' && "--verse"@[2] == 'v');
    let rules = produce_lab_flags();
    let unknown = "produce-lab: unexpected argument "@;
    let arguments = arguments_view(given@);
    lemma_scan_keeps_places(arguments, rules, unknown, no_values(rules.len()));
    let values = scan_of(arguments, rules, unknown)->Given_0;
    if arguments_view(more@) == arguments + seq!["--config"@, text] {
        law_values_are_taken_as_written(rules[0].kind, 0, text);
        lemma_pair(
            arguments,
            "--config"@,
            text,
            ValueView::Text(text),
            rules,
            0,
            unknown,
            values,
        );
    }
    if arguments_view(more@) == arguments + seq!["--canon"@, text] {
        law_values_are_taken_as_written(rules[1].kind, 0, text);
        lemma_pair(
            arguments,
            "--canon"@,
            text,
            ValueView::Text(text),
            rules,
            1,
            unknown,
            values,
        );
    }
    if arguments_view(more@) == arguments + seq!["--verse"@, text] {
        law_values_are_taken_as_written(rules[2].kind, 0, text);
        lemma_pair(
            arguments,
            "--verse"@,
            text,
            ValueView::Text(text),
            rules,
            2,
            unknown,
            values,
        );
    }
    if arguments_view(more@) == arguments + seq!["--workers"@, decimal(size as nat)] {
        law_values_are_taken_as_written(rules[3].kind, size as nat, text);
        lemma_pair(
            arguments,
            "--workers"@,
            decimal(size as nat),
            ValueView::Size(size),
            rules,
            3,
            unknown,
            values,
        );
    }
    if arguments_view(more@) == arguments + seq!["--per-worker"@, decimal(number as nat)] {
        law_values_are_taken_as_written(rules[4].kind, number as nat, text);
        lemma_pair(
            arguments,
            "--per-worker"@,
            decimal(number as nat),
            ValueView::Number(number),
            rules,
            4,
            unknown,
            values,
        );
    }
    if arguments_view(more@) == arguments + seq!["--payload-bytes"@, decimal(size as nat)] {
        law_values_are_taken_as_written(rules[5].kind, size as nat, text);
        lemma_pair(
            arguments,
            "--payload-bytes"@,
            decimal(size as nat),
            ValueView::Size(size),
            rules,
            5,
            unknown,
            values,
        );
    }
    if arguments_view(more@) == arguments + seq!["--records-per-submission"@, decimal(size as nat)] {
        law_values_are_taken_as_written(rules[6].kind, size as nat, text);
        lemma_pair(
            arguments,
            "--records-per-submission"@,
            decimal(size as nat),
            ValueView::Size(size),
            rules,
            6,
            unknown,
            values,
        );
    }
}

/// Without further flags `produce-lab` has its defaults; without its required ones it is refused.
#[verifier::spinoff_prover]
#[verifier::rlimit(60)]
pub proof fn law_produce_lab_has_its_defaults(
    given: &[String],
    parsed: Parsed<ProduceLabRequest>,
    config: Seq<char>,
    canon: Seq<char>,
    verse: Seq<char>,
)
    requires
        call_ensures(parse_produce_lab_args, (given,), parsed),
    ensures
        arguments_view(given@) == seq!["--config"@, config, "--canon"@, canon, "--verse"@, verse]
            ==> (parsed matches Parsed::Run(now) && now.config@ == config
            && now.options.canon@ == canon && now.options.verse@ == verse
            && now.options.workers == 3 && now.options.per_worker == 200
            && now.options.payload_bytes == 64 && now.options.records_per_submission == 1),
        arguments_view(given@).len() == 0 ==> parsed is Refused && parsed->Refused_0@
            == "produce-lab requires --config"@,
        arguments_view(given@) == seq!["--config"@, config] ==> parsed is Refused
            && parsed->Refused_0@ == "produce-lab requires --canon"@,
        arguments_view(given@) == seq!["--config"@, config, "--canon"@, canon] ==> parsed is Refused
            && parsed->Refused_0@ == "produce-lab requires --verse"@,
{
    reveal_strlit("--config");
    reveal_strlit("--canon");
    reveal_strlit("--verse");
    reveal_strlit("--workers");
    reveal_strlit("--per-worker");
    reveal_strlit("--payload-bytes");
    reveal_strlit("--records-per-submission");
    assert("--config"@.len() == 8 && "--canon"@.len() == 7 && "--verse"@.len() == 7
        && "--workers"@.len() == 9 && "--per-worker"@.len() == 12
        && "--payload-bytes"@.len() == 15 && "--records-per-submission"@.len() == 24);
    assert("--canon"@[2] == 'c' && "--verse"@[2] == 'v');
    let rules = produce_lab_flags();
    let unknown = "produce-lab: unexpected argument "@;
    let none = Seq::<Seq<char>>::empty();
    let values = no_values(rules.len());
    if arguments_view(given@).len() == 0 {
        assert(arguments_view(given@) =~= none);
    }
    assert(scan_of(none, rules, unknown) == ScanView::Given(values));
    law_values_are_taken_as_written(rules[0].kind, 0, config);
    lemma_pair(none, "--config"@, config, ValueView::Text(config), rules, 0, unknown, values);
    let values = values.update(0, Some(ValueView::Text(config)));
    let given_config = none + seq!["--config"@, config];
    assert(given_config =~= seq!["--config"@, config]);
    law_values_are_taken_as_written(rules[1].kind, 0, canon);
    lemma_pair(given_config, "--canon"@, canon, ValueView::Text(canon), rules, 1, unknown, values);
    let values = values.update(1, Some(ValueView::Text(canon)));
    let given_canon = given_config + seq!["--canon"@, canon];
    assert(given_canon =~= seq!["--config"@, config, "--canon"@, canon]);
    law_values_are_taken_as_written(rules[2].kind, 0, verse);
    lemma_pair(given_canon, "--verse"@, verse, ValueView::Text(verse), rules, 2, unknown, values);
    let values = values.update(2, Some(ValueView::Text(verse)));
    let given_verse = given_canon + seq!["--verse"@, verse];
    assert(given_verse =~= seq!["--config"@, config, "--canon"@, canon, "--verse"@, verse]);
}

/// A flag behind the arguments of `consume` sets its own field and leaves the others.
#[verifier::spinoff_prover]
#[verifier::rlimit(60)]
pub proof fn law_consume_flags_set_their_fields(
    given: &[String],
    more: &[String],
    request: ConsumeRequest,
    parsed: Parsed<ConsumeRequest>,
    text: Seq<char>,
    number: u64,
)
    requires
        call_ensures(parse_consume_args, (given,), Parsed::Run(request)),
        call_ensures(parse_consume_args, (more,), parsed),
    ensures
        arguments_view(more@) == arguments_view(given@) + seq!["--config"@, text] ==> (parsed
            matches Parsed::Run(now) && now.config@ == text
                && now.options.canon@ == request.options.canon@
                && now.options.verse@ == request.options.verse@
                && now.options.from == request.options.from
                && now.options.until_records == request.options.until_records
                && now.options.seconds == request.options.seconds
                && now.options.format == request.options.format
                && now.options.no_follow == request.options.no_follow),
        arguments_view(more@) == arguments_view(given@) + seq!["--canon"@, text] ==> (parsed
            matches Parsed::Run(now) && now.options.canon@ == text
                && now.config@ == request.config@ && now.options.verse@ == request.options.verse@
                && now.options.from == request.options.from
                && now.options.until_records == request.options.until_records
                && now.options.seconds == request.options.seconds
                && now.options.format == request.options.format
                && now.options.no_follow == request.options.no_follow),
        arguments_view(more@) == arguments_view(given@) + seq!["--verse"@, text] ==> (parsed
            matches Parsed::Run(now) && now.options.verse@ == text
                && now.config@ == request.config@ && now.options.canon@ == request.options.canon@
                && now.options.from == request.options.from
                && now.options.until_records == request.options.until_records
                && now.options.seconds == request.options.seconds
                && now.options.format == request.options.format
                && now.options.no_follow == request.options.no_follow),
        arguments_view(more@) == arguments_view(given@) + seq!["--from"@, decimal(number as nat)] ==> (parsed
            matches Parsed::Run(now) && now.options.from == number
                && now.config@ == request.config@ && now.options.canon@ == request.options.canon@
                && now.options.verse@ == request.options.verse@
                && now.options.until_records == request.options.until_records
                && now.options.seconds == request.options.seconds
                && now.options.format == request.options.format
                && now.options.no_follow == request.options.no_follow),
        arguments_view(more@) == arguments_view(given@) + seq!["--until-records"@, decimal(number as nat)] ==> (parsed
            matches Parsed::Run(now) && now.options.until_records == Some(number)
                && now.config@ == request.config@ && now.options.canon@ == request.options.canon@
                && now.options.verse@ == request.options.verse@
                && now.options.from == request.options.from
                && now.options.seconds == request.options.seconds
                && now.options.format == request.options.format
                && now.options.no_follow == request.options.no_follow),
        arguments_view(more@) == arguments_view(given@) + seq!["--seconds"@, decimal(number as nat)]
            && (number > 0 || request.options.no_follow) ==> (parsed
            matches Parsed::Run(now) && now.options.seconds == number
                && now.config@ == request.config@ && now.options.canon@ == request.options.canon@
                && now.options.verse@ == request.options.verse@
                && now.options.from == request.options.from
                && now.options.until_records == request.options.until_records
                && now.options.format == request.options.format
                && now.options.no_follow == request.options.no_follow),
        arguments_view(more@) == arguments_view(given@) + seq!["--format"@, "jsonl"@] ==> (parsed
            matches Parsed::Run(now) && now.options.format == OutputFormat::Jsonl
                && now.config@ == request.config@ && now.options.canon@ == request.options.canon@
                && now.options.verse@ == request.options.verse@
                && now.options.from == request.options.from
                && now.options.until_records == request.options.until_records
                && now.options.seconds == request.options.seconds
                && now.options.no_follow == request.options.no_follow),
        arguments_view(more@) == arguments_view(given@) + seq!["--format"@, "text"@] ==> (parsed
            matches Parsed::Run(now) && now.options.format == OutputFormat::Text
                && now.config@ == request.config@ && now.options.canon@ == request.options.canon@
                && now.options.verse@ == request.options.verse@
                && now.options.from == request.options.from
                && now.options.until_records == request.options.until_records
                && now.options.seconds == request.options.seconds
                && now.options.no_follow == request.options.no_follow),
        arguments_view(more@) == arguments_view(given@) + seq!["--no-follow"@] ==> (parsed
            matches Parsed::Run(now) && now.options.no_follow && now.config@ == request.config@
                && now.options.canon@ == request.options.canon@
                && now.options.verse@ == request.options.verse@
                && now.options.from == request.options.from
                && now.options.until_records == request.options.until_records
                && now.options.seconds == request.options.seconds
                && now.options.format == request.options.format),
{
    reveal_strlit("--config");
    reveal_strlit("--canon");
    reveal_strlit("--verse");
    reveal_strlit("--from");
    reveal_strlit("--until-records");
    reveal_strlit("--seconds");
    reveal_strlit("--format");
    reveal_strlit("--no-follow");
    reveal_strlit("text");
    reveal_strlit("jsonl");
    assert("--config"@.len() == 8 && "--canon"@.len() == 7 && "--verse"@.len() == 7
        && "--from"@.len() == 6 && "--until-records"@.len() == 15 && "--seconds"@.len() == 9
        && "--format"@.len() == 8 && "--no-follow"@.len() == 11 && "text"@.len() == 4
        && "jsonl"@.len() == 5);
    assert("--config"@[2] == 'c' && "--format"@[2] == 'f');
    assert("--canon"@[2] == 'c' && "--verse"@[2] == 'v');
    let rules = consume_flags();
    let unknown = "consume: unexpected argument "@;
    let arguments = arguments_view(given@);
    lemma_scan_keeps_places(arguments, rules, unknown, no_values(rules.len()));
    let values = scan_of(arguments, rules, unknown)->Given_0;
    if arguments_view(more@) == arguments + seq!["--config"@, text] {
        law_values_are_taken_as_written(rules[0].kind, 0, text);
        lemma_pair(
            arguments,
            "--config"@,
            text,
            ValueView::Text(text),
            rules,
            0,
            unknown,
            values,
        );
    }
    if arguments_view(more@) == arguments + seq!["--canon"@, text] {
        law_values_are_taken_as_written(rules[1].kind, 0, text);
        lemma_pair(
            arguments,
            "--canon"@,
            text,
            ValueView::Text(text),
            rules,
            1,
            unknown,
            values,
        );
    }
    if arguments_view(more@) == arguments + seq!["--verse"@, text] {
        law_values_are_taken_as_written(rules[2].kind, 0, text);
        lemma_pair(
            arguments,
            "--verse"@,
            text,
            ValueView::Text(text),
            rules,
            2,
            unknown,
            values,
        );
    }
    if arguments_view(more@) == arguments + seq!["--from"@, decimal(number as nat)] {
        law_values_are_taken_as_written(rules[3].kind, number as nat, text);
        lemma_pair(
            arguments,
            "--from"@,
            decimal(number as nat),
            ValueView::Number(number),
            rules,
            3,
            unknown,
            values,
        );
    }
    if arguments_view(more@) == arguments + seq!["--until-records"@, decimal(number as nat)] {
        law_values_are_taken_as_written(rules[4].kind, number as nat, text);
        lemma_pair(
            arguments,
            "--until-records"@,
            decimal(number as nat),
            ValueView::Number(number),
            rules,
            4,
            unknown,
            values,
        );
    }
    if arguments_view(more@) == arguments + seq!["--seconds"@, decimal(number as nat)]
        && (number > 0 || request.options.no_follow) {
        law_values_are_taken_as_written(rules[5].kind, number as nat, text);
        lemma_pair(
            arguments,
            "--seconds"@,
            decimal(number as nat),
            ValueView::Number(number),
            rules,
            5,
            unknown,
            values,
        );
    }
    if arguments_view(more@) == arguments + seq!["--format"@, "jsonl"@] {
        lemma_pair(
            arguments,
            "--format"@,
            "jsonl"@,
            ValueView::Text("jsonl"@),
            rules,
            6,
            unknown,
            values,
        );
    }
    if arguments_view(more@) == arguments + seq!["--format"@, "text"@] {
        lemma_pair(
            arguments,
            "--format"@,
            "text"@,
            ValueView::Text("text"@),
            rules,
            6,
            unknown,
            values,
        );
    }
    if arguments_view(more@) == arguments + seq!["--no-follow"@] {
        lemma_switch(arguments, "--no-follow"@, rules, 7, unknown, values);
    }
}

/// Without further flags `consume` has its defaults; without its required ones it is refused.
#[verifier::spinoff_prover]
#[verifier::rlimit(60)]
pub proof fn law_consume_has_its_defaults(
    given: &[String],
    parsed: Parsed<ConsumeRequest>,
    config: Seq<char>,
    canon: Seq<char>,
    verse: Seq<char>,
)
    requires
        call_ensures(parse_consume_args, (given,), parsed),
    ensures
        arguments_view(given@) == seq!["--config"@, config, "--canon"@, canon, "--verse"@, verse]
            ==> (parsed matches Parsed::Run(now) && now.config@ == config
            && now.options.canon@ == canon && now.options.verse@ == verse && now.options.from == 0
            && now.options.until_records is None && now.options.seconds == 30
            && now.options.format == OutputFormat::Text && now.options.no_follow == false),
        arguments_view(given@).len() == 0 ==> parsed is Refused && parsed->Refused_0@
            == "consume requires --config"@,
        arguments_view(given@) == seq!["--config"@, config] ==> parsed is Refused
            && parsed->Refused_0@ == "consume requires --canon"@,
        arguments_view(given@) == seq!["--config"@, config, "--canon"@, canon] ==> parsed is Refused
            && parsed->Refused_0@ == "consume requires --verse"@,
{
    reveal_strlit("--config");
    reveal_strlit("--canon");
    reveal_strlit("--verse");
    reveal_strlit("--from");
    reveal_strlit("--until-records");
    reveal_strlit("--seconds");
    reveal_strlit("--format");
    reveal_strlit("--no-follow");
    reveal_strlit("text");
    reveal_strlit("jsonl");
    assert("--config"@.len() == 8 && "--canon"@.len() == 7 && "--verse"@.len() == 7
        && "--from"@.len() == 6 && "--until-records"@.len() == 15 && "--seconds"@.len() == 9
        && "--format"@.len() == 8 && "--no-follow"@.len() == 11 && "text"@.len() == 4
        && "jsonl"@.len() == 5);
    assert("--config"@[2] == 'c' && "--format"@[2] == 'f');
    assert("--canon"@[2] == 'c' && "--verse"@[2] == 'v');
    let rules = consume_flags();
    let unknown = "consume: unexpected argument "@;
    let none = Seq::<Seq<char>>::empty();
    let values = no_values(rules.len());
    if arguments_view(given@).len() == 0 {
        assert(arguments_view(given@) =~= none);
    }
    assert(scan_of(none, rules, unknown) == ScanView::Given(values));
    law_values_are_taken_as_written(rules[0].kind, 0, config);
    lemma_pair(none, "--config"@, config, ValueView::Text(config), rules, 0, unknown, values);
    let values = values.update(0, Some(ValueView::Text(config)));
    let given_config = none + seq!["--config"@, config];
    assert(given_config =~= seq!["--config"@, config]);
    law_values_are_taken_as_written(rules[1].kind, 0, canon);
    lemma_pair(given_config, "--canon"@, canon, ValueView::Text(canon), rules, 1, unknown, values);
    let values = values.update(1, Some(ValueView::Text(canon)));
    let given_canon = given_config + seq!["--canon"@, canon];
    assert(given_canon =~= seq!["--config"@, config, "--canon"@, canon]);
    law_values_are_taken_as_written(rules[2].kind, 0, verse);
    lemma_pair(given_canon, "--verse"@, verse, ValueView::Text(verse), rules, 2, unknown, values);
    let values = values.update(2, Some(ValueView::Text(verse)));
    let given_verse = given_canon + seq!["--verse"@, verse];
    assert(given_verse =~= seq!["--config"@, config, "--canon"@, canon, "--verse"@, verse]);
}

/// A flag behind the arguments of `consume-lab` sets its own field and leaves the others.
#[verifier::spinoff_prover]
#[verifier::rlimit(60)]
pub proof fn law_consume_lab_flags_set_their_fields(
    given: &[String],
    more: &[String],
    request: ConsumeLabRequest,
    parsed: Parsed<ConsumeLabRequest>,
    text: Seq<char>,
    number: u64,
)
    requires
        call_ensures(parse_consume_lab_args, (given,), Parsed::Run(request)),
        call_ensures(parse_consume_lab_args, (more,), parsed),
    ensures
        arguments_view(more@) == arguments_view(given@) + seq!["--config"@, text] ==> (parsed
            matches Parsed::Run(now) && now.config@ == text
                && now.options.canon@ == request.options.canon@
                && now.options.verse@ == request.options.verse@
                && now.options.seconds == request.options.seconds
                && now.options.until_records == request.options.until_records),
        arguments_view(more@) == arguments_view(given@) + seq!["--canon"@, text] ==> (parsed
            matches Parsed::Run(now) && now.options.canon@ == text
                && now.config@ == request.config@ && now.options.verse@ == request.options.verse@
                && now.options.seconds == request.options.seconds
                && now.options.until_records == request.options.until_records),
        arguments_view(more@) == arguments_view(given@) + seq!["--verse"@, text] ==> (parsed
            matches Parsed::Run(now) && now.options.verse@ == text
                && now.config@ == request.config@ && now.options.canon@ == request.options.canon@
                && now.options.seconds == request.options.seconds
                && now.options.until_records == request.options.until_records),
        arguments_view(more@) == arguments_view(given@) + seq!["--seconds"@, decimal(number as nat)] ==> (parsed
            matches Parsed::Run(now) && now.options.seconds == number
                && now.config@ == request.config@ && now.options.canon@ == request.options.canon@
                && now.options.verse@ == request.options.verse@
                && now.options.until_records == request.options.until_records),
        arguments_view(more@) == arguments_view(given@) + seq!["--until-records"@, decimal(number as nat)] ==> (parsed
            matches Parsed::Run(now) && now.options.until_records == number
                && now.config@ == request.config@ && now.options.canon@ == request.options.canon@
                && now.options.verse@ == request.options.verse@
                && now.options.seconds == request.options.seconds),
{
    reveal_strlit("--config");
    reveal_strlit("--canon");
    reveal_strlit("--verse");
    reveal_strlit("--seconds");
    reveal_strlit("--until-records");
    assert("--config"@.len() == 8 && "--canon"@.len() == 7 && "--verse"@.len() == 7
        && "--seconds"@.len() == 9 && "--until-records"@.len() == 15);
    assert("--canon"@[2] == 'c' && "--verse"@[2] == 'v');
    let rules = consume_lab_flags();
    let unknown = "consume-lab: unexpected argument "@;
    let arguments = arguments_view(given@);
    lemma_scan_keeps_places(arguments, rules, unknown, no_values(rules.len()));
    let values = scan_of(arguments, rules, unknown)->Given_0;
    if arguments_view(more@) == arguments + seq!["--config"@, text] {
        law_values_are_taken_as_written(rules[0].kind, 0, text);
        lemma_pair(
            arguments,
            "--config"@,
            text,
            ValueView::Text(text),
            rules,
            0,
            unknown,
            values,
        );
    }
    if arguments_view(more@) == arguments + seq!["--canon"@, text] {
        law_values_are_taken_as_written(rules[1].kind, 0, text);
        lemma_pair(
            arguments,
            "--canon"@,
            text,
            ValueView::Text(text),
            rules,
            1,
            unknown,
            values,
        );
    }
    if arguments_view(more@) == arguments + seq!["--verse"@, text] {
        law_values_are_taken_as_written(rules[2].kind, 0, text);
        lemma_pair(
            arguments,
            "--verse"@,
            text,
            ValueView::Text(text),
            rules,
            2,
            unknown,
            values,
        );
    }
    if arguments_view(more@) == arguments + seq!["--seconds"@, decimal(number as nat)] {
        law_values_are_taken_as_written(rules[3].kind, number as nat, text);
        lemma_pair(
            arguments,
            "--seconds"@,
            decimal(number as nat),
            ValueView::Number(number),
            rules,
            3,
            unknown,
            values,
        );
    }
    if arguments_view(more@) == arguments + seq!["--until-records"@, decimal(number as nat)] {
        law_values_are_taken_as_written(rules[4].kind, number as nat, text);
        lemma_pair(
            arguments,
            "--until-records"@,
            decimal(number as nat),
            ValueView::Number(number),
            rules,
            4,
            unknown,
            values,
        );
    }
}

/// Without further flags `consume-lab` has its defaults; without its required ones it is refused.
#[verifier::spinoff_prover]
#[verifier::rlimit(60)]
pub proof fn law_consume_lab_has_its_defaults(
    given: &[String],
    parsed: Parsed<ConsumeLabRequest>,
    config: Seq<char>,
    canon: Seq<char>,
    verse: Seq<char>,
)
    requires
        call_ensures(parse_consume_lab_args, (given,), parsed),
    ensures
        arguments_view(given@) == seq!["--config"@, config, "--canon"@, canon, "--verse"@, verse]
            ==> (parsed matches Parsed::Run(now) && now.config@ == config
            && now.options.canon@ == canon && now.options.verse@ == verse
            && now.options.seconds == 60 && now.options.until_records == 0),
        arguments_view(given@).len() == 0 ==> parsed is Refused && parsed->Refused_0@
            == "consume-lab requires --config"@,
        arguments_view(given@) == seq!["--config"@, config] ==> parsed is Refused
            && parsed->Refused_0@ == "consume-lab requires --canon"@,
        arguments_view(given@) == seq!["--config"@, config, "--canon"@, canon] ==> parsed is Refused
            && parsed->Refused_0@ == "consume-lab requires --verse"@,
{
    reveal_strlit("--config");
    reveal_strlit("--canon");
    reveal_strlit("--verse");
    reveal_strlit("--seconds");
    reveal_strlit("--until-records");
    assert("--config"@.len() == 8 && "--canon"@.len() == 7 && "--verse"@.len() == 7
        && "--seconds"@.len() == 9 && "--until-records"@.len() == 15);
    assert("--canon"@[2] == 'c' && "--verse"@[2] == 'v');
    let rules = consume_lab_flags();
    let unknown = "consume-lab: unexpected argument "@;
    let none = Seq::<Seq<char>>::empty();
    let values = no_values(rules.len());
    if arguments_view(given@).len() == 0 {
        assert(arguments_view(given@) =~= none);
    }
    assert(scan_of(none, rules, unknown) == ScanView::Given(values));
    law_values_are_taken_as_written(rules[0].kind, 0, config);
    lemma_pair(none, "--config"@, config, ValueView::Text(config), rules, 0, unknown, values);
    let values = values.update(0, Some(ValueView::Text(config)));
    let given_config = none + seq!["--config"@, config];
    assert(given_config =~= seq!["--config"@, config]);
    law_values_are_taken_as_written(rules[1].kind, 0, canon);
    lemma_pair(given_config, "--canon"@, canon, ValueView::Text(canon), rules, 1, unknown, values);
    let values = values.update(1, Some(ValueView::Text(canon)));
    let given_canon = given_config + seq!["--canon"@, canon];
    assert(given_canon =~= seq!["--config"@, config, "--canon"@, canon]);
    law_values_are_taken_as_written(rules[2].kind, 0, verse);
    lemma_pair(given_canon, "--verse"@, verse, ValueView::Text(verse), rules, 2, unknown, values);
    let values = values.update(2, Some(ValueView::Text(verse)));
    let given_verse = given_canon + seq!["--verse"@, verse];
    assert(given_verse =~= seq!["--config"@, config, "--canon"@, canon, "--verse"@, verse]);
}

/// The directory is asked for one Canon and Verse only where both are named.
#[verifier::spinoff_prover]
#[verifier::rlimit(60)]
pub proof fn law_directory_names_both_or_neither(
    given: &[String],
    more: &[String],
    one: Parsed<DirectoryRequest>,
    other: Parsed<DirectoryRequest>,
    config: Seq<char>,
    canon: Seq<char>,
    verse: Seq<char>,
)
    requires
        call_ensures(parse_directory_args, (given,), one),
        call_ensures(parse_directory_args, (more,), other),
    ensures
        arguments_view(given@) == seq!["--config"@, config] ==> (one matches Parsed::Run(now)
            && now.config@ == config && now.canon is None && now.verse is None),
        arguments_view(given@) == seq!["--config"@, config, "--canon"@, canon] ==> one is Refused
            && one->Refused_0@ == "directory: --canon and --verse must be given together"@,
        arguments_view(more@) == seq!["--config"@, config, "--verse"@, verse] ==> other is Refused
            && other->Refused_0@ == "directory: --canon and --verse must be given together"@,
        arguments_view(more@) == seq![
            "--config"@,
            config,
            "--canon"@,
            canon,
            "--verse"@,
            verse,
        ] ==> (other matches Parsed::Run(now) && now.config@ == config && optional(now.canon)
            == Some(canon) && optional(now.verse) == Some(verse)),
        arguments_view(given@).len() == 0 ==> one is Refused && one->Refused_0@
            == "directory requires --config"@,
{
    reveal_strlit("--config");
    reveal_strlit("--canon");
    reveal_strlit("--verse");
    assert("--config"@.len() == 8 && "--canon"@.len() == 7 && "--verse"@.len() == 7);
    assert("--canon"@[2] == 'c' && "--verse"@[2] == 'v');
    let rules = directory_flags();
    let unknown = "directory: unexpected argument "@;
    let none = Seq::<Seq<char>>::empty();
    let values = no_values(rules.len());
    if arguments_view(given@).len() == 0 {
        assert(arguments_view(given@) =~= none);
    }
    assert(scan_of(none, rules, unknown) == ScanView::Given(values));
    law_values_are_taken_as_written(rules[0].kind, 0, config);
    law_values_are_taken_as_written(rules[1].kind, 0, canon);
    law_values_are_taken_as_written(rules[2].kind, 0, verse);
    lemma_pair(none, "--config"@, config, ValueView::Text(config), rules, 0, unknown, values);
    let first = none + seq!["--config"@, config];
    let values = values.update(0, Some(ValueView::Text(config)));
    assert(first =~= seq!["--config"@, config]);
    lemma_pair(first, "--canon"@, canon, ValueView::Text(canon), rules, 1, unknown, values);
    lemma_pair(first, "--verse"@, verse, ValueView::Text(verse), rules, 2, unknown, values);
    let second = first + seq!["--canon"@, canon];
    assert(second =~= seq!["--config"@, config, "--canon"@, canon]);
    assert(first + seq!["--verse"@, verse] =~= seq!["--config"@, config, "--verse"@, verse]);
    let values = values.update(1, Some(ValueView::Text(canon)));
    lemma_pair(second, "--verse"@, verse, ValueView::Text(verse), rules, 2, unknown, values);
    assert(second + seq!["--verse"@, verse] =~= seq![
        "--config"@,
        config,
        "--canon"@,
        canon,
        "--verse"@,
        verse,
    ]);
}

/// A command with nothing but a config takes it, and is refused without.
pub proof fn law_config_only_commands_take_their_config(
    given: &[String],
    command: &str,
    parsed: Parsed<String>,
    config: Seq<char>,
)
    requires
        call_ensures(parse_config_only_args, (given, command), parsed),
    ensures
        arguments_view(given@) == seq!["--config"@, config] ==> (parsed matches Parsed::Run(now)
            && now@ == config),
        arguments_view(given@).len() == 0 ==> parsed is Refused && parsed->Refused_0@ == command@
            + " requires --config PATH"@,
{
    assert(is_config_only(parsed, arguments_view(given@), command@));
    lemma_config_only(parsed, arguments_view(given@), command@, config);
}

proof fn lemma_config_only(
    parsed: Parsed<String>,
    arguments: Seq<Seq<char>>,
    command: Seq<char>,
    config: Seq<char>,
)
    requires
        is_config_only(parsed, arguments, command),
    ensures
        arguments == seq!["--config"@, config] ==> (parsed matches Parsed::Run(now) && now@
            == config),
        arguments.len() == 0 ==> parsed is Refused && parsed->Refused_0@ == command
            + " requires --config PATH"@,
{
    let none = Seq::<Seq<char>>::empty();
    let unknown = "unknown argument: "@;
    if arguments.len() == 0 {
        assert(arguments =~= none);
    }
    assert forall|refusal: &str| arguments == seq!["--config"@, config] implies scan_of(
        arguments,
        #[trigger] config_only_flags(refusal),
        unknown,
    ) == ScanView::Given(no_values(8).update(0, Some(ValueView::Text(config)))) by {
        let rules = config_only_flags(refusal);
        assert(scan_of(none, rules, unknown) == ScanView::Given(no_values(8)));
        law_values_are_taken_as_written(rules[0].kind, 0, config);
        lemma_pair(
            none,
            "--config"@,
            config,
            ValueView::Text(config),
            rules,
            0,
            unknown,
            no_values(8),
        );
        assert(none + seq!["--config"@, config] =~= seq!["--config"@, config]);
    }
}

/// The first word chooses the command, and each command's word chooses no other.
pub proof fn law_the_first_word_chooses_the_command(arguments: &[String], request: Request)
    requires
        call_ensures(dispatch, (arguments,), request),
        arguments@.len() > 0,
    ensures
        arguments@[0]@ == "validate"@ <==> request is Validate,
        arguments@[0]@ == "serve"@ <==> request is Serve,
        arguments@[0]@ == "bootstrap"@ <==> request is Bootstrap,
        arguments@[0]@ == "replace"@ <==> request is Replace,
        arguments@[0]@ == "promote"@ <==> request is Promote,
        arguments@[0]@ == "directory"@ <==> request is Directory,
        arguments@[0]@ == "doctor"@ <==> request is Doctor,
        arguments@[0]@ == "produce-lab"@ <==> request is ProduceLab,
        arguments@[0]@ == "consume"@ <==> request is Consume,
        arguments@[0]@ == "consume-lab"@ <==> request is ConsumeLab,
        arguments@[0]@ == "scribe"@ && arguments@.len() > 1 && arguments@[1]@ == "run"@
            <==> request is ScribeRun,
        arguments@[0]@ == "--help"@ || arguments@[0]@ == "-h"@ || arguments@[0]@ == "help"@
            <==> request is Help,
        request is ScribeHelp ==> arguments@[0]@ == "scribe"@ && arguments@.len() > 1,
        request is Refused && arguments@[0]@ != "scribe"@ ==> request->Refused_0@
            == "unknown command "@ + quoted(arguments@[0]@)
            + " (expected validate|bootstrap|replace|promote|scribe|serve|directory|doctor|consume|produce-lab|consume-lab)"@,
        request is Refused && arguments@[0]@ == "scribe"@ && arguments@.len() > 1
            ==> request->Refused_0@ == "unknown scribe subcommand "@ + quoted(arguments@[1]@)
            + " (expected run)"@,
        arguments@[0]@ == "scribe"@ && arguments@.len() == 1 ==> request is Refused
            && request->Refused_0@ == "scribe requires a subcommand (run)"@,
        request !is Nothing,
{
    reveal_strlit("validate");
    reveal_strlit("serve");
    reveal_strlit("bootstrap");
    reveal_strlit("replace");
    reveal_strlit("promote");
    reveal_strlit("directory");
    reveal_strlit("doctor");
    reveal_strlit("produce-lab");
    reveal_strlit("consume");
    reveal_strlit("consume-lab");
    reveal_strlit("scribe");
    reveal_strlit("--help");
    reveal_strlit("-h");
    reveal_strlit("help");
    assert("validate"@.len() == 8 && "serve"@.len() == 5 && "bootstrap"@.len() == 9
        && "replace"@.len() == 7 && "promote"@.len() == 7 && "directory"@.len() == 9
        && "doctor"@.len() == 6 && "produce-lab"@.len() == 11 && "consume"@.len() == 7
        && "consume-lab"@.len() == 11 && "scribe"@.len() == 6 && "--help"@.len() == 6
        && "-h"@.len() == 2 && "help"@.len() == 4);
    assert("bootstrap"@[0] == 'b' && "directory"@[0] == 'd');
    assert("replace"@[0] == 'r' && "promote"@[0] == 'p');
    assert("replace"@[0] == 'r' && "consume"@[0] == 'c');
    assert("promote"@[0] == 'p' && "consume"@[0] == 'c');
    assert("doctor"@[0] == 'd' && "scribe"@[0] == 's');
    assert("doctor"@[0] == 'd' && "--help"@[0] == '-');
    assert("produce-lab"@[0] == 'p' && "consume-lab"@[0] == 'c');
    assert("scribe"@[0] == 's' && "--help"@[0] == '-');
    assert(arguments_view(arguments@)[0] == arguments@[0]@);
    if arguments@.len() > 1 {
        assert(arguments_view(arguments@).skip(1)[0] == arguments@[1]@);
    }
}

/// What stands behind the word `bootstrap` is read as the arguments of that command.
pub proof fn law_bootstrap_reads_the_other_words(
    arguments: &[String],
    rest: &[String],
    request: Parsed<BootstrapRequest>,
    parsed: Parsed<BootstrapRequest>,
)
    requires
        call_ensures(dispatch, (arguments,), Request::Bootstrap(request)),
        call_ensures(parse_bootstrap_args, (rest,), parsed),
        arguments@.len() >= 1,
        arguments_view(rest@) == arguments_view(arguments@).skip(1),
    ensures
        parsed is Help <==> request is Help,
        parsed is Refused <==> request is Refused,
        parsed matches Parsed::Refused(said) ==> request->Refused_0@ == said@,
        parsed matches Parsed::Run(same) ==> {
            let now = request->Run_0;
            &&& now.config@ == same.config@
            &&& optional(now.loglet_id) == optional(same.loglet_id)
            &&& now.initial_term == same.initial_term
        },
{
}

/// What stands behind the word `replace` is read as the arguments of that command.
pub proof fn law_replace_reads_the_other_words(
    arguments: &[String],
    rest: &[String],
    request: Parsed<ReplaceRequest>,
    parsed: Parsed<ReplaceRequest>,
)
    requires
        call_ensures(dispatch, (arguments,), Request::Replace(request)),
        call_ensures(parse_replace_args, (rest,), parsed),
        arguments@.len() >= 1,
        arguments_view(rest@) == arguments_view(arguments@).skip(1),
    ensures
        parsed is Help <==> request is Help,
        parsed is Refused <==> request is Refused,
        parsed matches Parsed::Refused(said) ==> request->Refused_0@ == said@,
        parsed matches Parsed::Run(same) ==> {
            let now = request->Run_0;
            &&& now.config@ == same.config@
            &&& now.successor@ == same.successor@
        },
{
}

/// What stands behind the word `promote` is read as the arguments of that command.
pub proof fn law_promote_reads_the_other_words(
    arguments: &[String],
    rest: &[String],
    request: Parsed<PromoteCommand>,
    parsed: Parsed<PromoteCommand>,
)
    requires
        call_ensures(dispatch, (arguments,), Request::Promote(request)),
        call_ensures(parse_promote_args, (rest,), parsed),
        arguments@.len() >= 1,
        arguments_view(rest@) == arguments_view(arguments@).skip(1),
    ensures
        parsed is Help <==> request is Help,
        parsed is Refused <==> request is Refused,
        parsed matches Parsed::Refused(said) ==> request->Refused_0@ == said@,
        parsed matches Parsed::Run(same) ==> {
            let now = request->Run_0;
            &&& now.config@ == same.config@
            &&& now.candidate_term == same.candidate_term
            &&& optional(now.assignment) == optional(same.assignment)
        },
{
}

/// What stands behind the word `directory` is read as the arguments of that command.
pub proof fn law_directory_reads_the_other_words(
    arguments: &[String],
    rest: &[String],
    request: Parsed<DirectoryRequest>,
    parsed: Parsed<DirectoryRequest>,
)
    requires
        call_ensures(dispatch, (arguments,), Request::Directory(request)),
        call_ensures(parse_directory_args, (rest,), parsed),
        arguments@.len() >= 1,
        arguments_view(rest@) == arguments_view(arguments@).skip(1),
    ensures
        parsed is Help <==> request is Help,
        parsed is Refused <==> request is Refused,
        parsed matches Parsed::Refused(said) ==> request->Refused_0@ == said@,
        parsed matches Parsed::Run(same) ==> {
            let now = request->Run_0;
            &&& now.config@ == same.config@
            &&& optional(now.canon) == optional(same.canon)
            &&& optional(now.verse) == optional(same.verse)
        },
{
}

/// What stands behind the word `doctor` is read as the arguments of that command.
pub proof fn law_doctor_reads_the_other_words(
    arguments: &[String],
    rest: &[String],
    request: Parsed<DoctorRequest>,
    parsed: Parsed<DoctorRequest>,
)
    requires
        call_ensures(dispatch, (arguments,), Request::Doctor(request)),
        call_ensures(parse_doctor_args, (rest,), parsed),
        arguments@.len() >= 1,
        arguments_view(rest@) == arguments_view(arguments@).skip(1),
    ensures
        parsed is Help <==> request is Help,
        parsed is Refused <==> request is Refused,
        parsed matches Parsed::Refused(said) ==> request->Refused_0@ == said@,
        parsed matches Parsed::Run(same) ==> {
            let now = request->Run_0;
            &&& now.config@ == same.config@
            &&& now.format == same.format
        },
{
}

/// What stands behind the word `produce-lab` is read as the arguments of that command.
pub proof fn law_produce_lab_reads_the_other_words(
    arguments: &[String],
    rest: &[String],
    request: Parsed<ProduceLabRequest>,
    parsed: Parsed<ProduceLabRequest>,
)
    requires
        call_ensures(dispatch, (arguments,), Request::ProduceLab(request)),
        call_ensures(parse_produce_lab_args, (rest,), parsed),
        arguments@.len() >= 1,
        arguments_view(rest@) == arguments_view(arguments@).skip(1),
    ensures
        parsed is Help <==> request is Help,
        parsed is Refused <==> request is Refused,
        parsed matches Parsed::Refused(said) ==> request->Refused_0@ == said@,
        parsed matches Parsed::Run(same) ==> {
            let now = request->Run_0;
            &&& now.config@ == same.config@
            &&& now.options.canon@ == same.options.canon@
            &&& now.options.verse@ == same.options.verse@
            &&& now.options.workers == same.options.workers
            &&& now.options.per_worker == same.options.per_worker
            &&& now.options.payload_bytes == same.options.payload_bytes
            &&& now.options.records_per_submission == same.options.records_per_submission
        },
{
}

/// What stands behind the word `consume` is read as the arguments of that command.
pub proof fn law_consume_reads_the_other_words(
    arguments: &[String],
    rest: &[String],
    request: Parsed<ConsumeRequest>,
    parsed: Parsed<ConsumeRequest>,
)
    requires
        call_ensures(dispatch, (arguments,), Request::Consume(request)),
        call_ensures(parse_consume_args, (rest,), parsed),
        arguments@.len() >= 1,
        arguments_view(rest@) == arguments_view(arguments@).skip(1),
    ensures
        parsed is Help <==> request is Help,
        parsed is Refused <==> request is Refused,
        parsed matches Parsed::Refused(said) ==> request->Refused_0@ == said@,
        parsed matches Parsed::Run(same) ==> {
            let now = request->Run_0;
            &&& now.config@ == same.config@
            &&& now.options.canon@ == same.options.canon@
            &&& now.options.verse@ == same.options.verse@
            &&& now.options.from == same.options.from
            &&& now.options.until_records == same.options.until_records
            &&& now.options.seconds == same.options.seconds
            &&& now.options.format == same.options.format
            &&& now.options.no_follow == same.options.no_follow
        },
{
}

/// What stands behind the word `consume-lab` is read as the arguments of that command.
pub proof fn law_consume_lab_reads_the_other_words(
    arguments: &[String],
    rest: &[String],
    request: Parsed<ConsumeLabRequest>,
    parsed: Parsed<ConsumeLabRequest>,
)
    requires
        call_ensures(dispatch, (arguments,), Request::ConsumeLab(request)),
        call_ensures(parse_consume_lab_args, (rest,), parsed),
        arguments@.len() >= 1,
        arguments_view(rest@) == arguments_view(arguments@).skip(1),
    ensures
        parsed is Help <==> request is Help,
        parsed is Refused <==> request is Refused,
        parsed matches Parsed::Refused(said) ==> request->Refused_0@ == said@,
        parsed matches Parsed::Run(same) ==> {
            let now = request->Run_0;
            &&& now.config@ == same.config@
            &&& now.options.canon@ == same.options.canon@
            &&& now.options.verse@ == same.options.verse@
            &&& now.options.seconds == same.options.seconds
            &&& now.options.until_records == same.options.until_records
        },
{
}

/// What stands behind the words `scribe run` are read as the arguments of that command.
pub proof fn law_scribe_run_reads_the_other_words(
    arguments: &[String],
    rest: &[String],
    request: Parsed<ScribeRunRequest>,
    parsed: Parsed<ScribeRunRequest>,
)
    requires
        call_ensures(dispatch, (arguments,), Request::ScribeRun(request)),
        call_ensures(parse_scribe_run_args, (rest,), parsed),
        arguments@.len() >= 2,
        arguments_view(rest@) == arguments_view(arguments@).skip(2),
    ensures
        parsed is Help <==> request is Help,
        parsed is Refused <==> request is Refused,
        parsed matches Parsed::Refused(said) ==> request->Refused_0@ == said@,
        parsed matches Parsed::Run(same) ==> {
            let now = request->Run_0;
            &&& now.config@ == same.config@
            &&& now.peer_grace_ms == same.peer_grace_ms
            &&& now.initial_term == same.initial_term
        },
{
    let words = arguments_view(arguments@);
    assert(words.skip(1).skip(1) =~= words.skip(2));
}

/// Behind `validate` and behind `serve` stands the config, and without it they are refused.
pub proof fn law_validate_and_serve_read_the_other_words(
    arguments: &[String],
    request: Parsed<String>,
    config: Seq<char>,
)
    requires
        call_ensures(dispatch, (arguments,), Request::Validate(request)) || call_ensures(
            dispatch,
            (arguments,),
            Request::Serve(request),
        ),
        arguments@.len() >= 1,
    ensures
        arguments_view(arguments@).skip(1) == seq!["--config"@, config] ==> (request
            matches Parsed::Run(now) && now@ == config),
        arguments@.len() == 1 ==> request is Refused && request->Refused_0@ == arguments@[0]@
            + " requires --config PATH"@,
{
    let words = arguments_view(arguments@);
    assert(words[0] == arguments@[0]@);
    if call_ensures(dispatch, (arguments,), Request::Validate(request)) {
        lemma_config_only(request, words.skip(1), "validate"@, config);
    } else {
        lemma_config_only(request, words.skip(1), "serve"@, config);
    }
}

} // verus!
