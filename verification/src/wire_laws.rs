//! What holds of the lines and options of the wire client and of the rsyslog helper.
use crate::args::{
    arguments_view, law_a_flag_fills_its_place, law_arguments_are_read_one_after_the_other,
    law_values_are_taken_as_written, lemma_scan_with_keeps_places, no_values, taken,
    ScanView, ValueView,
};
use crate::config_laws::{lemma_sixteen_ascii, sixteen_ascii};
use crate::ids::ProducerId;
use crate::text::{decimal, parsed_number};
use crate::text_laws::{
    differ_behind, lemma_differ_first, lemma_differ_here, lemma_differ_then,
    lemma_differ_then_four, lemma_differ_then_two,
};
use crate::wire::{
    ack_words, client_verdict, committed_verdict, confirmation, declared_frame_length,
    flush_target, matching_ack, omprog_flags, omprog_scan, parse_config, producer_id,
    reply_outcome, spooled_line, target_words, vanished, words_fault, ClientWords, DrainRun,
    FlushRun, FlushStep, OmprogConfig, PendingWireSubmission, ProducerClientError,
    ProducerWireClient, ProducerWireFrame, SubmitOutcome, OMPROG_USAGE,
};
use vstd::prelude::*;
use vstd::utf8::encode_utf8;

verus! {

/// Two acknowledgement lines that differ in one thing alone differ only under its key.
pub proof fn law_acknowledgements_name_what_they_show(
    word: Seq<char>,
    epoch: nat,
    sequence: nat,
    first: nat,
    next: nat,
    other_word: Seq<char>,
    other: nat,
)
    ensures
        differ_behind(
            ack_words(word, epoch, sequence, first, next),
            ack_words(other_word, epoch, sequence, first, next),
            "{\"verdict\":\""@,
            word,
            other_word,
        ),
        differ_behind(
            ack_words(word, epoch, sequence, first, next),
            ack_words(word, other, sequence, first, next),
            "\",\"epoch\":"@,
            decimal(epoch),
            decimal(other),
        ),
        differ_behind(
            ack_words(word, epoch, sequence, first, next),
            ack_words(word, epoch, other, first, next),
            ",\"sequence\":"@,
            decimal(sequence),
            decimal(other),
        ),
        differ_behind(
            ack_words(word, epoch, sequence, first, next),
            ack_words(word, epoch, sequence, other, next),
            ",\"first_offset\":"@,
            decimal(first),
            decimal(other),
        ),
        differ_behind(
            ack_words(word, epoch, sequence, first, next),
            ack_words(word, epoch, sequence, first, other),
            ",\"next_offset\":"@,
            decimal(next),
            decimal(other),
        ),
{
    lemma_differ_first("{\"verdict\":\""@, word, other_word);
    let one = "{\"verdict\":\""@ + word;
    let other_one = "{\"verdict\":\""@ + other_word;
    lemma_differ_then_four(
        one,
        other_one,
        "{\"verdict\":\""@,
        word,
        other_word,
        "\",\"epoch\":"@,
        decimal(epoch),
        ",\"sequence\":"@,
        decimal(sequence),
    );
    let one = one + "\",\"epoch\":"@ + decimal(epoch) + ",\"sequence\":"@ + decimal(sequence);
    let other_one = other_one + "\",\"epoch\":"@ + decimal(epoch) + ",\"sequence\":"@
        + decimal(sequence);
    lemma_differ_then_four(
        one,
        other_one,
        "{\"verdict\":\""@,
        word,
        other_word,
        ",\"first_offset\":"@,
        decimal(first),
        ",\"next_offset\":"@,
        decimal(next),
    );
    let one = one + ",\"first_offset\":"@ + decimal(first) + ",\"next_offset\":"@ + decimal(next);
    let other_one = other_one + ",\"first_offset\":"@ + decimal(first) + ",\"next_offset\":"@
        + decimal(next);
    lemma_differ_then(one, other_one, "{\"verdict\":\""@, word, other_word, "}"@);
    lemma_differ_here("{\"verdict\":\""@ + word, "\",\"epoch\":"@, decimal(epoch), decimal(other));
    let one = "{\"verdict\":\""@ + word + "\",\"epoch\":"@ + decimal(epoch);
    let other_one = "{\"verdict\":\""@ + word + "\",\"epoch\":"@ + decimal(other);
    lemma_differ_then_four(
        one,
        other_one,
        "\",\"epoch\":"@,
        decimal(epoch),
        decimal(other),
        ",\"sequence\":"@,
        decimal(sequence),
        ",\"first_offset\":"@,
        decimal(first),
    );
    let one = one + ",\"sequence\":"@ + decimal(sequence) + ",\"first_offset\":"@ + decimal(first);
    let other_one = other_one + ",\"sequence\":"@ + decimal(sequence) + ",\"first_offset\":"@
        + decimal(first);
    lemma_differ_then_two(
        one,
        other_one,
        "\",\"epoch\":"@,
        decimal(epoch),
        decimal(other),
        ",\"next_offset\":"@,
        decimal(next),
    );
    let one = one + ",\"next_offset\":"@ + decimal(next);
    let other_one = other_one + ",\"next_offset\":"@ + decimal(next);
    lemma_differ_then(one, other_one, "\",\"epoch\":"@, decimal(epoch), decimal(other), "}"@);
    lemma_differ_here(
        "{\"verdict\":\""@ + word + "\",\"epoch\":"@ + decimal(epoch),
        ",\"sequence\":"@,
        decimal(sequence),
        decimal(other),
    );
    let one = "{\"verdict\":\""@ + word + "\",\"epoch\":"@ + decimal(epoch) + ",\"sequence\":"@
        + decimal(sequence);
    let other_one = "{\"verdict\":\""@ + word + "\",\"epoch\":"@ + decimal(epoch)
        + ",\"sequence\":"@ + decimal(other);
    lemma_differ_then_four(
        one,
        other_one,
        ",\"sequence\":"@,
        decimal(sequence),
        decimal(other),
        ",\"first_offset\":"@,
        decimal(first),
        ",\"next_offset\":"@,
        decimal(next),
    );
    let one = one + ",\"first_offset\":"@ + decimal(first) + ",\"next_offset\":"@ + decimal(next);
    let other_one = other_one + ",\"first_offset\":"@ + decimal(first) + ",\"next_offset\":"@
        + decimal(next);
    lemma_differ_then(one, other_one, ",\"sequence\":"@, decimal(sequence), decimal(other), "}"@);
    lemma_differ_here(
        "{\"verdict\":\""@ + word + "\",\"epoch\":"@ + decimal(epoch) + ",\"sequence\":"@
            + decimal(sequence),
        ",\"first_offset\":"@,
        decimal(first),
        decimal(other),
    );
    let one = "{\"verdict\":\""@ + word + "\",\"epoch\":"@ + decimal(epoch) + ",\"sequence\":"@
        + decimal(sequence) + ",\"first_offset\":"@ + decimal(first);
    let other_one = "{\"verdict\":\""@ + word + "\",\"epoch\":"@ + decimal(epoch)
        + ",\"sequence\":"@ + decimal(sequence) + ",\"first_offset\":"@ + decimal(other);
    lemma_differ_then_two(
        one,
        other_one,
        ",\"first_offset\":"@,
        decimal(first),
        decimal(other),
        ",\"next_offset\":"@,
        decimal(next),
    );
    let one = one + ",\"next_offset\":"@ + decimal(next);
    let other_one = other_one + ",\"next_offset\":"@ + decimal(next);
    lemma_differ_then(one, other_one, ",\"first_offset\":"@, decimal(first), decimal(other), "}"@);
    lemma_differ_here(
        "{\"verdict\":\""@ + word + "\",\"epoch\":"@ + decimal(epoch) + ",\"sequence\":"@
            + decimal(sequence) + ",\"first_offset\":"@ + decimal(first),
        ",\"next_offset\":"@,
        decimal(next),
        decimal(other),
    );
    let one = "{\"verdict\":\""@ + word + "\",\"epoch\":"@ + decimal(epoch) + ",\"sequence\":"@
        + decimal(sequence) + ",\"first_offset\":"@ + decimal(first) + ",\"next_offset\":"@
        + decimal(next);
    let other_one = "{\"verdict\":\""@ + word + "\",\"epoch\":"@ + decimal(epoch)
        + ",\"sequence\":"@ + decimal(sequence) + ",\"first_offset\":"@ + decimal(first)
        + ",\"next_offset\":"@ + decimal(other);
    lemma_differ_then(one, other_one, ",\"next_offset\":"@, decimal(next), decimal(other), "}"@);
}

/// What is said of a spooled submission names its epoch and its sequence.
pub proof fn law_spooled_lines_name_their_submission(
    epoch: u32,
    sequence: u64,
    other_epoch: u32,
    other: u64,
    line: String,
    by_epoch: String,
    by_sequence: String,
)
    requires
        call_ensures(spooled_line, (epoch, sequence), line),
        call_ensures(spooled_line, (other_epoch, sequence), by_epoch),
        call_ensures(spooled_line, (epoch, other), by_sequence),
    ensures
        differ_behind(
            line@,
            by_epoch@,
            "{\"verdict\":\"spooled\",\"epoch\":"@,
            decimal(epoch as nat),
            decimal(other_epoch as nat),
        ),
        differ_behind(
            line@,
            by_sequence@,
            ",\"sequence\":"@,
            decimal(sequence as nat),
            decimal(other as nat),
        ),
{
    lemma_differ_first(
        "{\"verdict\":\"spooled\",\"epoch\":"@,
        decimal(epoch as nat),
        decimal(other_epoch as nat),
    );
    let one = "{\"verdict\":\"spooled\",\"epoch\":"@ + decimal(epoch as nat);
    let other_one = "{\"verdict\":\"spooled\",\"epoch\":"@ + decimal(other_epoch as nat);
    lemma_differ_then_two(
        one,
        other_one,
        "{\"verdict\":\"spooled\",\"epoch\":"@,
        decimal(epoch as nat),
        decimal(other_epoch as nat),
        ",\"sequence\":"@,
        decimal(sequence as nat),
    );
    let one = one + ",\"sequence\":"@ + decimal(sequence as nat);
    let other_one = other_one + ",\"sequence\":"@ + decimal(sequence as nat);
    lemma_differ_then(
        one,
        other_one,
        "{\"verdict\":\"spooled\",\"epoch\":"@,
        decimal(epoch as nat),
        decimal(other_epoch as nat),
        "}"@,
    );
    lemma_differ_here(
        "{\"verdict\":\"spooled\",\"epoch\":"@ + decimal(epoch as nat),
        ",\"sequence\":"@,
        decimal(sequence as nat),
        decimal(other as nat),
    );
    let one = "{\"verdict\":\"spooled\",\"epoch\":"@ + decimal(epoch as nat) + ",\"sequence\":"@
        + decimal(sequence as nat);
    let other_one = "{\"verdict\":\"spooled\",\"epoch\":"@ + decimal(epoch as nat)
        + ",\"sequence\":"@ + decimal(other as nat);
    lemma_differ_then(
        one,
        other_one,
        ",\"sequence\":"@,
        decimal(sequence as nat),
        decimal(other as nat),
        "}"@,
    );
}

/// A target names the Journal and the Verse.
pub proof fn law_targets_name_journal_and_verse(
    journal: Seq<char>,
    verse: Seq<char>,
    other: Seq<char>,
)
    ensures
        differ_behind(
            target_words(journal, verse),
            target_words(other, verse),
            "canon/"@,
            journal,
            other,
        ),
        differ_behind(
            target_words(journal, verse),
            target_words(journal, other),
            "/verse/"@,
            verse,
            other,
        ),
{
    lemma_differ_first("canon/"@, journal, other);
    let one = "canon/"@ + journal;
    let other_one = "canon/"@ + other;
    lemma_differ_then_two(one, other_one, "canon/"@, journal, other, "/verse/"@, verse);
    lemma_differ_here("canon/"@ + journal, "/verse/"@, verse, other);
    let one = "canon/"@ + journal + "/verse/"@ + verse;
    let other_one = "canon/"@ + journal + "/verse/"@ + other;
}

/// The one submission is reported as acknowledged, or as committed where it was spooled, exactly
/// where the acknowledgement is its own; whatever else comes is an error.
pub proof fn law_own_acknowledgements_are_reported(
    frame: ProducerWireFrame,
    epoch: u32,
    sequence: u64,
    verdict: Result<String, String>,
    spooled: Result<String, String>,
)
    requires
        call_ensures(client_verdict, (frame, epoch, sequence), verdict),
        call_ensures(committed_verdict, (frame, epoch, sequence), spooled),
    ensures
        verdict is Ok <==> frame is Ack && frame->Ack_producer_epoch == epoch
            && frame->Ack_sequence == sequence,
        spooled is Ok <==> verdict is Ok,
        verdict is Ok ==> differ_behind(
            verdict->Ok_0@,
            spooled->Ok_0@,
            "{\"verdict\":\""@,
            "ack"@,
            "committed"@,
        ),
{
    if let ProducerWireFrame::Ack { first_offset, next_offset, .. } = frame {
        law_acknowledgements_name_what_they_show(
            "ack"@,
            epoch as nat,
            sequence as nat,
            first_offset as nat,
            next_offset as nat,
            "committed"@,
            0,
        );
    }
}

/// An error names where it comes from and gives its source.
pub proof fn law_client_errors_name_their_source(source: String)
    ensures
        ProducerClientError::Outbox(source).words() == "producer outbox: "@ + source@,
        ProducerClientError::Wire(source).words() == "producer-wire: "@ + source@,
{
}

/// Client words make a request exactly where there are three to six of them, an outbox comes
/// with its target and never with a config, the port, the epoch and the sequence are numbers of
/// their size, the producer is sixteen ASCII characters, and the epoch is not zero.
pub proof fn law_sound_client_words_make_a_request(words: ClientWords)
    ensures
        words_fault(words) is None <==> {
            let count = words.positional.len();
            &&& 3 <= count <= 6
            &&& words.outbox is Some <==> words.target is Some
            &&& words.config is None || words.outbox is None
            &&& parsed_number(words.positional[1], 0xffff) is Some
            &&& sixteen_ascii(
                if count > 3 {
                    words.positional[3]
                } else {
                    "producer-rust-01"@
                },
            )
            &&& count > 4 ==> parsed_number(words.positional[4], 0xffff_ffff) is Some
                && parsed_number(words.positional[4], 0xffff_ffff)->0 > 0
            &&& count > 5 ==> parsed_number(words.positional[5], 0xffff_ffff_ffff_ffff) is Some
        },
{
    let count = words.positional.len();
    lemma_sixteen_ascii("producer-rust-01"@);
    if count > 3 {
        lemma_sixteen_ascii(words.positional[3]);
    }
}

/// Client words with one thing wrong are told which: the producer or the epoch.
pub proof fn law_client_words_are_told_what_is_wrong(words: ClientWords)
    requires
        words.positional.len() == 5,
        words.outbox is None && words.target is None,
        parsed_number(words.positional[1], 0xffff) is Some,
        parsed_number(words.positional[4], 0xffff_ffff) is Some,
    ensures
        !sixteen_ascii(words.positional[3]) ==> words_fault(words) == Some(
            "PRODUCER_ID must be exactly 16 ASCII bytes"@,
        ),
        sixteen_ascii(words.positional[3]) && parsed_number(words.positional[4], 0xffff_ffff)
            == Some(0nat) ==> words_fault(words) == Some("EPOCH must be nonzero"@),
{
    lemma_sixteen_ascii(words.positional[3]);
}

/// A flag of the rsyslog helper and its value behind other arguments fill the place of its rule.
proof fn lemma_option(
    arguments: Seq<Seq<char>>,
    flag: Seq<char>,
    text: Seq<char>,
    value: ValueView,
    at: int,
    values: Seq<Option<ValueView>>,
)
    requires
        omprog_scan(arguments) == ScanView::Given(values),
        0 <= at < 5,
        omprog_flags()[at].flag@ == flag,
        forall|i: int| 0 <= i < at ==> (#[trigger] omprog_flags()[i]).flag@ != flag,
        taken(omprog_flags()[at].kind, text) == Ok::<_, Seq<char>>(value),
    ensures
        omprog_scan(arguments + seq![flag, text]) == ScanView::Given(
            values.update(at, Some(value)),
        ),
{
    let rules = omprog_flags();
    law_arguments_are_read_one_after_the_other(
        arguments,
        seq![flag, text],
        rules,
        OMPROG_USAGE@,
        false,
        no_values(rules.len()),
    );
    law_a_flag_fills_its_place(flag, text, rules, at, OMPROG_USAGE@, false, values);
}

/// A flag behind the arguments of the rsyslog helper sets its own option and leaves the others.
#[verifier::spinoff_prover]
#[verifier::rlimit(60)]
pub proof fn law_helper_flags_set_their_options(
    given: &[String],
    more: &[String],
    config: OmprogConfig,
    parsed: Result<OmprogConfig, String>,
    text: Seq<char>,
    number: u32,
)
    requires
        call_ensures(parse_config, (given,), Ok(config)),
        call_ensures(parse_config, (more,), parsed),
    ensures
        arguments_view(more@) == arguments_view(given@) + seq!["--scribe"@, text] ==> (parsed matches Ok(now)
            && now.scribe@ == text && now.outbox@ == config.outbox@
                && now.target@ == config.target@ && now.producer_id@ == config.producer_id@
                && now.epoch == config.epoch),
        arguments_view(more@) == arguments_view(given@) + seq!["--outbox"@, text] ==> (parsed matches Ok(now)
            && now.outbox@ == text && now.scribe@ == config.scribe@
                && now.target@ == config.target@ && now.producer_id@ == config.producer_id@
                && now.epoch == config.epoch),
        arguments_view(more@) == arguments_view(given@) + seq!["--target"@, text] ==> (parsed matches Ok(now)
            && now.target@ == text && now.scribe@ == config.scribe@
                && now.outbox@ == config.outbox@ && now.producer_id@ == config.producer_id@
                && now.epoch == config.epoch),
        arguments_view(more@) == arguments_view(given@) + seq!["--producer-id"@, text]
            && sixteen_ascii(text)
            ==> (parsed matches Ok(now) && now.producer_id@ == encode_utf8(text) && now.scribe@ == config.scribe@ && now.outbox@ == config.outbox@ && now.target@ == config.target@ && now.epoch == config.epoch),
        arguments_view(more@) == arguments_view(given@) + seq!["--epoch"@, decimal(number as nat)]
            && number
            > 0
                ==> (parsed matches Ok(now) && now.epoch == number
                && now.scribe@ == config.scribe@ && now.outbox@ == config.outbox@
                && now.target@ == config.target@ && now.producer_id@ == config.producer_id@),
{
    reveal_strlit("--scribe");
    reveal_strlit("--outbox");
    reveal_strlit("--target");
    reveal_strlit("--producer-id");
    reveal_strlit("--epoch");
    assert("--scribe"@.len() == 8 && "--outbox"@.len() == 8 && "--target"@.len() == 8
        && "--producer-id"@.len() == 13 && "--epoch"@.len() == 7);
    assert("--scribe"@[2] == 's' && "--outbox"@[2] == 'o');
    assert("--scribe"@[2] == 's' && "--target"@[2] == 't');
    assert("--outbox"@[2] == 'o' && "--target"@[2] == 't');
    let rules = omprog_flags();
    let arguments = arguments_view(given@);
    lemma_scan_with_keeps_places(arguments, rules, OMPROG_USAGE@, false, no_values(rules.len()));
    let values = omprog_scan(arguments)->Given_0;
    lemma_sixteen_ascii(text);
    law_values_are_taken_as_written(rules[4].kind, number as nat, text);
    if arguments_view(more@) == arguments + seq!["--scribe"@, text] {
        lemma_option(arguments, "--scribe"@, text, ValueView::Text(text), 0, values);
    }
    if arguments_view(more@) == arguments + seq!["--outbox"@, text] {
        lemma_option(arguments, "--outbox"@, text, ValueView::Text(text), 1, values);
    }
    if arguments_view(more@) == arguments + seq!["--target"@, text] {
        lemma_option(arguments, "--target"@, text, ValueView::Text(text), 2, values);
    }
    if arguments_view(more@) == arguments + seq!["--producer-id"@, text] {
        lemma_option(arguments, "--producer-id"@, text, ValueView::Text(text), 3, values);
    }
    if arguments_view(more@) == arguments + seq!["--epoch"@, decimal(number as nat)] {
        lemma_option(
            arguments,
            "--epoch"@,
            decimal(number as nat),
            ValueView::Short(number),
            4,
            values,
        );
    }
}

/// The rsyslog helper runs with its four required options, in the first epoch.
#[verifier::spinoff_prover]
#[verifier::rlimit(60)]
pub proof fn law_helper_has_its_defaults(
    given: &[String],
    parsed: Result<OmprogConfig, String>,
    scribe: Seq<char>,
    outbox: Seq<char>,
    target: Seq<char>,
    producer: Seq<char>,
)
    requires
        call_ensures(parse_config, (given,), parsed),
        sixteen_ascii(producer),
    ensures
        arguments_view(given@) == seq![
            "--scribe"@,
            scribe,
            "--outbox"@,
            outbox,
            "--target"@,
            target,
            "--producer-id"@,
            producer,
        ] ==> (parsed matches Ok(now) && now.scribe@ == scribe && now.outbox@ == outbox
            && now.target@ == target && now.producer_id@ == encode_utf8(producer) && now.epoch
            == 1),
        arguments_view(given@).len() == 0 ==> parsed is Err,
{
    reveal_strlit("--scribe");
    reveal_strlit("--outbox");
    reveal_strlit("--target");
    reveal_strlit("--producer-id");
    reveal_strlit("--epoch");
    assert("--scribe"@.len() == 8 && "--outbox"@.len() == 8 && "--target"@.len() == 8
        && "--producer-id"@.len() == 13 && "--epoch"@.len() == 7);
    assert("--scribe"@[2] == 's' && "--outbox"@[2] == 'o');
    assert("--scribe"@[2] == 's' && "--target"@[2] == 't');
    assert("--outbox"@[2] == 'o' && "--target"@[2] == 't');
    let none = Seq::<Seq<char>>::empty();
    let values = no_values(5);
    lemma_sixteen_ascii(producer);
    if arguments_view(given@).len() == 0 {
        assert(arguments_view(given@) =~= none);
    }
    assert(omprog_flags().len() == 5);
    assert(omprog_scan(none) == ScanView::Given(values));
    lemma_option(none, "--scribe"@, scribe, ValueView::Text(scribe), 0, values);
    let first = none + seq!["--scribe"@, scribe];
    let values = values.update(0, Some(ValueView::Text(scribe)));
    lemma_option(first, "--outbox"@, outbox, ValueView::Text(outbox), 1, values);
    let second = first + seq!["--outbox"@, outbox];
    let values = values.update(1, Some(ValueView::Text(outbox)));
    lemma_option(second, "--target"@, target, ValueView::Text(target), 2, values);
    let third = second + seq!["--target"@, target];
    let values = values.update(2, Some(ValueView::Text(target)));
    lemma_option(third, "--producer-id"@, producer, ValueView::Text(producer), 3, values);
    assert(third + seq!["--producer-id"@, producer] =~= seq![
        "--scribe"@,
        scribe,
        "--outbox"@,
        outbox,
        "--target"@,
        target,
        "--producer-id"@,
        producer,
    ]);
}

/// A declared frame is read with its four bytes of length where it is not longer than allowed.
pub proof fn law_declared_lengths_are_bounded(
    prefix: [u8; 4],
    most: usize,
    length: Option<usize>,
)
    requires
        call_ensures(declared_frame_length, (&prefix, most), length),
        most <= usize::MAX - 4,
    ensures
        ({
            let declared = prefix@[0] * 0x100_0000 + prefix@[1] * 0x1_0000 + prefix@[2] * 0x100
                + prefix@[3];
            &&& length is Some <==> declared <= most
            &&& length matches Some(found) ==> found == declared + 4
        }),
{
}

/// A flush goes up to the last that is pending; each committed one is marked, the wanted one as
/// the last, and anything else stops it.
pub proof fn law_flushes_mark_what_is_committed(
    pending: Vec<u64>,
    last: Option<u64>,
    run: &mut FlushRun,
    outcome: SubmitOutcome,
    step: FlushStep,
)
    requires
        call_ensures(flush_target, (&pending,), last),
        call_ensures(FlushRun::settle, (run, outcome), step),
        old(run)@.next() is Some,
    ensures
        pending@.len() == 0 <==> last is None,
        last matches Some(found) ==> found == pending@[pending@.len() - 1],
        step is Stop <==> !(outcome is Committed),
        step matches FlushStep::Stop(said) ==> said == outcome,
        outcome matches SubmitOutcome::Committed(receipt) ==> (step == FlushStep::MarkLast(receipt)
            <==> receipt.sequence == old(run)@.wanted),
        outcome matches SubmitOutcome::Committed(receipt) ==> step == FlushStep::MarkLast(receipt)
            || step == FlushStep::Mark(receipt),
{
}

/// A drain confirms its submissions one by one, in their order, each by a range of its own
/// sequence that is not empty; the first that is not confirmed ends it.
pub proof fn law_drains_confirm_in_order(
    run: &mut DrainRun,
    reply: Result<ProducerWireFrame, String>,
    settled: Result<u64, String>,
)
    requires
        call_ensures(DrainRun::settle, (run, reply), settled),
        old(run).sends(),
        old(run).confirmed < usize::MAX,
    ensures
        ({
            let sequence = old(run).pending@[old(run).confirmed as int].sequence;
            let own = reply is Ok && reply->Ok_0 is Ack && reply->Ok_0->Ack_sequence == sequence
                && reply->Ok_0->first_offset < reply->Ok_0->next_offset;
            &&& settled is Ok <==> own
            &&& settled matches Ok(confirmed) ==> confirmed == sequence
            &&& own ==> final(run).confirmed == old(run).confirmed + 1 && !final(run).ended
            &&& !own ==> final(run).confirmed == old(run).confirmed && final(run).ended
            &&& final(run).pending == old(run).pending
        }),
{
}

/// Rsyslog is told that a line is taken exactly where it was forwarded.
pub proof fn law_forwarded_lines_are_confirmed(forwarded: bool, line: &str)
    requires
        call_ensures(confirmation, (forwarded,), line),
    ensures
        line@ == "OK\n"@ <==> forwarded,
{
    reveal_strlit("OK\n");
    reveal_strlit("DEFER_COMMIT\n");
    assert("OK\n"@.len() == 3 && "DEFER_COMMIT\n"@.len() == 13);
}

/// A new route leaves the client's identity and target as they are.
pub proof fn law_routes_change_nothing_else(client: &mut ProducerWireClient, endpoint: String)
    requires
        call_ensures(ProducerWireClient::retarget, (client, endpoint), ()),
    ensures
        final(client).bound() == old(client).bound(),
        final(client).route() == endpoint@,
{
}

/// A reply commits exactly where it acknowledges this epoch and sequence over some offset, is
/// refused exactly where it is an error, and is uncertain otherwise, over whole calls and for a
/// client's own epoch.
pub proof fn law_replies_over_whole_calls(
    reply: Result<ProducerWireFrame, String>,
    epoch: u32,
    sequence: u64,
    outcome: SubmitOutcome,
    client: ProducerWireClient,
    own: SubmitOutcome,
)
    requires
        call_ensures(reply_outcome, (reply, epoch, sequence), outcome),
        call_ensures(ProducerWireClient::outcome, (&client, reply, sequence), own),
    ensures
        ({
            let acked = reply is Ok && reply->Ok_0 is Ack && reply->Ok_0->Ack_sequence == sequence
                && reply->Ok_0->first_offset < reply->Ok_0->next_offset;
            &&& outcome is Committed <==> acked && reply->Ok_0->Ack_producer_epoch == epoch
            &&& own is Committed <==> acked && reply->Ok_0->Ack_producer_epoch
                == client.bound().producer_epoch
            &&& outcome is Refused <==> reply is Ok && reply->Ok_0 is Error
            &&& own is Refused <==> reply is Ok && reply->Ok_0 is Error
            &&& reply matches Err(failure) ==> outcome is Ambiguous && outcome->Ambiguous_message@
                == failure@
        }),
{
}

/// A pending submission is confirmed exactly by an acknowledgement of its sequence over some
/// offset; an error is passed on with its code and words.
pub proof fn law_matches_over_whole_calls(
    frame: ProducerWireFrame,
    pending: PendingWireSubmission,
    matched: Result<(), String>,
)
    requires
        call_ensures(matching_ack, (frame, &pending), matched),
    ensures
        matched is Ok <==> frame is Ack && frame->Ack_sequence == pending.sequence
            && frame->first_offset < frame->next_offset,
        frame matches ProducerWireFrame::Error { code, message, .. } ==> matched is Err
            && matched->Err_0@ == "Scribe refused pending submission: "@ + code@ + ": "@ + message@,
        frame is Ack && matched is Err ==> matched->Err_0@ == "Scribe ACK identity/range mismatch"@,
        frame matches ProducerWireFrame::Other { rendered } ==> matched is Err && matched->Err_0@
            == "expected Ack/Error, received "@ + rendered@,
{
}

/// A client whose submission was not acknowledged says why: the acknowledgement was another's,
/// the refusal came with its epoch, sequence, code and words, or something else came.
pub proof fn law_refused_verdicts_say_why(
    frame: ProducerWireFrame,
    epoch: u32,
    sequence: u64,
    verdict: Result<String, String>,
)
    requires
        call_ensures(client_verdict, (frame, epoch, sequence), verdict),
    ensures
        frame is Ack && verdict is Err ==> verdict->Err_0@ == "Scribe ACK identity mismatch"@,
        frame matches ProducerWireFrame::Error {
            producer_epoch,
            sequence: refused,
            code,
            message,
        } ==> verdict is Err && verdict->Err_0@ == "Scribe error epoch="@ + decimal(
            producer_epoch as nat,
        ) + " sequence="@ + decimal(refused as nat) + " code="@ + code@ + ": "@ + message@,
        frame matches ProducerWireFrame::Other { rendered } ==> verdict is Err && verdict->Err_0@
            == "expected Ack or Error, got "@ + rendered@,
{
}

/// A producer is named by sixteen ASCII characters.
pub proof fn law_producers_are_sixteen_ascii(
    raw: &str,
    id: Result<ProducerId, String>,
    outcome: SubmitOutcome,
)
    requires
        call_ensures(producer_id, (raw,), id),
        call_ensures(vanished, (), outcome),
    ensures
        id is Ok <==> sixteen_ascii(raw@),
        id matches Ok(found) ==> found@ == encode_utf8(raw@),
        outcome is Ambiguous,
{
    lemma_sixteen_ascii(raw@);
}

} // verus!
