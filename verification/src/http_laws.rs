//! What holds of probes, of admin requests and of their answers.
use crate::http::{
    admin_body, admin_reason, admin_step, admin_step_of, assemble_failed_reply, authority_line,
    authority_lines, candidate_term_in, first_prefixed_line, leading_digits, legacy_ready,
    not_ready_body, parse_candidate_term, probe_answer, probe_path, probe_reason, probe_reply,
    probe_response, promote_gate, promoted_answer, requested_path, second_part,
    standby_disposition, written_reply, AdminStep, AdminStepView, HttpReply, ReplyView,
    StandbyEvent, StandbyState,
};
use crate::text::{
    after_prefix, contains_text, decimal, first_line, first_word, is_digit, is_space,
    law_decimal_digits, parsed_number, text_index, trimmed,
};
use crate::text_laws::{
    all_space, differ_behind, law_a_found_pattern_stands_there_first, law_a_line_is_read_whole,
    law_a_pattern_is_found_where_it_stands, law_a_prefix_and_the_rest_are_the_text,
    law_a_word_is_read_whole, law_numbers_are_read_back, law_trimming_is_done_once,
    lemma_differ_first, lemma_differ_then, lemma_differ_then_four, lemma_differ_then_two,
};
use vstd::prelude::*;
use vstd::utf8::encode_utf8;

verus! {

/// The second word of the request line is the path; without one it is the status.
pub proof fn law_the_second_word_is_the_path(
    method: Seq<char>,
    path: Seq<char>,
    tail: Seq<char>,
    rest: Seq<char>,
)
    requires
        method.len() > 0,
        forall|i: int| 0 <= i < method.len() ==> !is_space(#[trigger] method[i]),
        path.len() > 0,
        forall|i: int| 0 <= i < path.len() ==> !is_space(#[trigger] path[i]),
        tail.len() > 0 ==> tail[0] == ' ' && tail.last() != '\r',
        forall|i: int| 0 <= i < tail.len() ==> #[trigger] tail[i] != '\n',
    ensures
        requested_path(method + seq![' '] + path + tail + seq!['\r', '\n'] + rest) == path,
        requested_path(method) == "/status"@,
        requested_path(Seq::empty()) == "/status"@,
{
    let line = method + seq![' '] + path + tail;
    assert forall|i: int| 0 <= i < line.len() implies #[trigger] line[i] != '\n' by {
        if i < method.len() {
            assert(line[i] == method[i]);
        } else if i == method.len() {
            assert(line[i] == ' ');
        } else if i < method.len() + 1 + path.len() {
            assert(line[i] == path[i - method.len() - 1]);
        } else {
            assert(line[i] == tail[i - method.len() - 1 - path.len()]);
        }
    }
    if tail.len() == 0 {
        assert(line.last() == path.last());
        assert(!is_space(path[path.len() - 1]));
    } else {
        assert(line.last() == tail.last());
    }
    law_a_line_is_read_whole(line, rest);
    let none = Seq::<char>::empty();
    let after = seq![' '] + path + tail;
    assert(line =~= none + method + after);
    law_a_word_is_read_whole(none, method, after);
    assert(all_space(seq![' ']));
    law_a_word_is_read_whole(seq![' '], path, tail);
    assert(none + method + none =~= method);
    law_a_word_is_read_whole(none, method, none);
    assert(first_word(none).0 =~= none);
    assert forall|i: int| 0 <= i < method.len() implies #[trigger] method[i] != '\n' by {
        assert(!is_space(method[i]));
    }
    assert(!is_space(method[method.len() - 1]));
    law_a_line_is_read_whole(method, none);
}

/// Liveness answers success exactly where the process is alive, readiness exactly where it is
/// ready, with the given words where it is not; every other path is answered the status.
pub proof fn law_probes_answer_what_they_ask(
    path: Seq<char>,
    alive: bool,
    ready: bool,
    not_ready: Seq<char>,
    status: Seq<char>,
)
    ensures
        ({
            let answer = probe_answer(path, alive, ready, not_ready, status);
            &&& path == "/livez"@ || path == "/healthz"@ ==> answer.code == (if alive {
                200u16
            } else {
                503u16
            })
            &&& path == "/livez"@ || path == "/healthz"@ ==> answer.body == (if alive {
                "alive\n"@
            } else {
                "not-alive\n"@
            })
            &&& path == "/readyz"@ && ready ==> answer.body == "ready\n"@
            &&& path == "/readyz"@ ==> answer.code == (if ready {
                200u16
            } else {
                503u16
            }) && (!ready ==> answer.body == not_ready)
            &&& path != "/livez"@ && path != "/healthz"@ && path != "/readyz"@ ==> answer.code
                == 200 && answer.body == status
        }),
{
    reveal_strlit("/readyz");
    reveal_strlit("/livez");
    reveal_strlit("/healthz");
    assert("/readyz"@.len() == 7 && "/livez"@.len() == 6 && "/healthz"@.len() == 8);
}

/// One more writer adds one line, which names it and says whether it writes.
pub proof fn law_each_writer_has_its_line(writers: Seq<(Seq<char>, bool)>, id: Seq<char>)
    ensures
        authority_lines(writers.push((id, true))) == authority_lines(writers)
            + "assignment_id="@ + id + " effective_writer=true\n"@,
        authority_lines(writers.push((id, false))) == authority_lines(writers)
            + "assignment_id="@ + id + " effective_writer=false\n"@,
        authority_lines(Seq::empty()).len() == 0,
{
    reveal_strlit(" effective_writer=true\n");
    reveal_strlit(" effective_writer=false\n");
    reveal_strlit(" effective_writer=");
    reveal_strlit("true");
    reveal_strlit("false");
    reveal_strlit("\n");
    assert(writers.push((id, true)).drop_last() =~= writers);
    assert(writers.push((id, false)).drop_last() =~= writers);
    assert(" effective_writer=true\n"@ =~= " effective_writer="@ + "true"@ + "\n"@);
    assert(" effective_writer=false\n"@ =~= " effective_writer="@ + "false"@ + "\n"@);
    let before = authority_lines(writers);
    assert(before + authority_line((id, true)) =~= before + "assignment_id="@ + id
        + " effective_writer=true\n"@);
    assert(before + authority_line((id, false)) =~= before + "assignment_id="@ + id
        + " effective_writer=false\n"@);
}

/// An answer ends its headers, and with them declares how many bytes the body has that follows.
pub proof fn law_answers_declare_their_length(reply: ReplyView, reason: Seq<char>)
    ensures
        exists|head: Seq<char>| #[trigger]
            (head + ("\r\nContent-Length: "@ + decimal(encode_utf8(reply.body).len())
                + "\r\nConnection: close\r\n\r\n"@ + reply.body)) == written_reply(reply, reason),
{
    reveal_strlit("\r\nContent-Type: text/plain\r\nContent-Length: ");
    reveal_strlit("\r\nContent-Type: text/plain");
    reveal_strlit("\r\nContent-Length: ");
    assert("\r\nContent-Type: text/plain\r\nContent-Length: "@ =~= "\r\nContent-Type: text/plain"@
        + "\r\nContent-Length: "@);
    let head = "HTTP/1.1 "@ + decimal(reply.code as nat) + " "@ + reason
        + "\r\nContent-Type: text/plain"@;
    assert(head + ("\r\nContent-Length: "@ + decimal(encode_utf8(reply.body).len())
        + "\r\nConnection: close\r\n\r\n"@ + reply.body) =~= written_reply(reply, reason));
}

/// Answers that differ in their code alone differ only in the number of the status line.
pub proof fn law_answers_start_with_their_code(reply: ReplyView, code: u16, reason: Seq<char>)
    ensures
        differ_behind(
            written_reply(reply, reason),
            written_reply(ReplyView { code, ..reply }, reason),
            "HTTP/1.1 "@,
            decimal(reply.code as nat),
            decimal(code as nat),
        ),
{
    let label = "HTTP/1.1 "@;
    let value = decimal(reply.code as nat);
    let changed = decimal(code as nat);
    let between = "\r\nContent-Type: text/plain\r\nContent-Length: "@;
    let length = decimal(encode_utf8(reply.body).len());
    let end = "\r\nConnection: close\r\n\r\n"@;
    lemma_differ_first(label, value, changed);
    let one = label + value;
    let other = label + changed;
    lemma_differ_then_four(one, other, label, value, changed, " "@, reason, between, length);
    let one = one + " "@ + reason + between + length;
    let other = other + " "@ + reason + between + length;
    lemma_differ_then_two(one, other, label, value, changed, end, reply.body);
}

/// The digits at the start are all that stand there, and nothing else.
pub proof fn law_leading_digits_end_at_the_first_other(text: Seq<char>)
    ensures
        ({
            let digits = leading_digits(text);
            &&& digits.len() <= text.len()
            &&& text.take(digits.len() as int) == digits
            &&& forall|i: int| 0 <= i < digits.len() ==> '0' <= #[trigger] digits[i] <= '9'
            &&& digits.len() < text.len() ==> !('0' <= text[digits.len() as int] <= '9')
        }),
    decreases text.len(),
{
    if text.len() > 0 && is_digit(text[0]) {
        let rest = text.skip(1);
        law_leading_digits_end_at_the_first_other(rest);
        let digits = leading_digits(text);
        let less = leading_digits(rest);
        assert(digits =~= seq![text[0]] + less);
        assert forall|i: int| 0 <= i < digits.len() implies '0' <= #[trigger] digits[i] <= '9' by {
            if i > 0 {
                assert(digits[i] == less[i - 1]);
            }
        }
        assert forall|i: int| 0 <= i < digits.len() implies #[trigger] text.take(
            digits.len() as int,
        )[i] == digits[i] by {
            if i > 0 {
                assert(rest.take(less.len() as int)[i - 1] == less[i - 1]);
            }
        }
        assert(text.take(digits.len() as int) =~= digits);
        if digits.len() < text.len() {
            assert(rest[less.len() as int] == text[digits.len() as int]);
        }
    } else {
        assert(text.take(0) =~= Seq::<char>::empty());
    }
}

proof fn lemma_leading_number(value: nat, rest: Seq<char>)
    requires
        rest.len() > 0 ==> !('0' <= rest[0] <= '9'),
    ensures
        leading_digits(decimal(value) + rest) == decimal(value),
{
    let text = decimal(value) + rest;
    law_leading_digits_end_at_the_first_other(text);
    law_decimal_digits(value);
    let digits = leading_digits(text);
    let length = decimal(value).len();
    if digits.len() < length {
        assert(text[digits.len() as int] == decimal(value)[digits.len() as int]);
    }
    if digits.len() > length {
        assert(digits[length as int] == text.take(digits.len() as int)[length as int]);
        assert(text[length as int] == rest[0]);
    }
    assert(text.take(length as int) =~= decimal(value));
}

/// A body names the term that it is written with, whatever stands behind the number.
pub proof fn law_bodies_name_their_term(term: u64, rest: Seq<char>)
    requires
        rest.len() > 0,
        !('0' <= rest[0] <= '9'),
        !is_space(rest.last()),
    ensures
        candidate_term_in("{\"candidate_term\":"@ + decimal(term as nat) + rest) == Ok::<
            u64,
            Seq<char>,
        >(term),
{
    let prefix = "{\"candidate_term\":"@;
    let text = prefix + decimal(term as nat) + rest;
    reveal_strlit("{\"candidate_term\":");
    assert(text[0] == '{');
    assert(text.last() == rest.last());
    law_trimming_is_done_once(text);
    assert(text =~= prefix + (decimal(term as nat) + rest));
    law_a_prefix_and_the_rest_are_the_text(text, prefix, decimal(term as nat) + rest);
    lemma_leading_number(term as nat, rest);
    law_numbers_are_read_back(term as nat, u64::MAX as nat);
}

/// A term comes only from a body that names one, and a body of whitespace names none.
pub proof fn law_terms_come_from_their_bodies(body: Seq<char>)
    ensures
        candidate_term_in(body) matches Ok(term) ==> {
            let prefix = "{\"candidate_term\":"@;
            &&& trimmed(body).len() > prefix.len()
            &&& trimmed(body).take(prefix.len() as int) == prefix
            &&& parsed_number(
                leading_digits(trimmed(body).skip(prefix.len() as int)),
                u64::MAX as nat,
            ) == Some(term as nat)
        },
        trimmed(body).len() == 0 ==> candidate_term_in(body) == Err::<u64, Seq<char>>(
            "candidate_term required"@,
        ),
        trimmed(body).len() > 0 && !"{\"candidate_term\":"@.is_prefix_of(trimmed(body))
            ==> candidate_term_in(body) == Err::<u64, Seq<char>>(
            "body must be {\"candidate_term\":N}"@,
        ),
        "{\"candidate_term\":"@.is_prefix_of(trimmed(body)) && candidate_term_in(body) is Err
            ==> candidate_term_in(body) == Err::<u64, Seq<char>>(
            "candidate_term must be an integer"@,
        ),
{
    let text = trimmed(body);
    let prefix = "{\"candidate_term\":"@;
    if let Ok(term) = candidate_term_in(body) {
        let rest = after_prefix(text, prefix)->0;
        law_a_prefix_and_the_rest_are_the_text(text, prefix, rest);
        assert(text.take(prefix.len() as int) =~= prefix);
        assert(text.skip(prefix.len() as int) =~= rest);
        law_leading_digits_end_at_the_first_other(rest);
    }
    if prefix.is_prefix_of(text) {
        reveal_strlit("{\"candidate_term\":");
        assert(text.take(prefix.len() as int) =~= prefix);
    }
}

/// Lines are looked through from the first: one that has the prefix gives what follows it,
/// trimmed, and any other is passed over.
pub proof fn law_the_first_prefixed_line_counts(
    line: Seq<char>,
    rest: Seq<char>,
    prefix: Seq<char>,
    value: Seq<char>,
)
    requires
        forall|i: int| 0 <= i < line.len() ==> #[trigger] line[i] != '\n',
        line.len() > 0 ==> line.last() != '\r',
    ensures
        line == prefix + value ==> first_prefixed_line(line + seq!['\r', '\n'] + rest, prefix)
            == Some(trimmed(value)),
        after_prefix(line, prefix) is None ==> first_prefixed_line(
            line + seq!['\r', '\n'] + rest,
            prefix,
        ) == first_prefixed_line(rest, prefix),
        first_prefixed_line(Seq::empty(), prefix) is None,
{
    law_a_line_is_read_whole(line, rest);
    law_a_prefix_and_the_rest_are_the_text(line, prefix, value);
}

/// The second part stands behind the first separator and reaches to the next one, or to the
/// end.
pub proof fn law_the_second_part_stands_between_separators(
    text: Seq<char>,
    separator: Seq<char>,
)
    requires
        separator.len() > 0,
    ensures
        second_part(text, separator) is Some <==> contains_text(text, separator),
        second_part(text, separator) matches Some(part) ==> {
            let start = text_index(text, separator)->0 + separator.len();
            let end = start + part.len();
            &&& end <= text.len()
            &&& text.subrange(start as int, end as int) == part
            &&& end == text.len() || text.subrange(end as int, end + separator.len() as int)
                == separator
        },
{
    law_a_found_pattern_stands_there_first(text, separator);
    if let Some(at) = text_index(text, separator) {
        let start = at as int + separator.len();
        let rest = text.skip(start);
        law_a_found_pattern_stands_there_first(rest, separator);
        match text_index(rest, separator) {
            None => {
                assert(text.subrange(start, text.len() as int) =~= rest);
            },
            Some(end) => {
                let end = end as int;
                assert(text.subrange(start, start + end) =~= rest.take(end));
                assert(text.subrange(start + end, start + end + separator.len()) =~= rest.subrange(
                    end,
                    end + separator.len(),
                ));
            },
        }
    }
}

/// A request to promote as a client writes it.
pub open spec fn promotion(token: Seq<char>, body: Seq<char>) -> Seq<char> {
    "POST /v1/promote HTTP/1.1"@ + seq!['\r', '\n'] + ("Authorization: Bearer "@ + token + seq![
        '\r',
        '\n',
    ] + (seq!['\r', '\n'] + body))
}

#[verifier::spinoff_prover]
#[verifier::rlimit(60)]
proof fn lemma_promotion(token: Seq<char>, body: Seq<char>)
    requires
        token.len() > 0,
        forall|i: int| 0 <= i < token.len() ==> !is_space(#[trigger] token[i]),
        forall|i: int| 0 <= i < body.len() ==> #[trigger] body[i] != '\r',
    ensures
        ({
            let request = promotion(token, body);
            &&& first_line(request).0 == "POST /v1/promote HTTP/1.1"@
            &&& first_prefixed_line(request, "Authorization: Bearer "@) == Some(token)
            &&& admin_body(request) == body
        }),
{
    let request = promotion(token, body);
    let line = "POST /v1/promote HTTP/1.1"@;
    let header = "Authorization: Bearer "@ + token;
    let end = seq!['\r', '\n'] + body;
    reveal_strlit("POST /v1/promote HTTP/1.1");
    reveal_strlit("Authorization: Bearer ");
    reveal_strlit("\r\n\r\n");
    let prefix = "Authorization: Bearer "@;
    law_a_line_is_read_whole(line, header + seq!['\r', '\n'] + end);
    assert(line[0] != prefix[0]);
    if let Some(rest) = after_prefix(line, prefix) {
        law_a_prefix_and_the_rest_are_the_text(line, prefix, rest);
        assert(line[0] == prefix[0]);
    }
    law_the_first_prefixed_line_counts(line, header + seq!['\r', '\n'] + end, prefix, token);
    assert forall|i: int| 0 <= i < header.len() implies #[trigger] header[i] != '\n' && header[i]
        != '\r' by {
        if i >= prefix.len() {
            assert(header[i] == token[i - prefix.len()]);
            assert(!is_space(header[i]));
        } else {
            assert(header[i] == prefix[i]);
        }
    }
    assert(header.last() == header[header.len() - 1]);
    law_the_first_prefixed_line_counts(header, end, prefix, token);
    assert(!is_space(token[0]));
    assert(!is_space(token[token.len() - 1]));
    law_trimming_is_done_once(token);
    let separator = "\r\n\r\n"@;
    let at = (line.len() + 2 + header.len()) as int;
    assert(request.subrange(at, at + 4) =~= separator);
    assert forall|i: int|
        #![trigger request.subrange(i, i + separator.len())]
        0 <= i < at implies request.subrange(i, i + separator.len()) != separator by {
        let found = request.subrange(i, i + separator.len());
        if found == separator {
            assert(found[0] == request[i] && found[2] == request[i + 2]);
            if i < line.len() {
                assert(request[i] == line[i]);
            } else if i == line.len() {
                assert(request[i + 2] == header[0]);
            } else if i == line.len() + 1 {
                assert(request[i] == '\n');
            } else {
                assert(request[i] == header[i - line.len() - 2]);
            }
        }
    }
    law_a_pattern_is_found_where_it_stands(request, separator, at);
    assert(request.skip(at + 4) =~= body);
    law_a_found_pattern_stands_there_first(body, separator);
    if let Some(again) = text_index(body, separator) {
        let found = body.subrange(again as int, again as int + separator.len());
        assert(found[0] == body[again as int]);
    }
}

/// A request to promote with the expected token asks for the term that it names; with any other
/// token the same request is refused as unauthorized.
pub proof fn law_promotions_are_asked_for_with_the_token(
    token: Seq<char>,
    expected: Seq<char>,
    term: u64,
)
    requires
        token.len() > 0,
        forall|i: int| 0 <= i < token.len() ==> !is_space(#[trigger] token[i]),
    ensures
        ({
            let request = promotion(
                token,
                "{\"candidate_term\":"@ + decimal(term as nat) + seq!['}'],
            );
            &&& token == expected ==> admin_step_of(request, expected) == AdminStepView::Promote(
                term,
            )
            &&& token != expected ==> admin_step_of(request, expected) == AdminStepView::Answer(
                ReplyView { code: 401, body: "unauthorized\n"@ },
            )
        }),
{
    let body = "{\"candidate_term\":"@ + decimal(term as nat) + seq!['}'];
    reveal_strlit("{\"candidate_term\":");
    law_decimal_digits(term as nat);
    assert forall|i: int| 0 <= i < body.len() implies #[trigger] body[i] != '\r' by {
        let start = "{\"candidate_term\":"@.len();
        if i < start {
            assert(body[i] == "{\"candidate_term\":"@[i]);
        } else if i < start + decimal(term as nat).len() {
            assert(body[i] == decimal(term as nat)[i - start]);
        }
    }
    lemma_promotion(token, body);
    law_bodies_name_their_term(term, seq!['}']);
    reveal_strlit("POST /v1/promote HTTP/1.1");
    reveal_strlit("POST");
    reveal_strlit("/v1/promote");
    let line = "POST /v1/promote HTTP/1.1"@;
    let none = Seq::<char>::empty();
    let tail = line.skip(16);
    assert(line =~= none + "POST"@ + (seq![' '] + "/v1/promote"@ + tail));
    assert(tail[0] == ' ');
    law_a_word_is_read_whole(none, "POST"@, seq![' '] + "/v1/promote"@ + tail);
    assert(all_space(seq![' ']));
    law_a_word_is_read_whole(seq![' '], "/v1/promote"@, tail);
}

/// An empty admin request is bad, and one for anything but a promotion is not found, whatever
/// stands behind its first two words.
pub proof fn law_other_admin_requests_are_not_found(
    method: Seq<char>,
    path: Seq<char>,
    tail: Seq<char>,
    rest: Seq<char>,
    expected: Seq<char>,
)
    requires
        method.len() > 0,
        forall|i: int| 0 <= i < method.len() ==> !is_space(#[trigger] method[i]),
        path.len() > 0,
        forall|i: int| 0 <= i < path.len() ==> !is_space(#[trigger] path[i]),
        tail.len() > 0 ==> tail[0] == ' ' && tail.last() != '\r',
        forall|i: int| 0 <= i < tail.len() ==> #[trigger] tail[i] != '\n',
    ensures
        admin_step_of(Seq::empty(), expected) == AdminStepView::Answer(
            ReplyView { code: 400, body: "bad request\n"@ },
        ),
        method != "POST"@ || path != "/v1/promote"@ <==> admin_step_of(
            method + seq![' '] + path + tail + seq!['\r', '\n'] + rest,
            expected,
        ) == AdminStepView::Answer(ReplyView { code: 404, body: "not found\n"@ }),
{
    let line = method + seq![' '] + path + tail;
    assert forall|i: int| 0 <= i < line.len() implies #[trigger] line[i] != '\n' by {
        if i < method.len() {
            assert(line[i] == method[i]);
        } else if i == method.len() {
            assert(line[i] == ' ');
        } else if i < method.len() + 1 + path.len() {
            assert(line[i] == path[i - method.len() - 1]);
        } else {
            assert(line[i] == tail[i - method.len() - 1 - path.len()]);
        }
    }
    if tail.len() == 0 {
        assert(line.last() == path.last());
        assert(!is_space(path[path.len() - 1]));
    } else {
        assert(line.last() == tail.last());
    }
    law_a_line_is_read_whole(line, rest);
    let none = Seq::<char>::empty();
    let after = seq![' '] + path + tail;
    assert(line =~= none + method + after);
    law_a_word_is_read_whole(none, method, after);
    assert(all_space(seq![' ']));
    law_a_word_is_read_whole(seq![' '], path, tail);
}

/// A promotion that failed can be asked for again, one that succeeded leaves the node serving,
/// and one that is under way is the only one.
pub proof fn law_promotions_end_in_serving_or_nothing(standby: StandbyState)
    requires
        standby.grants(),
    ensures
        ({
            let asked = standby.after(StandbyEvent::Asked);
            &&& !standby.serving && !standby.in_flight
            &&& asked.in_flight && !asked.serving && !asked.grants()
            &&& asked.after(StandbyEvent::Asked) == asked
            &&& asked.after(StandbyEvent::Settled(false)) == standby
            &&& asked.after(StandbyEvent::Settled(true)) == (StandbyState {
                serving: true,
                in_flight: false,
            })
            &&& !asked.after(StandbyEvent::Settled(true)).grants()
        }),
{
}

/// A promotion that succeeded is answered with success; one that did not gives its reason.
pub proof fn law_refused_promotions_say_why(outcome: Result<(), String>)
    ensures
        promoted_answer(outcome).code == 200 <==> outcome is Ok,
        outcome is Ok ==> promoted_answer(outcome).body == "promoted\n"@,
        outcome matches Err(reason) ==> promoted_answer(outcome).code == 409 && exists|
            head: Seq<char>,
        |
            #![trigger head + reason@]
            head + reason@ + "\n"@ == promoted_answer(outcome).body,
{
    if let Err(reason) = outcome {
        assert("promote refused: "@ + reason@ + "\n"@ == promoted_answer(outcome).body);
    }
}

/// A promotion is refused while one is under way and once the node serves, with the words for
/// it; asking marks one under way, and settling ends it, serving exactly where it succeeded.
pub proof fn law_standbys_are_asked_and_settled(
    asked: &mut StandbyState,
    refused: Option<HttpReply>,
    settled: &mut StandbyState,
    outcome: Result<(), String>,
    answer: HttpReply,
)
    requires
        call_ensures(StandbyState::ask, (asked,), refused),
        call_ensures(StandbyState::settle, (settled, outcome), answer),
    ensures
        refused is None <==> !old(asked).serving && !old(asked).in_flight,
        refused matches Some(reply) ==> reply.code == 409 && (old(asked).serving ==> reply.body@
            == "already serving\n"@) && (!old(asked).serving ==> reply.body@
            == "promote in flight\n"@),
        refused is None ==> final(asked).in_flight && !final(asked).serving,
        refused is Some ==> *final(asked) == *old(asked),
        final(settled).serving <==> old(settled).serving || outcome is Ok,
        !final(settled).in_flight,
        answer.code == (if outcome is Ok {
            200u16
        } else {
            409u16
        }),
{
}

/// A legacy node is ready where it was activated so and serves.
pub proof fn law_readiness_needs_serving(activated: bool, serving: bool, ready: bool)
    requires
        call_ensures(legacy_ready, (activated, serving), ready),
    ensures
        ready <==> activated && serving,
{
}

/// A standby says so until it is promoted, and what is not ready names its disposition.
pub proof fn law_dispositions_are_named(
    standing_by: &str,
    promoted: &str,
    disposition: &str,
    other: &str,
    body: String,
    other_body: String,
)
    requires
        call_ensures(standby_disposition, (false,), standing_by),
        call_ensures(standby_disposition, (true,), promoted),
        call_ensures(not_ready_body, (disposition,), body),
        call_ensures(not_ready_body, (other,), other_body),
    ensures
        standing_by@ == "standby"@,
        promoted@ == "serving-authority"@,
        differ_behind(
            body@,
            other_body@,
            "not-ready disposition="@,
            disposition@,
            other@,
        ),
{
    let label = "not-ready disposition="@;
    lemma_differ_first(label, disposition@, other@);
    lemma_differ_then(
        label + disposition@,
        label + other@,
        label,
        disposition@,
        other@,
        "\n"@,
    );
}

/// An answer is named by its code: success, a bad request, a missing token, a missing path, a
/// conflict, and for every other code an error; a probe that fails is unavailable.
pub proof fn law_answers_are_named_by_their_code(code: u16)
    ensures
        admin_reason(200) == "OK"@ && probe_reason(200) == "OK"@,
        admin_reason(400) == "Bad Request"@,
        admin_reason(401) == "Unauthorized"@,
        admin_reason(404) == "Not Found"@,
        admin_reason(409) == "Conflict"@,
        code != 200 && code != 400 && code != 401 && code != 404 && code != 409 ==> admin_reason(
            code,
        ) == "Error"@,
        code != 200 ==> probe_reason(code) == "Service Unavailable"@,
{
}

/// A probe is answered by what it asks and by nothing else that is known of the node.
pub proof fn law_probes_are_answered_over_whole_calls(
    path: &str,
    alive: bool,
    ready: bool,
    not_ready: &str,
    status: &str,
    answer: HttpReply,
    answered: String,
)
    requires
        call_ensures(probe_reply, (path, alive, ready, not_ready, status), answer),
        call_ensures(probe_response, (&answer,), answered),
    ensures
        path@ == "/livez"@ || path@ == "/healthz"@ ==> (answer.code == 200 <==> alive),
        path@ == "/readyz"@ ==> (answer.code == 200 <==> ready),
        path@ == "/readyz"@ && !ready ==> answer.body@ == not_ready@,
        path@ != "/livez"@ && path@ != "/healthz"@ && path@ != "/readyz"@ ==> answer.code == 200
            && answer.body@ == status@,
        exists|head: Seq<char>| #[trigger]
            (head + ("\r\nContent-Length: "@ + decimal(encode_utf8(answer.body@).len())
                + "\r\nConnection: close\r\n\r\n"@ + answer.body@)) == answered@,
{
    law_probes_answer_what_they_ask(path@, alive, ready, not_ready@, status@);
    law_answers_declare_their_length(answer@, probe_reason(answer.code));
}

/// An admin request promotes with the expected token and never without it, at the term that it
/// names.
pub proof fn law_admin_requests_over_whole_calls(
    token: Seq<char>,
    expected: &str,
    term: u64,
    request: &str,
    step: AdminStep,
)
    requires
        call_ensures(admin_step, (request, expected), step),
        token.len() > 0,
        forall|i: int| 0 <= i < token.len() ==> !is_space(#[trigger] token[i]),
        request@ == promotion(
            token,
            "{\"candidate_term\":"@ + decimal(term as nat) + seq!['}'],
        ),
    ensures
        token == expected@ ==> step == AdminStep::Promote(term),
        token != expected@ ==> step is Answer && step->Answer_0.code == 401,
{
    law_promotions_are_asked_for_with_the_token(token, expected@, term);
}

/// A refused or failed promotion is answered with its reason.
pub proof fn law_failed_promotions_are_answered(
    reason: &str,
    other: &str,
    answer: HttpReply,
    changed: HttpReply,
)
    requires
        call_ensures(assemble_failed_reply, (reason,), answer),
        call_ensures(assemble_failed_reply, (other,), changed),
    ensures
        answer.code == 500,
        differ_behind(answer.body@, changed.body@, "assemble failed: "@, reason@, other@),
{
    let label = "assemble failed: "@;
    lemma_differ_first(label, reason@, other@);
    lemma_differ_then(label + reason@, label + other@, label, reason@, other@, "\n"@);
}

/// A path, a gate and a term, over whole calls.
pub proof fn law_requests_over_whole_calls(
    request: &str,
    path: String,
    serving: bool,
    in_flight: bool,
    refused: Option<HttpReply>,
    body: &str,
    term: Result<u64, String>,
    named: u64,
)
    requires
        call_ensures(probe_path, (request,), path),
        call_ensures(promote_gate, (serving, in_flight), refused),
        call_ensures(parse_candidate_term, (body,), term),
    ensures
        path@ == requested_path(request@),
        refused is None <==> !serving && !in_flight,
        body@ == "{\"candidate_term\":"@ + decimal(named as nat) + seq!['}'] ==> term == Ok::<
            _,
            String,
        >(named),
        trimmed(body@).len() == 0 ==> term is Err,
{
    law_bodies_name_their_term(named, seq!['}']);
}

} // verus!
