//! Probe and admin HTTP: what a request asks for and what it is answered.
use crate::admin_http::tokens_equal;
use crate::text::{
    after_prefix, chars_of, decimal, find_text, first_line, first_word, is_digit,
    lemma_encode_utf8_injective, parse_number, parsed_number, push_decimal, same_text, spells,
    strip_prefix, take_line, take_word, text_index, text_of, trim, trimmed,
};
use vstd::prelude::*;
use vstd::utf8::{decode_utf8, encode_utf8, valid_utf8};

verus! {

/// The text that `String::from_utf8_lossy` makes of bytes.
pub uninterp spec fn lossy_text(bytes: Seq<u8>) -> Seq<char>;

/// `String::from_utf8_lossy`: the text that the bytes encode, with replacement
/// characters where they encode none.
#[verifier::external_body]
pub(crate) fn text_from_utf8_lossy(bytes: &[u8]) -> (text: String)
    ensures
        text@ == lossy_text(bytes@),
        valid_utf8(bytes@) ==> text@ == decode_utf8(bytes@),
{
    String::from_utf8_lossy(bytes).into_owned()
}

/// An answer: a status code and a body.
#[derive(Debug, PartialEq, Eq)]
pub struct HttpReply {
    pub code: u16,
    pub body: String,
}

/// What an answer is, apart from its representation.
pub struct ReplyView {
    pub code: u16,
    pub body: Seq<char>,
}

impl View for HttpReply {
    type V = ReplyView;

    open spec fn view(&self) -> ReplyView {
        ReplyView { code: self.code, body: self.body@ }
    }
}

fn reply(code: u16, body: &str) -> (reply: HttpReply)
    ensures
        reply@ == (ReplyView { code, body: body@ }),
{
    HttpReply { code, body: body.to_owned() }
}

// Probes.

/// The path that a request asks for: the second word of its first line, and
/// `/status` where there is none.
pub open spec fn requested_path(request: Seq<char>) -> Seq<char> {
    let path = first_word(first_word(first_line(request).0).1).0;
    if request.len() == 0 || path.len() == 0 {
        "/status"@
    } else {
        path
    }
}

/// The path that a request asks for.
pub fn probe_path(request: &str) -> (path: String)
    ensures
        path@ == requested_path(request@),
{
    let chars = chars_of(request);
    let (line, _) = take_line(chars.as_slice());
    let (_, rest) = take_word(line);
    let (path, _) = take_word(rest);
    if chars.len() == 0 || path.len() == 0 {
        "/status".to_owned()
    } else {
        text_of(path)
    }
}

/// The path that the bytes of a request ask for.
pub fn probe_path_of_bytes(request: &[u8]) -> (path: String)
    ensures
        path@ == requested_path(lossy_text(request@)),
{
    let text = text_from_utf8_lossy(request);
    probe_path(text.as_str())
}

/// Whether the path asks if the process is alive.
pub open spec fn asks_liveness(path: Seq<char>) -> bool {
    path == "/livez"@ || path == "/healthz"@
}

/// Whether the path asks if the process is alive.
pub fn is_liveness_path(path: &str) -> (liveness: bool)
    ensures
        liveness == asks_liveness(path@),
{
    same_text(path, "/livez") || same_text(path, "/healthz")
}

/// What a probe is answered.
pub open spec fn probe_answer(
    path: Seq<char>,
    alive: bool,
    ready: bool,
    not_ready: Seq<char>,
    status: Seq<char>,
) -> ReplyView {
    if asks_liveness(path) {
        if alive {
            ReplyView { code: 200, body: "alive\n"@ }
        } else {
            ReplyView { code: 503, body: "not-alive\n"@ }
        }
    } else if path == "/readyz"@ {
        if ready {
            ReplyView { code: 200, body: "ready\n"@ }
        } else {
            ReplyView { code: 503, body: not_ready }
        }
    } else {
        ReplyView { code: 200, body: status }
    }
}

/// Answers a probe: liveness, readiness, and for any other path the status.
pub fn probe_reply(path: &str, alive: bool, ready: bool, not_ready: &str, status: &str) -> (answer:
    HttpReply)
    ensures
        answer@ == probe_answer(path@, alive, ready, not_ready@, status@),
{
    if is_liveness_path(path) {
        if alive {
            reply(200, "alive\n")
        } else {
            reply(503, "not-alive\n")
        }
    } else if same_text(path, "/readyz") {
        if ready {
            reply(200, "ready\n")
        } else {
            reply(503, not_ready)
        }
    } else {
        reply(200, status)
    }
}

/// What readiness says where a node of this disposition is not ready.
pub fn not_ready_body(disposition: &str) -> (body: String)
    ensures
        body@ == "not-ready disposition="@ + disposition@ + "\n"@,
{
    let mut body = String::new();
    body.append("not-ready disposition=");
    body.append(disposition);
    body.append("\n");
    assert(body@ =~= "not-ready disposition="@ + disposition@ + "\n"@);
    body
}

/// A node is ready only where it was activated ready and serves now.
pub fn legacy_ready(activated_ready: bool, serving: bool) -> (ready: bool)
    ensures
        ready == (activated_ready && serving),
{
    activated_ready && serving
}

/// The disposition that a standby node reports.
pub fn standby_disposition(promoted: bool) -> (disposition: &'static str)
    ensures
        disposition == (if promoted {
            "serving-authority"
        } else {
            "standby"
        }),
{
    if promoted {
        "serving-authority"
    } else {
        "standby"
    }
}

/// One line of live authority.
pub open spec fn authority_line(writer: (Seq<char>, bool)) -> Seq<char> {
    "assignment_id="@ + writer.0 + " effective_writer="@ + (if writer.1 {
        "true"@
    } else {
        "false"@
    }) + "\n"@
}

/// Lines of live authority, one after the other.
pub open spec fn authority_lines(writers: Seq<(Seq<char>, bool)>) -> Seq<char>
    decreases writers.len(),
{
    if writers.len() == 0 {
        Seq::empty()
    } else {
        authority_lines(writers.drop_last()) + authority_line(writers.last())
    }
}

/// Writers by their views.
pub open spec fn writers_view(writers: Seq<(String, bool)>) -> Seq<(Seq<char>, bool)> {
    writers.map_values(|writer: (String, bool)| (writer.0@, writer.1))
}

/// The status of a node with several assignments: what it was activated with,
/// then who is the effective writer now.
pub fn live_status(activated: &str, writers: &Vec<(String, bool)>) -> (status: String)
    ensures
        status@ == activated@ + "live authority (re-observed from the root):\n"@ + authority_lines(
            writers_view(writers@),
        ),
{
    let mut status = activated.to_owned();
    status.append("live authority (re-observed from the root):\n");
    let ghost head = status@;
    let ghost view = writers_view(writers@);
    let mut at: usize = 0;
    assert(status@ =~= head + authority_lines(view.take(0)));
    while at < writers.len()
        invariant
            at <= writers@.len(),
            view == writers_view(writers@),
            status@ == head + authority_lines(view.take(at as int)),
        decreases writers@.len() - at,
    {
        let ghost before = status@;
        status.append("assignment_id=");
        status.append(writers[at].0.as_str());
        status.append(" effective_writer=");
        if writers[at].1 {
            status.append("true");
        } else {
            status.append("false");
        }
        status.append("\n");
        proof {
            assert(view.take(at + 1).drop_last() =~= view.take(at as int));
            assert(status@ =~= before + authority_line(view[at as int]));
            assert(status@ =~= head + authority_lines(view.take(at + 1)));
        }
        at += 1;
    }
    assert(view.take(at as int) =~= view);
    status
}

/// A node with several assignments is ready where any of them writes now.
pub fn any_effective_writer(writers: &Vec<(String, bool)>) -> (any: bool)
    ensures
        any == exists|i: int| 0 <= i < writers@.len() && (#[trigger] writers@[i]).1,
{
    let mut at: usize = 0;
    while at < writers.len()
        invariant
            at <= writers@.len(),
            forall|i: int| 0 <= i < at ==> !(#[trigger] writers@[i]).1,
        decreases writers@.len() - at,
    {
        if writers[at].1 {
            return true;
        }
        at += 1;
    }
    false
}

// Written answers.

/// An answer as it is sent: status line, headers, body.
pub open spec fn written_reply(reply: ReplyView, reason: Seq<char>) -> Seq<char> {
    "HTTP/1.1 "@ + decimal(reply.code as nat) + " "@ + reason
        + "\r\nContent-Type: text/plain\r\nContent-Length: "@ + decimal(
        encode_utf8(reply.body).len(),
    ) + "\r\nConnection: close\r\n\r\n"@ + reply.body
}

fn write_reply(reply: &HttpReply, reason: &str) -> (text: String)
    ensures
        text@ == written_reply(reply@, reason@),
{
    let mut text = String::new();
    text.append("HTTP/1.1 ");
    push_decimal(&mut text, reply.code as u64);
    text.append(" ");
    text.append(reason);
    text.append("\r\nContent-Type: text/plain\r\nContent-Length: ");
    push_decimal(&mut text, reply.body.as_str().as_bytes().len() as u64);
    text.append("\r\nConnection: close\r\n\r\n");
    text.append(reply.body.as_str());
    assert(text@ =~= written_reply(reply@, reason@));
    text
}

/// The reason phrase of a probe answer.
pub open spec fn probe_reason(code: u16) -> Seq<char> {
    if code == 200 {
        "OK"@
    } else {
        "Service Unavailable"@
    }
}

/// A probe answer as it is sent.
pub fn probe_response(reply: &HttpReply) -> (text: String)
    ensures
        text@ == written_reply(reply@, probe_reason(reply@.code)),
{
    if reply.code == 200 {
        write_reply(reply, "OK")
    } else {
        write_reply(reply, "Service Unavailable")
    }
}

/// The reason phrase of an admin answer.
pub open spec fn admin_reason(code: u16) -> Seq<char> {
    if code == 200 {
        "OK"@
    } else if code == 400 {
        "Bad Request"@
    } else if code == 401 {
        "Unauthorized"@
    } else if code == 404 {
        "Not Found"@
    } else if code == 409 {
        "Conflict"@
    } else {
        "Error"@
    }
}

/// An admin answer as it is sent.
pub fn admin_response(reply: &HttpReply) -> (text: String)
    ensures
        text@ == written_reply(reply@, admin_reason(reply@.code)),
{
    let reason = if reply.code == 200 {
        "OK"
    } else if reply.code == 400 {
        "Bad Request"
    } else if reply.code == 401 {
        "Unauthorized"
    } else if reply.code == 404 {
        "Not Found"
    } else if reply.code == 409 {
        "Conflict"
    } else {
        "Error"
    };
    write_reply(reply, reason)
}

// Admin promotion of a standby node.

/// The digits at the start of a text.
pub open spec fn leading_digits(text: Seq<char>) -> Seq<char>
    decreases text.len(),
{
    if text.len() > 0 && is_digit(text[0]) {
        seq![text[0]] + leading_digits(text.skip(1))
    } else {
        Seq::empty()
    }
}

/// The term that a promote body names, or what is wrong with it.
pub open spec fn candidate_term_in(body: Seq<char>) -> Result<u64, Seq<char>> {
    let text = trimmed(body);
    if text.len() == 0 {
        Err("candidate_term required"@)
    } else {
        match after_prefix(text, "{\"candidate_term\":"@) {
            None => Err("body must be {\"candidate_term\":N}"@),
            Some(rest) => match parsed_number(leading_digits(rest), u64::MAX as nat) {
                Some(term) => Ok(term as u64),
                None => Err("candidate_term must be an integer"@),
            },
        }
    }
}

fn take_leading_digits(chars: &[char]) -> (digits: Vec<char>)
    ensures
        digits@ == leading_digits(chars@),
{
    let mut digits: Vec<char> = Vec::new();
    let mut at: usize = 0;
    assert(chars@.skip(0) =~= chars@);
    assert(digits@ + leading_digits(chars@) =~= leading_digits(chars@));
    while at < chars.len() && '0' <= chars[at] && chars[at] <= '9'
        invariant
            at <= chars@.len(),
            digits@ + leading_digits(chars@.skip(at as int)) == leading_digits(chars@),
        ensures
            digits@ == leading_digits(chars@),
        decreases chars@.len() - at,
    {
        let c: char = chars[at];
        let ghost before = digits@;
        assert(chars@.skip(at as int).skip(1) =~= chars@.skip(at + 1));
        digits.push(c);
        assert(before + (seq![c] + leading_digits(chars@.skip(at + 1))) =~= digits@
            + leading_digits(chars@.skip(at + 1)));
        at += 1;
        assert(digits@ + Seq::<char>::empty() =~= digits@);
    }
    assert(digits@ + Seq::<char>::empty() =~= digits@);
    digits
}

/// The term that a promote body names.
pub fn parse_candidate_term(body: &str) -> (term: Result<u64, String>)
    ensures
        match term {
            Ok(term) => candidate_term_in(body@) == Ok::<_, Seq<char>>(term),
            Err(message) => candidate_term_in(body@) == Err::<u64, _>(message@),
        },
{
    let chars = chars_of(body);
    let text = trim(chars.as_slice());
    if text.len() == 0 {
        return Err("candidate_term required".to_owned());
    }
    match strip_prefix(text, "{\"candidate_term\":") {
        None => Err("body must be {\"candidate_term\":N}".to_owned()),
        Some(rest) => {
            let digits = take_leading_digits(rest);
            match parse_number(digits.as_slice(), u64::MAX) {
                Some(term) => Ok(term),
                None => Err("candidate_term must be an integer".to_owned()),
            }
        },
    }
}

/// The text after the prefix of the first line that has it, trimmed.
pub open spec fn first_prefixed_line(text: Seq<char>, prefix: Seq<char>) -> Option<Seq<char>>
    decreases text.len(),
{
    if text.len() == 0 {
        None
    } else {
        let (line, rest) = first_line(text);
        proof {
            crate::text::lemma_char_index(text, '\n');
        }
        match after_prefix(line, prefix) {
            Some(found) => Some(trimmed(found)),
            None => first_prefixed_line(rest, prefix),
        }
    }
}

fn find_prefixed_line(chars: &[char], prefix: &str) -> (found: Option<String>)
    ensures
        match found {
            Some(found) => first_prefixed_line(chars@, prefix@) == Some(found@),
            None => first_prefixed_line(chars@, prefix@) is None,
        },
{
    let mut rest = chars;
    while rest.len() > 0
        invariant
            first_prefixed_line(rest@, prefix@) == first_prefixed_line(chars@, prefix@),
        decreases rest@.len(),
    {
        let (line, after) = take_line(rest);
        match strip_prefix(line, prefix) {
            Some(found) => {
                return Some(text_of(trim(found)));
            },
            None => {},
        }
        rest = after;
    }
    None
}

/// What stands between the first and the second separator, or after the only one.
pub open spec fn second_part(text: Seq<char>, separator: Seq<char>) -> Option<Seq<char>> {
    match text_index(text, separator) {
        None => None,
        Some(at) => {
            let rest = text.skip(at as int + separator.len());
            match text_index(rest, separator) {
                None => Some(rest),
                Some(end) => Some(rest.take(end as int)),
            }
        },
    }
}

fn take_second_part(chars: &[char], separator: &str) -> (part: Option<String>)
    ensures
        match part {
            Some(part) => second_part(chars@, separator@) == Some(part@),
            None => second_part(chars@, separator@) is None,
        },
{
    match find_text(chars, separator) {
        None => None,
        Some(at) => {
            let spelled = chars_of(separator);
            let total: usize = chars.len();
            let rest = &chars[at + spelled.len()..total];
            match find_text(rest, separator) {
                None => Some(text_of(rest)),
                Some(end) => Some(text_of(&rest[0..end])),
            }
        },
    }
}

/// What an admin request comes to before the node is asked to promote.
#[derive(Debug, PartialEq, Eq)]
pub enum AdminStep {
    /// The request is answered without promoting.
    Answer(HttpReply),
    /// The request asks, with the right token, for promotion at this term.
    Promote(u64),
}

/// What an admin step is, apart from its representation.
pub enum AdminStepView {
    Answer(ReplyView),
    Promote(u64),
}

impl View for AdminStep {
    type V = AdminStepView;

    open spec fn view(&self) -> AdminStepView {
        match self {
            AdminStep::Answer(reply) => AdminStepView::Answer(reply@),
            AdminStep::Promote(term) => AdminStepView::Promote(*term),
        }
    }
}

/// The body of an admin request.
pub open spec fn admin_body(request: Seq<char>) -> Seq<char> {
    match second_part(request, "\r\n\r\n"@) {
        Some(body) => body,
        None => match second_part(request, "\n\n"@) {
            Some(body) => body,
            None => Seq::empty(),
        },
    }
}

/// What an admin request comes to before the node is asked to promote.
pub open spec fn admin_step_of(request: Seq<char>, expected_token: Seq<char>) -> AdminStepView {
    let (method, rest) = first_word(first_line(request).0);
    let path = first_word(rest).0;
    if request.len() == 0 {
        AdminStepView::Answer(ReplyView { code: 400, body: "bad request\n"@ })
    } else if method != "POST"@ || path != "/v1/promote"@ {
        AdminStepView::Answer(ReplyView { code: 404, body: "not found\n"@ })
    } else if first_prefixed_line(request, "Authorization: Bearer "@) != Some(expected_token) {
        AdminStepView::Answer(ReplyView { code: 401, body: "unauthorized\n"@ })
    } else {
        match candidate_term_in(admin_body(request)) {
            Ok(term) => AdminStepView::Promote(term),
            Err(message) => AdminStepView::Answer(ReplyView { code: 400, body: message + "\n"@ }),
        }
    }
}

/// Reads an admin request up to the decision to promote.
pub fn admin_step(request: &str, expected_token: &str) -> (step: AdminStep)
    ensures
        step@ == admin_step_of(request@, expected_token@),
{
    let chars = chars_of(request);
    let text = chars.as_slice();
    if text.len() == 0 {
        return AdminStep::Answer(reply(400, "bad request\n"));
    }
    let (line, _) = take_line(text);
    let (method, rest) = take_word(line);
    let (path, _) = take_word(rest);
    if !(spells(method, "POST") && spells(path, "/v1/promote")) {
        return AdminStep::Answer(reply(404, "not found\n"));
    }
    let token = match find_prefixed_line(text, "Authorization: Bearer ") {
        None => {
            return AdminStep::Answer(reply(401, "unauthorized\n"));
        },
        Some(token) => token,
    };
    let equal = tokens_equal(token.as_str().as_bytes(), expected_token.as_bytes());
    if !equal {
        return AdminStep::Answer(reply(401, "unauthorized\n"));
    }
    proof {
        lemma_encode_utf8_injective(token@, expected_token@);
    }
    let body = match take_second_part(text, "\r\n\r\n") {
        Some(body) => body,
        None => match take_second_part(text, "\n\n") {
            Some(body) => body,
            None => String::new(),
        },
    };
    match parse_candidate_term(body.as_str()) {
        Ok(term) => AdminStep::Promote(term),
        Err(message) => {
            let mut answer = message;
            answer.append("\n");
            AdminStep::Answer(HttpReply { code: 400, body: answer })
        },
    }
}

/// Reads the bytes of an admin request up to the decision to promote.
pub fn admin_step_of_bytes(request: &[u8], expected_token: &str) -> (step: AdminStep)
    ensures
        step@ == admin_step_of(lossy_text(request@), expected_token@),
{
    let text = text_from_utf8_lossy(request);
    admin_step(text.as_str(), expected_token)
}

/// Why a node does not start a promotion now: it serves, or one is in flight.
pub fn promote_gate(serving: bool, in_flight: bool) -> (refused: Option<HttpReply>)
    ensures
        match refused {
            None => !serving && !in_flight,
            Some(answer) => answer@ == (ReplyView {
                code: 409,
                body: if serving {
                    "already serving\n"@
                } else {
                    "promote in flight\n"@
                },
            }) && (serving || in_flight),
        },
{
    if serving {
        Some(reply(409, "already serving\n"))
    } else if in_flight {
        Some(reply(409, "promote in flight\n"))
    } else {
        None
    }
}

/// A node that stands by until an admin promotes it.
#[derive(Debug, Clone, Copy, PartialEq, Eq, Structural)]
pub struct StandbyState {
    /// Whether it was promoted.
    pub serving: bool,
    /// Whether a promotion is under way.
    pub in_flight: bool,
}

/// What happens to a standby.
pub enum StandbyEvent {
    /// A promotion is asked for.
    Asked,
    /// The promotion under way ended; whether it succeeded.
    Settled(bool),
}

impl StandbyState {
    /// Whether a promotion may start now.
    pub open spec fn grants(self) -> bool {
        !self.serving && !self.in_flight
    }

    /// The standby after an event.
    pub open spec fn after(self, event: StandbyEvent) -> StandbyState {
        match event {
            StandbyEvent::Asked => StandbyState { in_flight: self.in_flight || self.grants(), ..self },
            StandbyEvent::Settled(succeeded) => StandbyState {
                serving: self.serving || succeeded,
                in_flight: false,
            },
        }
    }

    /// A node that was not promoted.
    pub fn new() -> (standby: Self)
        ensures
            standby == (StandbyState { serving: false, in_flight: false }),
    {
        StandbyState { serving: false, in_flight: false }
    }

    /// Asks for a promotion: the refusal, or nothing where it may start.
    pub fn ask(&mut self) -> (refused: Option<HttpReply>)
        ensures
            refused is None <==> old(self).grants(),
            refused matches Some(answer) ==> answer@ == (ReplyView {
                code: 409,
                body: if old(self).serving {
                    "already serving\n"@
                } else {
                    "promote in flight\n"@
                },
            }),
            *final(self) == old(self).after(StandbyEvent::Asked),
    {
        let refused = promote_gate(self.serving, self.in_flight);
        if refused.is_none() {
            self.in_flight = true;
        }
        refused
    }

    /// Ends the promotion under way; gives the answer to who asked for it.
    pub fn settle(&mut self, outcome: Result<(), String>) -> (answer: HttpReply)
        ensures
            answer@ == promoted_answer(outcome),
            *final(self) == old(self).after(StandbyEvent::Settled(outcome is Ok)),
    {
        self.in_flight = false;
        if outcome.is_ok() {
            self.serving = true;
        }
        promote_reply(outcome)
    }
}

/// What an attempted promotion is answered; a failure comes with its reason.
pub open spec fn promoted_answer(outcome: Result<(), String>) -> ReplyView {
    match outcome {
        Ok(_) => ReplyView { code: 200, body: "promoted\n"@ },
        Err(reason) => ReplyView { code: 409, body: "promote refused: "@ + reason@ + "\n"@ },
    }
}

/// What an attempted promotion is answered; a failure comes with its reason.
pub fn promote_reply(outcome: Result<(), String>) -> (answer: HttpReply)
    ensures
        answer@ == promoted_answer(outcome),
{
    match outcome {
        Ok(()) => reply(200, "promoted\n"),
        Err(reason) => {
            let mut body = String::new();
            body.append("promote refused: ");
            body.append(reason.as_str());
            body.append("\n");
            assert(body@ =~= "promote refused: "@ + reason@ + "\n"@);
            HttpReply { code: 409, body }
        },
    }
}

/// What a request is answered where the node could not be assembled.
pub fn assemble_failed_reply(reason: &str) -> (answer: HttpReply)
    ensures
        answer@ == (ReplyView { code: 500, body: "assemble failed: "@ + reason@ + "\n"@ }),
{
    let mut body = String::new();
    body.append("assemble failed: ");
    body.append(reason);
    body.append("\n");
    assert(body@ =~= "assemble failed: "@ + reason@ + "\n"@);
    HttpReply { code: 500, body }
}

// Laws.

/// The standby after these events.
pub open spec fn standby_after(standby: StandbyState, events: Seq<StandbyEvent>) -> StandbyState
    decreases events.len(),
{
    if events.len() == 0 {
        standby
    } else {
        standby_after(standby, events.drop_last()).after(events.last())
    }
}

/// How many promotions these events started.
pub open spec fn granted(standby: StandbyState, events: Seq<StandbyEvent>) -> nat
    decreases events.len(),
{
    if events.len() == 0 {
        0
    } else {
        let before = standby_after(standby, events.drop_last());
        granted(standby, events.drop_last()) + (if events.last() is Asked && before.grants() {
            1nat
        } else {
            0
        })
    }
}

/// How many promotions these events ended.
pub open spec fn settled(events: Seq<StandbyEvent>) -> nat
    decreases events.len(),
{
    if events.len() == 0 {
        0
    } else {
        settled(events.drop_last()) + (if events.last() is Settled {
            1nat
        } else {
            0
        })
    }
}

/// At most one promotion is under way: of those that started at a fresh standby, all but
/// one have ended.
pub proof fn law_one_promotion_at_a_time(events: Seq<StandbyEvent>)
    ensures
        ({
            let fresh = StandbyState { serving: false, in_flight: false };
            &&& granted(fresh, events) <= settled(events) + 1
            &&& !standby_after(fresh, events).in_flight ==> granted(fresh, events) <= settled(events)
        }),
    decreases events.len(),
{
    if events.len() > 0 {
        law_one_promotion_at_a_time(events.drop_last());
    }
}

/// A promoted standby stays promoted and starts no further promotion.
pub proof fn law_promoted_standbys_stay_promoted(standby: StandbyState, events: Seq<StandbyEvent>)
    requires
        standby.serving,
    ensures
        standby_after(standby, events).serving,
        granted(standby, events) == 0,
    decreases events.len(),
{
    if events.len() > 0 {
        law_promoted_standbys_stay_promoted(standby, events.drop_last());
    }
}

/// Readiness is answered with success exactly where the node is ready.
pub proof fn law_ready_only_when_ready(
    alive: bool,
    ready: bool,
    not_ready: Seq<char>,
    status: Seq<char>,
)
    ensures
        probe_answer("/readyz"@, alive, ready, not_ready, status).code == 200 <==> ready,
{
    reveal_strlit("/readyz");
    reveal_strlit("/livez");
    reveal_strlit("/healthz");
    assert("/readyz"@.len() == 7 && "/livez"@.len() == 6 && "/healthz"@.len() == 8);
}

/// Liveness does not depend on readiness or on who writes.
pub proof fn law_liveness_is_independent(
    path: Seq<char>,
    alive: bool,
    one: (bool, Seq<char>, Seq<char>),
    other: (bool, Seq<char>, Seq<char>),
)
    requires
        asks_liveness(path),
    ensures
        probe_answer(path, alive, one.0, one.1, one.2) == probe_answer(
            path,
            alive,
            other.0,
            other.1,
            other.2,
        ),
{
}

/// Nothing is promoted without the expected token.
pub proof fn law_promote_needs_token(request: Seq<char>, expected_token: Seq<char>)
    ensures
        admin_step_of(request, expected_token) is Promote ==> first_prefixed_line(
            request,
            "Authorization: Bearer "@,
        ) == Some(expected_token),
{
}

} // verus!
