//! Strict admin HTTP promote request parsing (privileged surface).
use crate::text::{
    char_index, chars_of, contains_text, decimal, find_char, find_text, first_line, first_word,
    is_space,
    lemma_encode_utf8_injective, parse_number, parsed_number, same_but_case, spells,
    spells_ignoring_case, take_line, take_word, text_from_utf8, text_index, text_of, trim,
    trimmed,
};
use crate::text_laws::{
    all_space, law_char_index_is_the_first, law_numbers_are_read_back,
    law_the_first_word_ends_at_whitespace,
};
use vstd::prelude::*;
use vstd::utf8::{decode_utf8, encode_utf8, valid_utf8};

verus! {

/// Maximum accepted admin request size (headers and body).
pub const MAX_ADMIN_REQUEST_BYTES: usize = 4096;

/// Parsed promote request after authentication.
#[derive(Debug, Clone, Copy, PartialEq, Eq, Structural)]
pub struct PromoteRequest {
    /// Candidate writer term (at least one).
    pub candidate_term: u64,
}

/// Why a promote request is refused.
#[derive(Debug, Clone, Copy, PartialEq, Eq)]
pub enum AdminParseError {
    /// Truncated or empty request.
    Incomplete,
    /// Method and path are not `POST /v1/promote`.
    NotFound,
    /// Missing or wrong bearer token.
    Unauthorized,
    /// Malformed headers, body or JSON.
    BadRequest(&'static str),
}

impl AdminParseError {
    /// The refusal in words.
    pub open spec fn words(self) -> Seq<char> {
        match self {
            AdminParseError::Incomplete => "incomplete request"@,
            AdminParseError::NotFound => "not found"@,
            AdminParseError::Unauthorized => "unauthorized"@,
            AdminParseError::BadRequest(message) => message@,
        }
    }

    /// The refusal in words.
    pub fn message(&self) -> (message: String)
        ensures
            message@ == self.words(),
    {
        match self {
            AdminParseError::Incomplete => "incomplete request".to_owned(),
            AdminParseError::NotFound => "not found".to_owned(),
            AdminParseError::Unauthorized => "unauthorized".to_owned(),
            AdminParseError::BadRequest(message) => (*message).to_owned(),
        }
    }
}

/// Whether two byte strings are equal, without stopping at the first difference.
pub fn tokens_equal(left: &[u8], right: &[u8]) -> (equal: bool)
    ensures
        equal == (left@ == right@),
{
    if left.len() != right.len() {
        return false;
    }
    let mut diff: u8 = 0;
    let mut at: usize = 0;
    while at < left.len()
        invariant
            at <= left@.len(),
            left@.len() == right@.len(),
            diff == 0 <==> forall|i: int| 0 <= i < at ==> left@[i] == right@[i],
        decreases left@.len() - at,
    {
        let a: u8 = left[at];
        let b: u8 = right[at];
        assert((diff | (a ^ b)) == 0 <==> diff == 0 && a == b) by (bit_vector);
        diff = diff | (a ^ b);
        at += 1;
    }
    if diff == 0 {
        assert(left@ =~= right@);
    }
    diff == 0
}

/// What the headers say of the body's length and of the bearer.
pub struct HeadersView {
    pub content_length: Option<nat>,
    pub bearer: Option<Seq<char>>,
}

/// The text after a header value's bearer scheme, whose name is read without regard to
/// case.
pub open spec fn bearer_in(value: Seq<char>) -> Option<Seq<char>> {
    if value.len() >= 7 && same_but_case(value.take(7), "bearer "@) {
        Some(trimmed(value.skip(7)))
    } else {
        None
    }
}

/// What one header line adds to the headers.
pub open spec fn read_header(line: Seq<char>, found: HeadersView) -> Result<
    HeadersView,
    AdminParseError,
> {
    let colon = char_index(line, ':');
    let name = trimmed(line.take(colon as int));
    let value = trimmed(line.skip(colon as int + 1));
    if colon >= line.len() {
        Err(AdminParseError::BadRequest("malformed header"))
    } else if same_but_case(name, "content-length"@) {
        match parsed_number(value, usize::MAX as nat) {
            Some(length) => Ok(
                HeadersView { content_length: Some(length), bearer: found.bearer },
            ),
            None => Err(AdminParseError::BadRequest("bad content-length")),
        }
    } else if same_but_case(name, "authorization"@) {
        match bearer_in(value) {
            Some(token) => Ok(
                HeadersView { content_length: found.content_length, bearer: Some(token) },
            ),
            None => Err(AdminParseError::Unauthorized),
        }
    } else {
        Ok(found)
    }
}

/// The headers of a header block; empty lines are passed over and the last of
/// two equal names counts.
pub open spec fn read_headers(text: Seq<char>, found: HeadersView) -> Result<
    HeadersView,
    AdminParseError,
>
    decreases text.len(),
{
    if text.len() == 0 {
        Ok(found)
    } else {
        let (line, rest) = first_line(text);
        proof {
            crate::text::lemma_char_index(text, '\n');
        }
        if line.len() == 0 {
            read_headers(rest, found)
        } else {
            match read_header(line, found) {
                Err(error) => Err(error),
                Ok(found) => read_headers(rest, found),
            }
        }
    }
}

/// Whether the request line asks to promote.
pub open spec fn asks_to_promote(line: Seq<char>) -> bool {
    let (method, rest) = first_word(line);
    let (path, _) = first_word(rest);
    method == "POST"@ && path == "/v1/promote"@
}

/// Whether the first character that is not JSON whitespace opens an object.
pub open spec fn opens_object(body: Seq<char>) -> bool
    decreases body.len(),
{
    if body.len() == 0 {
        false
    } else if body[0] == ' ' || body[0] == '\t' || body[0] == '\r' || body[0] == '\n' {
        opens_object(body.skip(1))
    } else {
        body[0] == '{'
    }
}

/// The body of an authorized request whose declared length is exact.
pub open spec fn authorized_body(
    found: HeadersView,
    body: Seq<char>,
    expected_token: Seq<char>,
) -> Result<Seq<char>, AdminParseError> {
    match found.bearer {
        None => Err(AdminParseError::Unauthorized),
        Some(token) => if token != expected_token {
            Err(AdminParseError::Unauthorized)
        } else {
            match found.content_length {
                None => Err(AdminParseError::BadRequest("content-length required")),
                Some(length) => if encode_utf8(body).len() < length {
                    Err(AdminParseError::Incomplete)
                } else if encode_utf8(body).len() > length {
                    Err(AdminParseError::BadRequest("trailing bytes after body"))
                } else if !opens_object(body) {
                    Err(AdminParseError::BadRequest("body must be exact JSON object"))
                } else {
                    Ok(body)
                },
            }
        },
    }
}

/// The body of a well-formed, authorized promote request.
pub open spec fn promote_body_of(raw: Seq<u8>, expected_token: Seq<char>) -> Result<
    Seq<char>,
    AdminParseError,
> {
    let text = decode_utf8(raw);
    if raw.len() == 0 {
        Err(AdminParseError::Incomplete)
    } else if raw.len() > MAX_ADMIN_REQUEST_BYTES {
        Err(AdminParseError::BadRequest("request too large"))
    } else if !valid_utf8(raw) {
        Err(AdminParseError::BadRequest("not utf-8"))
    } else {
        match text_index(text, "\r\n\r\n"@) {
            None => Err(AdminParseError::Incomplete),
            Some(end) => {
                let (request_line, headers) = first_line(text.take(end as int));
                if end == 0 {
                    Err(AdminParseError::Incomplete)
                } else if !asks_to_promote(request_line) {
                    Err(AdminParseError::NotFound)
                } else {
                    match read_headers(
                        headers,
                        HeadersView { content_length: None, bearer: None },
                    ) {
                        Err(error) => Err(error),
                        Ok(found) => authorized_body(
                            found,
                            text.skip(end as int + 4),
                            expected_token,
                        ),
                    }
                }
            },
        }
    }
}

/// The request that a decoded body makes.
pub open spec fn promote_request_of(decoded: Option<u64>) -> Result<
    PromoteRequest,
    AdminParseError,
> {
    match decoded {
        None => Err(AdminParseError::BadRequest("body must be exact JSON object")),
        Some(term) => if term == 0 {
            Err(AdminParseError::BadRequest("candidate_term must be >= 1"))
        } else {
            Ok(PromoteRequest { candidate_term: term })
        },
    }
}

fn opens_json_object(body: &[char]) -> (opens: bool)
    ensures
        opens == opens_object(body@),
{
    let mut at: usize = 0;
    assert(body@.skip(0) =~= body@);
    while at < body.len()
        invariant
            at <= body@.len(),
            opens_object(body@.skip(at as int)) == opens_object(body@),
        decreases body@.len() - at,
    {
        let c: char = body[at];
        if c != ' ' && c != '\t' && c != '\r' && c != '\n' {
            return c == '{';
        }
        assert(body@.skip(at as int).skip(1) =~= body@.skip(at + 1));
        at += 1;
    }
    false
}

fn bearer_token<'a>(value: &'a [char]) -> (token: Option<&'a [char]>)
    ensures
        match token {
            Some(token) => bearer_in(value@) == Some(token@),
            None => bearer_in(value@) is None,
        },
{
    if value.len() < 7 {
        return None;
    }
    assert(value@.subrange(0, 7) =~= value@.take(7));
    assert(value@.subrange(7, value@.len() as int) =~= value@.skip(7));
    if spells_ignoring_case(&value[0..7], "bearer ") {
        Some(trim(&value[7..value.len()]))
    } else {
        None
    }
}

/// Headers as they are found.
struct Headers<'a> {
    content_length: Option<usize>,
    bearer: Option<&'a [char]>,
}

impl<'a> Headers<'a> {
    spec fn view(&self) -> HeadersView {
        HeadersView {
            content_length: match self.content_length {
                Some(length) => Some(length as nat),
                None => None,
            },
            bearer: match self.bearer {
                Some(token) => Some(token@),
                None => None,
            },
        }
    }
}

fn take_header<'a>(line: &'a [char], found: Headers<'a>) -> (taken: Result<
    Headers<'a>,
    AdminParseError,
>)
    ensures
        match taken {
            Ok(headers) => read_header(line@, found@) == Ok::<_, AdminParseError>(headers@),
            Err(error) => read_header(line@, found@) == Err::<HeadersView, _>(error),
        },
{
    let colon: usize = find_char(line, ':');
    if colon >= line.len() {
        return Err(AdminParseError::BadRequest("malformed header"));
    }
    let name = trim(&line[0..colon]);
    let value = trim(&line[colon + 1..line.len()]);
    if spells_ignoring_case(name, "content-length") {
        match parse_number(value, usize::MAX as u64) {
            None => Err(AdminParseError::BadRequest("bad content-length")),
            Some(length) => Ok(
                Headers { content_length: Some(length as usize), bearer: found.bearer },
            ),
        }
    } else if spells_ignoring_case(name, "authorization") {
        match bearer_token(value) {
            None => Err(AdminParseError::Unauthorized),
            Some(token) => Ok(
                Headers { content_length: found.content_length, bearer: Some(token) },
            ),
        }
    } else {
        Ok(found)
    }
}

fn take_headers<'a>(text: &'a [char]) -> (taken: Result<Headers<'a>, AdminParseError>)
    ensures
        ({
            let none = HeadersView { content_length: None, bearer: None };
            match taken {
                Ok(headers) => read_headers(text@, none) == Ok::<_, AdminParseError>(headers@),
                Err(error) => read_headers(text@, none) == Err::<HeadersView, _>(error),
            }
        }),
{
    let mut found = Headers { content_length: None, bearer: None };
    let mut rest = text;
    let ghost none = HeadersView { content_length: None, bearer: None };
    while rest.len() > 0
        invariant
            read_headers(rest@, found@) == read_headers(text@, none),
            none == (HeadersView { content_length: None, bearer: None }),
        decreases rest@.len(),
    {
        let (line, after) = take_line(rest);
        if line.len() > 0 {
            match take_header(line, found) {
                Err(error) => {
                    return Err(error);
                },
                Ok(headers) => {
                    found = headers;
                },
            }
        }
        rest = after;
    }
    Ok(found)
}

/// Authenticates a request and gives its body.
///
/// Requires a complete header block ending in `\r\n\r\n`, a body of exactly the
/// declared length, the expected bearer token, and a body that opens a JSON object.
pub fn promote_body(raw: &[u8], expected_token: &str) -> (body: Result<String, AdminParseError>)
    ensures
        match body {
            Ok(body) => promote_body_of(raw@, expected_token@) == Ok::<_, AdminParseError>(body@),
            Err(error) => promote_body_of(raw@, expected_token@) == Err::<Seq<char>, _>(error),
        },
{
    if raw.len() == 0 {
        return Err(AdminParseError::Incomplete);
    }
    if raw.len() > MAX_ADMIN_REQUEST_BYTES {
        return Err(AdminParseError::BadRequest("request too large"));
    }
    let text = match text_from_utf8(raw) {
        None => {
            return Err(AdminParseError::BadRequest("not utf-8"));
        },
        Some(text) => chars_of(text),
    };
    let end: usize = match find_text(text.as_slice(), "\r\n\r\n") {
        None => {
            return Err(AdminParseError::Incomplete);
        },
        Some(end) => end,
    };
    proof {
        reveal_strlit("\r\n\r\n");
    }
    let chars = text.as_slice();
    let head = &chars[0..end];
    let body = &chars[end + 4..chars.len()];
    if head.len() == 0 {
        return Err(AdminParseError::Incomplete);
    }
    let (request_line, headers) = take_line(head);
    let (method, after_method) = take_word(request_line);
    let (path, _) = take_word(after_method);
    if !(spells(method, "POST") && spells(path, "/v1/promote")) {
        return Err(AdminParseError::NotFound);
    }
    let found = match take_headers(headers) {
        Err(error) => {
            return Err(error);
        },
        Ok(found) => found,
    };
    let token = match found.bearer {
        None => {
            return Err(AdminParseError::Unauthorized);
        },
        Some(token) => text_of(token),
    };
    let equal = tokens_equal(token.as_str().as_bytes(), expected_token.as_bytes());
    proof {
        if equal {
            lemma_encode_utf8_injective(token@, expected_token@);
        }
    }
    if !equal {
        return Err(AdminParseError::Unauthorized);
    }
    let length: usize = match found.content_length {
        None => {
            return Err(AdminParseError::BadRequest("content-length required"));
        },
        Some(length) => length,
    };
    let body_text = text_of(body);
    let body_length: usize = body_text.as_str().as_bytes().len();
    if body_length < length {
        return Err(AdminParseError::Incomplete);
    }
    if body_length > length {
        return Err(AdminParseError::BadRequest("trailing bytes after body"));
    }
    if !opens_json_object(body) {
        return Err(AdminParseError::BadRequest("body must be exact JSON object"));
    }
    Ok(body_text)
}

/// The request that a body makes: `decoded` is its `candidate_term`, where the
/// body is exactly one JSON object that has one.
pub fn promote_request(decoded: Option<u64>) -> (request: Result<PromoteRequest, AdminParseError>)
    ensures
        request == promote_request_of(decoded),
{
    match decoded {
        None => Err(AdminParseError::BadRequest("body must be exact JSON object")),
        Some(term) => {
            if term == 0 {
                return Err(AdminParseError::BadRequest("candidate_term must be >= 1"));
            }
            Ok(PromoteRequest { candidate_term: term })
        },
    }
}

/// Authenticates and strictly decodes a promote request from raw HTTP bytes.
///
/// `decode` reads the `candidate_term` of a body that is exactly one JSON object.
pub fn parse_promote_request<D: Fn(&str) -> Option<u64>>(
    raw: &[u8],
    expected_token: &str,
    decode: D,
) -> (request: Result<PromoteRequest, AdminParseError>)
    requires
        forall|body: &str| decode.requires((body,)),
    ensures
        match promote_body_of(raw@, expected_token@) {
            Err(error) => request == Err::<PromoteRequest, _>(error),
            Ok(body) => exists|given: &str, decoded: Option<u64>|
                given@ == body && #[trigger] decode.ensures((given,), decoded) && request
                    == promote_request_of(decoded),
        },
{
    match promote_body(raw, expected_token) {
        Err(error) => Err(error),
        Ok(body) => {
            let decoded: Option<u64> = decode(body.as_str());
            promote_request(decoded)
        },
    }
}

/// No request is accepted without the expected token, in a well-formed header
/// block, before a body of exactly the declared length.
pub proof fn law_only_authorized_bodies_are_decoded(raw: Seq<u8>, expected_token: Seq<char>)
    ensures
        promote_body_of(raw, expected_token) matches Ok(body) ==> {
            let text = decode_utf8(raw);
            let end = text_index(text, "\r\n\r\n"@)->0;
            let headers = first_line(text.take(end as int)).1;
            &&& raw.len() <= MAX_ADMIN_REQUEST_BYTES
            &&& valid_utf8(raw)
            &&& text_index(text, "\r\n\r\n"@) is Some
            &&& asks_to_promote(first_line(text.take(end as int)).0)
            &&& read_headers(headers, HeadersView { content_length: None, bearer: None }) matches Ok(
                found,
            ) && found.bearer == Some(expected_token) && found.content_length == Some(
                encode_utf8(body).len(),
            )
            &&& body == text.skip(end as int + 4)
        },
{
}

/// A header line is a name, a colon and a value. The length and the bearer are taken from the
/// lines of those names, in whatever case, and every other line changes nothing.
pub proof fn law_header_lines_are_names_and_values(
    name: Seq<char>,
    value: Seq<char>,
    found: HeadersView,
    length: nat,
    scheme: Seq<char>,
    token: Seq<char>,
)
    requires
        forall|i: int| 0 <= i < name.len() ==> #[trigger] name[i] != ':',
    ensures
        ({
            let read = read_header(name + seq![':'] + value, found);
            let given = trimmed(name);
            &&& same_but_case(given, "content-length"@) && trimmed(value) == decimal(length)
                && length <= usize::MAX ==> read == Ok::<_, AdminParseError>(
                HeadersView { content_length: Some(length), bearer: found.bearer },
            )
            &&& same_but_case(given, "authorization"@) && trimmed(value) == scheme + token
                && same_but_case(scheme, "bearer "@) ==> read == Ok::<_, AdminParseError>(
                HeadersView { content_length: found.content_length, bearer: Some(trimmed(token)) },
            )
            &&& !same_but_case(given, "content-length"@) && !same_but_case(given, "authorization"@)
                ==> read == Ok::<_, AdminParseError>(found)
        }),
        read_header(name, found) == Err::<HeadersView, _>(
            AdminParseError::BadRequest("malformed header"),
        ),
{
    let line = name + seq![':'] + value;
    let colon = name.len() as int;
    assert(line[colon] == ':');
    assert forall|i: int| 0 <= i < colon implies #[trigger] line[i] != ':' by {
        assert(line[i] == name[i]);
    }
    law_char_index_is_the_first(line, ':', colon);
    assert(line.take(colon) =~= name);
    assert(line.skip(colon + 1) =~= value);
    crate::text::lemma_char_index(name, ':');
    reveal_strlit("content-length");
    reveal_strlit("authorization");
    reveal_strlit("bearer ");
    assert("content-length"@.len() != "authorization"@.len());
    law_numbers_are_read_back(length, usize::MAX as nat);
    if trimmed(value) == scheme + token && same_but_case(scheme, "bearer "@) {
        assert(trimmed(value).take(7) =~= scheme);
        assert(trimmed(value).skip(7) =~= token);
    }
}

/// A header block is read line by line: what a line adds is there for the next, empty lines add
/// nothing, and the first bad line ends it.
pub proof fn law_header_blocks_are_read_line_by_line(
    line: Seq<char>,
    rest: Seq<char>,
    found: HeadersView,
)
    requires
        forall|i: int| 0 <= i < line.len() ==> #[trigger] line[i] != '\n',
        line.len() > 0 ==> line.last() != '\r',
    ensures
        ({
            let read = read_headers(line + seq!['\r', '\n'] + rest, found);
            &&& line.len() == 0 ==> read == read_headers(rest, found)
            &&& line.len() > 0 ==> (match read_header(line, found) {
                Ok(more) => read == read_headers(rest, more),
                Err(error) => read == Err::<HeadersView, _>(error),
            })
        }),
        read_headers(Seq::empty(), found) == Ok::<_, AdminParseError>(found),
{
    let text = line + seq!['\r', '\n'] + rest;
    let end = line.len() as int + 1;
    assert(text[end] == '\n');
    assert forall|i: int| 0 <= i < end implies #[trigger] text[i] != '\n' by {
        if i < line.len() {
            assert(text[i] == line[i]);
        }
    }
    law_char_index_is_the_first(text, '\n', end);
    assert(text[end - 1] == '\r');
    let (first, after) = first_line(text);
    assert(first =~= line);
    assert(after =~= rest);
}

/// A request line that asks to promote is `POST`, whitespace, the path, and what follows; what
/// stands before and between is whitespace.
pub proof fn law_promotions_are_posted(line: Seq<char>)
    requires
        asks_to_promote(line),
    ensures
        exists|lead: Seq<char>, gap: Seq<char>, rest: Seq<char>| #[trigger]
            posts(line, lead, gap, rest),
{
    law_the_first_word_ends_at_whitespace(line);
    let (method, after) = first_word(line);
    law_the_first_word_ends_at_whitespace(after);
    let (path, rest) = first_word(after);
    let lead = choose|lead: Seq<char>| #[trigger]
        all_space(lead) && line == lead + method + after;
    let gap = choose|gap: Seq<char>| #[trigger] all_space(gap) && after == gap + path + rest;
    reveal_strlit("/v1/promote");
    assert(line =~= lead + "POST"@ + gap + "/v1/promote"@ + rest);
    if gap.len() == 0 {
        assert(after[0] == path[0]);
        assert(!is_space(path[0]));
    }
    assert(posts(line, lead, gap, rest));
}

/// Whether a line is the promotion's method and path with whitespace before and between.
pub open spec fn posts(line: Seq<char>, lead: Seq<char>, gap: Seq<char>, rest: Seq<char>) -> bool {
    &&& all_space(lead)
    &&& all_space(gap)
    &&& gap.len() > 0
    &&& rest.len() > 0 ==> is_space(rest[0])
    &&& line == lead + "POST"@ + gap + "/v1/promote"@ + rest
}

/// A body opens an object exactly where a brace stands behind nothing but spaces, tabs and line
/// ends.
pub proof fn law_objects_open_behind_blanks(body: Seq<char>)
    ensures
        opens_object(body) <==> exists|at: int|
            0 <= at < body.len() && #[trigger] body[at] == '{' && forall|i: int|
                0 <= i < at ==> #[trigger] body[i] == ' ' || body[i] == '\t' || body[i] == '\r'
                    || body[i] == '\n',
    decreases body.len(),
{
    if body.len() > 0 {
        let rest = body.skip(1);
        law_objects_open_behind_blanks(rest);
        if opens_object(body) && body[0] != '{' {
            let at = choose|at: int|
                0 <= at < rest.len() && #[trigger] rest[at] == '{' && forall|i: int|
                    0 <= i < at ==> #[trigger] rest[i] == ' ' || rest[i] == '\t' || rest[i]
                        == '\r' || rest[i] == '\n';
            assert(body[at + 1] == '{');
            assert forall|i: int| 0 <= i < at + 1 implies #[trigger] body[i] == ' ' || body[i]
                == '\t' || body[i] == '\r' || body[i] == '\n' by {
                if i > 0 {
                    assert(rest[i - 1] == body[i]);
                }
            }
        }
        if exists|at: int|
            0 <= at < body.len() && #[trigger] body[at] == '{' && forall|i: int|
                0 <= i < at ==> #[trigger] body[i] == ' ' || body[i] == '\t' || body[i] == '\r'
                    || body[i] == '\n' {
            let at = choose|at: int|
                0 <= at < body.len() && #[trigger] body[at] == '{' && forall|i: int|
                    0 <= i < at ==> #[trigger] body[i] == ' ' || body[i] == '\t' || body[i]
                        == '\r' || body[i] == '\n';
            if at > 0 {
                assert(body[0] != '{');
                assert(rest[at - 1] == '{');
                assert forall|i: int| 0 <= i < at - 1 implies #[trigger] rest[i] == ' ' || rest[i]
                    == '\t' || rest[i] == '\r' || rest[i] == '\n' by {
                    assert(rest[i] == body[i + 1]);
                }
            }
        }
    }
}

/// A body is passed on, whole, exactly where the bearer is the expected one, the declared length
/// is the body's own, and it opens an object; without the bearer nothing else is looked at.
pub proof fn law_bodies_pass_with_token_and_length(
    found: HeadersView,
    body: Seq<char>,
    expected_token: Seq<char>,
)
    ensures
        ({
            let passed = authorized_body(found, body, expected_token);
            &&& passed is Ok <==> found.bearer == Some(expected_token) && found.content_length
                == Some(encode_utf8(body).len()) && opens_object(body)
            &&& passed matches Ok(given) ==> given == body
            &&& found.bearer != Some(expected_token) ==> passed == Err::<Seq<char>, _>(
                AdminParseError::Unauthorized,
            )
            &&& passed == Err::<Seq<char>, _>(AdminParseError::Incomplete)
                ==> found.content_length is Some && encode_utf8(body).len()
                < found.content_length->0
        }),
{
}

/// A request beyond four kibibytes, or one that is no UTF-8, is refused whatever else it
/// holds; an empty one, and one without the end of its headers, is incomplete.
pub proof fn law_odd_requests_are_refused_first(raw: Seq<u8>, expected_token: Seq<char>)
    ensures
        raw.len() == 0 ==> promote_body_of(raw, expected_token) == Err::<Seq<char>, _>(
            AdminParseError::Incomplete,
        ),
        raw.len() > 4096 ==> promote_body_of(raw, expected_token) == Err::<Seq<char>, _>(
            AdminParseError::BadRequest("request too large"),
        ),
        0 < raw.len() <= 4096 && !valid_utf8(raw) ==> promote_body_of(raw, expected_token)
            == Err::<Seq<char>, _>(AdminParseError::BadRequest("not utf-8")),
        0 < raw.len() <= 4096 && valid_utf8(raw) && !contains_text(
            decode_utf8(raw),
            "\r\n\r\n"@,
        ) ==> promote_body_of(raw, expected_token) == Err::<Seq<char>, _>(
            AdminParseError::Incomplete,
        ),
{
}

/// A term of at least one is asked for as it is; no other body makes a request.
pub proof fn law_terms_are_asked_for_as_they_are(decoded: Option<u64>)
    ensures
        promote_request_of(decoded) is Ok <==> decoded is Some && decoded->0 >= 1,
        promote_request_of(decoded) matches Ok(request) ==> decoded == Some(
            request.candidate_term,
        ),
{
}

/// A promote request over whole calls: its body is passed on only with the expected token, and
/// tokens are the same only where they are.
pub proof fn law_promotions_over_whole_calls(
    raw: &[u8],
    expected: &str,
    body: Result<String, AdminParseError>,
    decoded: Option<u64>,
    request: Result<PromoteRequest, AdminParseError>,
    left: &[u8],
    right: &[u8],
    equal: bool,
)
    requires
        call_ensures(promote_body, (raw, expected), body),
        call_ensures(promote_request, (decoded,), request),
        call_ensures(tokens_equal, (left, right), equal),
    ensures
        raw@.len() == 0 || raw@.len() > 4096 || !valid_utf8(raw@) ==> body is Err,
        body matches Ok(found) ==> opens_object(found@),
        request is Ok <==> decoded is Some && decoded->0 >= 1,
        request matches Ok(made) ==> Some(made.candidate_term) == decoded,
        equal <==> left@ == right@,
{
    law_only_authorized_bodies_are_decoded(raw@, expected@);
}

} // verus!
