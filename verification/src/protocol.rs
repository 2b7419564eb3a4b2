//! The plugin protocol: envelopes, their rules, and the frames they travel in.
use crate::json::Json;
use crate::text;
use vstd::prelude::*;
use vstd::string::*;
use vstd::utf8::*;

verus! {

/// The plugin protocol version spoken by this library.
pub const PROTOCOL_VERSION: u16 = 1;

/// The most bytes of a frame's payload.
pub const DEFAULT_MAX_FRAME_BYTES: usize = 1_048_576;

/// The most bytes kept of each stream of a tool's output.
pub const DEFAULT_MAX_TOOL_OUTPUT_BYTES: usize = 262_144;

/// The most bytes of an error message.
pub const DEFAULT_MAX_ERROR_MESSAGE_BYTES: usize = 4_096;

/// The most bytes of a correlation id.
pub const MAX_CORRELATION_ID_BYTES: usize = 64;

/// The limits a host asks a plugin to keep.
#[derive(Clone, Copy, Debug, PartialEq, Eq, Structural)]
pub struct Limits {
    pub max_frame_bytes: usize,
    pub max_tool_output_bytes: usize,
    pub max_error_message_bytes: usize,
}

impl Default for Limits {
    fn default() -> (r: Self)
        ensures
            r.max_frame_bytes == DEFAULT_MAX_FRAME_BYTES,
            r.max_tool_output_bytes == DEFAULT_MAX_TOOL_OUTPUT_BYTES,
            r.max_error_message_bytes == DEFAULT_MAX_ERROR_MESSAGE_BYTES,
    {
        Limits {
            max_frame_bytes: DEFAULT_MAX_FRAME_BYTES,
            max_tool_output_bytes: DEFAULT_MAX_TOOL_OUTPUT_BYTES,
            max_error_message_bytes: DEFAULT_MAX_ERROR_MESSAGE_BYTES,
        }
    }
}

/// Who the host is.
#[derive(Debug, PartialEq, Eq)]
pub struct HostIdentity {
    pub name: String,
    pub version: String,
}

/// What a host says first.
#[derive(Debug, PartialEq, Eq)]
pub struct InitializeParams {
    pub host: HostIdentity,
    pub limits: Limits,
}

/// The parameters of an operation that has none.
#[derive(Clone, Copy, Debug, PartialEq, Eq, Structural)]
pub struct EmptyParams {}

/// A call of a tool.
#[derive(Debug, PartialEq, Eq)]
pub struct CallToolParams {
    pub name: String,
    pub arguments: Json,
}

/// What a host asks for.
#[derive(Debug, PartialEq, Eq)]
pub enum RequestOperation {
    Initialize(InitializeParams),
    ListTools(EmptyParams),
    CallTool(CallToolParams),
    Shutdown(EmptyParams),
}

/// A request.
#[derive(Debug, PartialEq, Eq)]
pub struct RequestEnvelope {
    pub v: u16,
    pub id: String,
    pub operation: RequestOperation,
}

/// Who a plugin is.
#[derive(Debug, PartialEq, Eq)]
pub struct PluginIdentity {
    pub name: String,
    pub version: String,
}

/// The protocol versions a plugin speaks.
#[derive(Clone, Copy, Debug, PartialEq, Eq, Structural)]
pub struct ProtocolRange {
    pub min_version: u16,
    pub max_version: u16,
}

/// What a plugin answers first.
#[derive(Debug, PartialEq, Eq)]
pub struct InitializeResult {
    pub plugin: PluginIdentity,
    pub protocol: ProtocolRange,
}

/// A tool that a plugin declares.
#[derive(Debug, PartialEq, Eq)]
pub struct ToolSpec {
    pub name: String,
    pub description: String,
    pub input_schema: Json,
}

/// All tools of a plugin.
#[derive(Debug, PartialEq, Eq)]
pub struct ToolListResult {
    pub tools: Vec<ToolSpec>,
}

/// What a tool gave back.
#[derive(Debug, PartialEq, Eq)]
pub struct ToolResult {
    pub output: String,
    pub truncated: bool,
}

/// The kind of a failure.
#[derive(Clone, Copy, Debug, PartialEq, Eq, Structural)]
pub enum PluginErrorCode {
    InvalidRequest,
    UnsupportedOperation,
    UnknownTool,
    InvalidArguments,
    ToolFailed,
    Internal,
}

/// Why a request failed.
#[derive(Debug, PartialEq, Eq)]
pub struct PluginFailure {
    pub code: PluginErrorCode,
    pub message: String,
    pub retryable: bool,
}

/// A response.
#[derive(Debug, PartialEq, Eq)]
pub struct ResponseEnvelope {
    pub v: u16,
    pub id: String,
    pub ok: bool,
    pub result: Option<Json>,
    pub error: Option<PluginFailure>,
}

/// What is wrong with an envelope.
#[derive(Clone, Copy, Debug, PartialEq, Eq, Structural)]
pub enum ProtocolViolation {
    UnsupportedVersion { found: u16 },
    EmptyCorrelationId,
    CorrelationIdTooLong,
    InvalidCorrelationId,
    InvalidEnvelope,
    MissingResult,
    MissingError,
    SuccessIncludedError,
    FailureIncludedResult,
}

/// Why a message was not sent or taken.
#[derive(Debug, PartialEq, Eq)]
pub enum ProtocolError {
    FrameTooLarge { declared: usize, maximum: usize },
    Violation(ProtocolViolation),
    PluginFailure(PluginFailure),
}

/// The stream that a piece of a tool's output came from.
#[derive(Clone, Copy, Debug, PartialEq, Eq, Structural)]
pub enum ToolOutputStream {
    Stdout,
    Stderr,
}

/// A piece of the output of a tool that still runs, in Base64.
#[derive(Debug, PartialEq, Eq)]
pub struct ToolProgress {
    pub stream: ToolOutputStream,
    pub data: String,
}

/// A piece of the output of the call with this id.
#[derive(Debug, PartialEq, Eq)]
pub struct ProgressEnvelope {
    pub id: String,
    pub progress: ToolProgress,
}

/// What a plugin sends while a call runs.
#[derive(Debug, PartialEq, Eq)]
pub enum PluginMessage {
    Progress(ProgressEnvelope),
    Response(ResponseEnvelope),
}

/// Whether a character may stand in a correlation id.
pub open spec fn id_char(c: char) -> bool {
    'a' <= c <= 'z' || 'A' <= c <= 'Z' || '0' <= c <= '9' || c == '_' || c == '-'
}

/// Whether all characters may stand in a correlation id.
pub open spec fn id_chars(s: Seq<char>) -> bool {
    forall|i: int| 0 <= i < s.len() ==> id_char(#[trigger] s[i])
}

/// What is wrong with a correlation id.
pub open spec fn id_problem(id: Seq<char>) -> Option<ProtocolViolation> {
    if id.len() == 0 {
        Some(ProtocolViolation::EmptyCorrelationId)
    } else if text::utf8_len(id) > MAX_CORRELATION_ID_BYTES {
        Some(ProtocolViolation::CorrelationIdTooLong)
    } else if !id_chars(id) {
        Some(ProtocolViolation::InvalidCorrelationId)
    } else {
        None
    }
}

/// What is wrong with a version.
pub open spec fn version_problem(version: u16) -> Option<ProtocolViolation> {
    if version == PROTOCOL_VERSION {
        None
    } else {
        Some(ProtocolViolation::UnsupportedVersion { found: version })
    }
}

/// What is wrong with the version or the id of an envelope.
pub open spec fn header_problem(version: u16, id: Seq<char>) -> Option<ProtocolViolation> {
    match version_problem(version) {
        Some(problem) => Some(problem),
        None => id_problem(id),
    }
}

/// What is wrong with the outcome of a response: a success has a result and no error, a failure
/// an error and no result.
pub open spec fn outcome_problem(ok: bool, result: bool, error: bool) -> Option<ProtocolViolation> {
    if ok && !result {
        Some(ProtocolViolation::MissingResult)
    } else if ok && error {
        Some(ProtocolViolation::SuccessIncludedError)
    } else if !ok && result {
        Some(ProtocolViolation::FailureIncludedResult)
    } else if !ok && !error {
        Some(ProtocolViolation::MissingError)
    } else {
        None
    }
}

/// What is wrong with a response.
pub open spec fn response_problem(response: ResponseEnvelope) -> Option<ProtocolViolation> {
    match header_problem(response.v, response.id@) {
        Some(problem) => Some(problem),
        None => outcome_problem(response.ok, response.result is Some, response.error is Some),
    }
}

/// Whether `r` reports exactly this problem.
pub open spec fn reports(r: Result<(), ProtocolError>, problem: Option<ProtocolViolation>) -> bool {
    match problem {
        Some(violation) => r == Err::<(), ProtocolError>(ProtocolError::Violation(violation)),
        None => r is Ok,
    }
}

/// Checks a version.
pub fn validate_version(version: u16) -> (r: Result<(), ProtocolError>)
    ensures
        reports(r, version_problem(version)),
{
    if version == PROTOCOL_VERSION {
        Ok(())
    } else {
        Err(ProtocolError::Violation(ProtocolViolation::UnsupportedVersion { found: version }))
    }
}

/// Checks a correlation id.
pub fn validate_correlation_id(id: &str) -> (r: Result<(), ProtocolError>)
    ensures
        reports(r, id_problem(id@)),
{
    if id.is_empty() {
        return Err(ProtocolError::Violation(ProtocolViolation::EmptyCorrelationId));
    }
    if text::byte_len(id) > MAX_CORRELATION_ID_BYTES {
        return Err(ProtocolError::Violation(ProtocolViolation::CorrelationIdTooLong));
    }
    let chars = text::chars_of(id);
    let mut i: usize = 0;
    while i < chars.len()
        invariant
            chars@ == id@,
            i <= chars@.len(),
            0 < id@.len(),
            text::utf8_len(id@) <= MAX_CORRELATION_ID_BYTES,
            forall|j: int| 0 <= j < i ==> id_char(#[trigger] id@[j]),
        decreases chars@.len() - i,
    {
        let c = chars[i];
        let fits = ('a' <= c && c <= 'z') || ('A' <= c && c <= 'Z') || ('0' <= c && c <= '9') || c
            == '_' || c == '-';
        if !fits {
            assert(!id_char(id@[i as int]));
            return Err(ProtocolError::Violation(ProtocolViolation::InvalidCorrelationId));
        }
        i += 1;
    }
    Ok(())
}

/// Checks a request.
pub fn validate_request(request: &RequestEnvelope) -> (r: Result<(), ProtocolError>)
    ensures
        reports(r, header_problem(request.v, request.id@)),
{
    match validate_version(request.v) {
        Ok(()) => validate_correlation_id(request.id.as_str()),
        Err(error) => Err(error),
    }
}

/// Checks a response.
pub fn validate_response(response: &ResponseEnvelope) -> (r: Result<(), ProtocolError>)
    ensures
        reports(r, response_problem(*response)),
{
    if let Err(error) = validate_version(response.v) {
        return Err(error);
    }
    if let Err(error) = validate_correlation_id(response.id.as_str()) {
        return Err(error);
    }
    let result = response.result.is_some();
    let error = response.error.is_some();
    if response.ok {
        if !result {
            Err(ProtocolError::Violation(ProtocolViolation::MissingResult))
        } else if error {
            Err(ProtocolError::Violation(ProtocolViolation::SuccessIncludedError))
        } else {
            Ok(())
        }
    } else if result {
        Err(ProtocolError::Violation(ProtocolViolation::FailureIncludedResult))
    } else if !error {
        Err(ProtocolError::Violation(ProtocolViolation::MissingError))
    } else {
        Ok(())
    }
}

impl ResponseEnvelope {
    /// A response with a result.
    pub fn success(id: String, result: Json) -> (r: Self)
        ensures
            r.v == PROTOCOL_VERSION,
            r.id == id,
            r.ok,
            r.result == Some(result),
            r.error is None,
    {
        ResponseEnvelope { v: PROTOCOL_VERSION, id, ok: true, result: Some(result), error: None }
    }

    /// A response with a failure.
    pub fn failure(id: String, failure: PluginFailure) -> (r: Self)
        ensures
            r.v == PROTOCOL_VERSION,
            r.id == id,
            !r.ok,
            r.result is None,
            r.error == Some(failure),
    {
        ResponseEnvelope { v: PROTOCOL_VERSION, id, ok: false, result: None, error: Some(failure) }
    }

    /// The result of a response, if the response is sound and a success.
    pub fn into_result(self) -> (r: Result<Json, ProtocolError>)
        ensures
            match response_problem(self) {
                Some(violation) => r == Err::<Json, ProtocolError>(
                    ProtocolError::Violation(violation),
                ),
                None => if self.ok {
                    r == Ok::<Json, ProtocolError>(self.result->0)
                } else {
                    r == Err::<Json, ProtocolError>(ProtocolError::PluginFailure(self.error->0))
                },
            },
    {
        if let Err(error) = validate_response(&self) {
            return Err(error);
        }
        if !self.ok {
            return match self.error {
                Some(error) => Err(ProtocolError::PluginFailure(error)),
                None => Err(ProtocolError::Violation(ProtocolViolation::MissingError)),
            };
        }
        match self.result {
            Some(value) => Ok(value),
            None => Err(ProtocolError::Violation(ProtocolViolation::MissingResult)),
        }
    }
}

/// A response made from a result is sound and gives the result back; one made from a failure is
/// sound and gives the failure back. Both need a sound correlation id.
pub proof fn law_responses_are_sound(id: String, result: Json, failure: PluginFailure)
    requires
        id_problem(id@) is None,
    ensures
        response_problem(
            (ResponseEnvelope {
                v: PROTOCOL_VERSION,
                id,
                ok: true,
                result: Some(result),
                error: None,
            }),
        ) is None,
        response_problem(
            (ResponseEnvelope {
                v: PROTOCOL_VERSION,
                id,
                ok: false,
                result: None,
                error: Some(failure),
            }),
        ) is None,
{
}

/// The number that four bytes stand for, the highest first.
pub open spec fn big_endian(header: Seq<u8>) -> int {
    header[0] * 0x100_0000 + header[1] * 0x1_0000 + header[2] * 0x100 + header[3]
}

/// The payload length that a frame's header declares, if a frame of it is taken.
pub fn frame_payload_len(header: [u8; 4], max_frame_bytes: usize) -> (r: Result<
    usize,
    ProtocolError,
>)
    ensures
        ({
            let declared = big_endian(header@);
            if declared == 0 || declared > max_frame_bytes {
                r == Err::<usize, ProtocolError>(
                    ProtocolError::FrameTooLarge {
                        declared: declared as usize,
                        maximum: max_frame_bytes,
                    },
                )
            } else {
                r == Ok::<usize, ProtocolError>(declared as usize)
            }
        }),
{
    let declared: u32 = (header[0] as u32) * 0x100_0000 + (header[1] as u32) * 0x1_0000 + (
    header[2] as u32) * 0x100 + header[3] as u32;
    let declared: usize = declared as usize;
    if declared == 0 || declared > max_frame_bytes {
        Err(ProtocolError::FrameTooLarge { declared, maximum: max_frame_bytes })
    } else {
        Ok(declared)
    }
}

/// The header of a payload of this length.
pub open spec fn header_of(len: int) -> Seq<u8> {
    seq![
        (len / 0x100_0000) as u8,
        ((len / 0x1_0000) % 0x100) as u8,
        ((len / 0x100) % 0x100) as u8,
        (len % 0x100) as u8,
    ]
}

/// The frame of a payload: its length in four bytes, then the payload. A payload that is empty or
/// too large has none.
pub fn encode_frame(payload: &Vec<u8>) -> (r: Result<Vec<u8>, ProtocolError>)
    ensures
        if payload@.len() == 0 || payload@.len() > DEFAULT_MAX_FRAME_BYTES {
            r == Err::<Vec<u8>, ProtocolError>(
                ProtocolError::FrameTooLarge {
                    declared: payload@.len() as usize,
                    maximum: DEFAULT_MAX_FRAME_BYTES,
                },
            )
        } else {
            r matches Ok(frame) && frame@ == header_of(payload@.len() as int) + payload@
        },
{
    let len = payload.len();
    if len == 0 || len > DEFAULT_MAX_FRAME_BYTES {
        return Err(
            ProtocolError::FrameTooLarge { declared: len, maximum: DEFAULT_MAX_FRAME_BYTES },
        );
    }
    let mut frame: Vec<u8> = Vec::new();
    frame.push((len / 0x100_0000) as u8);
    frame.push(((len / 0x1_0000) % 0x100) as u8);
    frame.push(((len / 0x100) % 0x100) as u8);
    frame.push((len % 0x100) as u8);
    assert(frame@ =~= header_of(len as int));
    frame.extend_from_slice(payload.as_slice());
    Ok(frame)
}

/// Reading a frame gives back what was written: the header declares the payload's length, which
/// every reader with a limit of at least that length takes, and the payload follows it.
pub proof fn law_frame_round_trip(payload: Seq<u8>, max_frame_bytes: usize)
    requires
        0 < payload.len() <= DEFAULT_MAX_FRAME_BYTES,
        payload.len() <= max_frame_bytes,
    ensures
        ({
            let frame = header_of(payload.len() as int) + payload;
            let declared = big_endian(frame.subrange(0, 4));
            &&& declared == payload.len()
            &&& 0 < declared <= max_frame_bytes
            &&& frame.subrange(4, 4 + declared) == payload
            &&& frame.len() == 4 + declared
        }),
{
    let len = payload.len() as int;
    let frame = header_of(len) + payload;
    let header = header_of(len);
    assert(frame.subrange(0, 4) =~= header);
    assert(len < 0x100_0000);
    assert(frame.subrange(4, 4 + len) =~= payload);
}

/// The longest beginning of a text that has at most `limit` bytes and ends between characters.
pub open spec fn cut_to_bytes(s: Seq<char>, limit: nat) -> Seq<char>
    decreases s.len(),
{
    if text::utf8_len(s) <= limit || s.len() == 0 {
        s
    } else {
        cut_to_bytes(s.drop_last(), limit)
    }
}

/// `s` cut to a number of bytes between characters.
pub fn cut_text(s: String, limit: usize) -> (r: String)
    ensures
        r@ == cut_to_bytes(s@, limit as nat),
{
    if text::byte_len(s.as_str()) <= limit {
        return s;
    }
    let chars = text::chars_of(s.as_str());
    let mut count: usize = 0;
    let mut bytes: usize = 0;
    proof {
        assert(s@.take(0) =~= Seq::<char>::empty());
    }
    while count < chars.len()
        invariant
            chars@ == s@,
            count <= chars@.len(),
            bytes == text::utf8_len(s@.take(count as int)),
            bytes <= limit,
        ensures
            count <= chars@.len(),
            text::utf8_len(s@.take(count as int)) <= limit,
            count < chars@.len() ==> text::utf8_len(s@.take(count + 1)) > limit,
        decreases chars@.len() - count,
    {
        let mut one = String::new();
        one.push(chars[count]);
        let size = text::byte_len(one.as_str());
        proof {
            assert(s@.take(count + 1) =~= s@.take(count as int) + one@);
            text::lemma_encode_append(s@.take(count as int), one@);
        }
        if size > limit - bytes {
            break;
        }
        bytes += size;
        count += 1;
    }
    proof {
        lemma_cut_at(s@, limit as nat, count as int);
        assert(s@.take(count as int) =~= s@.subrange(0, count as int));
    }
    text::string_range(&chars, 0, count)
}

proof fn lemma_prefix_bytes(s: Seq<char>, a: int, b: int)
    requires
        0 <= a <= b <= s.len(),
    ensures
        text::utf8_len(s.take(a)) <= text::utf8_len(s.take(b)),
{
    assert(s.take(b) =~= s.take(a) + s.subrange(a, b));
    text::lemma_encode_append(s.take(a), s.subrange(a, b));
}

proof fn lemma_cut_at(s: Seq<char>, limit: nat, count: int)
    requires
        0 <= count <= s.len(),
        text::utf8_len(s.take(count)) <= limit,
        count < s.len() ==> text::utf8_len(s.take(count + 1)) > limit,
    ensures
        cut_to_bytes(s, limit) == s.take(count),
    decreases s.len(),
{
    if count < s.len() {
        lemma_prefix_bytes(s, count + 1, s.len() as int);
        assert(s.take(s.len() as int) =~= s);
        let init = s.drop_last();
        assert(init.take(count) =~= s.take(count));
        if count < init.len() {
            assert(init.take(count + 1) =~= s.take(count + 1));
        }
        lemma_cut_at(init, limit, count);
    } else {
        assert(s.take(count) =~= s);
    }
}

/// A failure whose message is cut to the limit between characters.
pub fn tool_failure(code: PluginErrorCode, message: String, retryable: bool) -> (r: PluginFailure)
    ensures
        r.code == code,
        r.retryable == retryable,
        r.message@ == cut_to_bytes(message@, DEFAULT_MAX_ERROR_MESSAGE_BYTES as nat),
{
    PluginFailure { code, message: cut_text(message, DEFAULT_MAX_ERROR_MESSAGE_BYTES), retryable }
}

/// A cut text is a beginning of the text, keeps the limit, and is no shorter than it must be: a
/// text within the limit stays whole, and one more character would break the limit.
pub proof fn law_cut_text(s: Seq<char>, limit: nat)
    ensures
        text::starts_with(s, cut_to_bytes(s, limit)),
        text::utf8_len(cut_to_bytes(s, limit)) <= limit,
        text::utf8_len(s) <= limit ==> cut_to_bytes(s, limit) == s,
        cut_to_bytes(s, limit).len() < s.len() ==> text::utf8_len(
            s.take(cut_to_bytes(s, limit).len() as int + 1),
        ) > limit,
    decreases s.len(),
{
    let cut = cut_to_bytes(s, limit);
    if text::utf8_len(s) <= limit || s.len() == 0 {
        text::lemma_utf8_len(s);
        assert(s.subrange(0, s.len() as int) =~= s);
    } else {
        let init = s.drop_last();
        law_cut_text(init, limit);
        assert(init.subrange(0, cut.len() as int) =~= s.subrange(0, cut.len() as int));
        if cut.len() < init.len() {
            assert(init.take(cut.len() as int + 1) =~= s.take(cut.len() as int + 1));
        } else {
            assert(s.take(cut.len() as int + 1) =~= s);
        }
    }
}

/// Whether a text is thirty-two lower-case hexadecimal digits.
pub open spec fn is_simple_id(s: Seq<char>) -> bool {
    s.len() == 32 && forall|i: int|
        0 <= i < s.len() ==> ('0' <= #[trigger] s[i] <= '9' || 'a' <= s[i] <= 'f')
}

/// A fresh id: `uuid::Uuid::new_v4` in its simple form, which is thirty-two lower-case
/// hexadecimal digits. Which digits they are is left to chance.
#[verifier::external_body]
pub(crate) fn fresh_id() -> (r: String)
    ensures
        is_simple_id(r@),
{
    uuid::Uuid::new_v4().simple().to_string()
}

/// A fresh id for a request to the core.
pub fn core_request_id() -> (r: String)
    ensures
        is_simple_id(r@),
{
    fresh_id()
}

/// Whether a text can be the correlation id of a tool call: `call_` and a fresh id.
pub open spec fn is_call_id(s: Seq<char>) -> bool {
    text::starts_with(s, "call_"@) && is_simple_id(s.subrange(5, s.len() as int))
}

/// A fresh correlation id for a tool call.
pub fn call_request_id() -> (r: String)
    ensures
        is_call_id(r@),
        id_problem(r@) is None,
{
    let id = fresh_id();
    let r = text::cat("call_", id.as_str());
    proof {
        reveal_strlit("call_");
        law_call_ids_are_sound(id@);
        assert(r@.subrange(0, 5) =~= "call_"@);
        assert(r@.subrange(5, r@.len() as int) =~= id@);
    }
    r
}

/// `call_` before any fresh id is a sound correlation id.
pub proof fn law_call_ids_are_sound(id: Seq<char>)
    requires
        is_simple_id(id),
    ensures
        id_problem("call_"@ + id) is None,
{
    reveal_strlit("call_");
    let all = "call_"@ + id;
    assert forall|i: int| 0 <= i < all.len() implies id_char(#[trigger] all[i]) by {
        if i >= 5 {
            assert(all[i] == id[i - 5]);
        }
    }
    assert(is_ascii_chars(all));
    is_ascii_chars_encode_utf8(all);
}

} // verus!
