//! What the functions of the library promise of their results.
use crate::exchange;
use crate::git;
use crate::json::Json;
use crate::plugins::{self, PluginClientError};
use crate::protocol::{self, ProtocolError, ProtocolRange, ResponseEnvelope, ToolResult};
use crate::provider::{ProviderError, ProviderErrorView};
use crate::runtime;
use crate::service;
use crate::session::{self, CoreSnapshot, CoreToolCall, PermissionMode};
use crate::sidechain::{self, EditError};
use crate::text;
use crate::unicode;
use crate::workspace::{self, WorkspaceError, WorkspaceErrorView};
use vstd::prelude::*;
use vstd::utf8::{decode_utf8, valid_utf8};

verus! {

/// What `shell_text` returns begins with everything that the command printed on its standard
/// output; where there are no errors and the command succeeded, it is exactly that.
pub proof fn law_shell_text(stdout: String, stderr: &str, failed: Option<&str>, r: String)
    requires
        call_ensures(workspace::shell_text, (stdout, stderr, failed), r),
    ensures
        stdout@.is_prefix_of(r@),
        stderr@.len() == 0 && failed is None ==> r@ == stdout@,
        stderr@.len() > 0 ==> (stdout@ + "\n[stderr]\n"@ + stderr@).is_prefix_of(r@),
{
    crate::laws::serving::law_commands_are_told_whole(
        stdout@,
        stderr@,
        match failed {
            Some(status) => Some(status@),
            None => None,
        },
    );
}

/// What `shell_result` returns holds what the command printed, whole.
pub proof fn law_shell_result(
    stdout: &[u8],
    stderr: &[u8],
    failed: Option<&str>,
    r: Result<ToolResult, WorkspaceError>,
)
    requires
        call_ensures(workspace::shell_result, (stdout, stderr, failed), r),
    ensures
        r matches Ok(result) ==> unicode::lossy(stdout@).is_prefix_of(result.output@)
            && !result.truncated,
        r matches Ok(result) ==> (unicode::lossy(stderr@).len() == 0 && failed is None
            ==> result.output@ == unicode::lossy(stdout@)),
{
    crate::laws::serving::law_commands_are_told_whole(
        unicode::lossy(stdout@),
        unicode::lossy(stderr@),
        match failed {
            Some(status) => Some(status@),
            None => None,
        },
    );
}

/// What `command_result` returns of a Git command begins with everything that it printed.
pub proof fn law_command_result(
    stdout: &[u8],
    stderr: &[u8],
    failed: Option<&str>,
    r: ToolResult,
)
    requires
        call_ensures(git::command_result, (stdout, stderr, failed), r),
    ensures
        unicode::lossy(stdout@).is_prefix_of(r.output@),
        unicode::lossy(stderr@).len() == 0 && failed is None ==> r.output@ == unicode::lossy(
            stdout@,
        ),
        !r.truncated,
{
    crate::laws::serving::law_git_is_told_whole(
        unicode::lossy(stdout@),
        unicode::lossy(stderr@),
        match failed {
            Some(status) => Some(status@),
            None => None,
        },
    );
}

/// What `read_result` returns of a file is its text, whole.
pub proof fn law_read_result(bytes: Vec<u8>, r: Result<ToolResult, WorkspaceError>)
    requires
        call_ensures(workspace::read_result, (bytes,), r),
    ensures
        r matches Ok(result) ==> valid_utf8(bytes@) && result.output@ == decode_utf8(bytes@)
            && !result.truncated,
        !valid_utf8(bytes@) ==> (r matches Err(error) && error.deep_view()
            == WorkspaceErrorView::InvalidUtf8),
        valid_utf8(bytes@) && text::utf8_len(decode_utf8(bytes@)) <= 262_144 ==> r is Ok,
{
}

/// What `edited_content` returns is the text of the file with the one place changed.
pub proof fn law_edited_content(
    before: Seq<char>,
    after: Seq<char>,
    bytes: Vec<u8>,
    old_text: &str,
    new_text: &str,
    r: Result<String, WorkspaceError>,
)
    requires
        call_ensures(workspace::edited_content, (bytes, old_text, new_text), r),
        valid_utf8(bytes@),
        decode_utf8(bytes@) == before + old_text@ + after,
        old_text@.len() > 0,
        forall|k: int|
            0 <= k && k + old_text@.len() <= (before + old_text@ + after).len() && k
                != before.len() ==> #[trigger] (before + old_text@ + after).subrange(
                k,
                k + old_text@.len(),
            ) != old_text@,
    ensures
        r matches Ok(content) && content@ == before + new_text@ + after,
{
    crate::laws::serving::law_single_texts_are_replaced(before, old_text@, after, new_text@);
}

/// What `response_payload` returns is what a successful response says; the status and the body of
/// any other are told.
pub proof fn law_response_payload(status: u16, body: &[u8], r: Result<Json, ProviderError>)
    requires
        call_ensures(exchange::response_payload, (status, body), r),
    ensures
        r matches Ok(payload) ==> 200 <= status < 300 && crate::json::parsed_json_bytes(body@)
            == Some(payload.deep_view()),
        !(200 <= status < 300) ==> (r matches Err(error) && error.deep_view() == (
        ProviderErrorView::Status { status, body: unicode::lossy(body@) })),
{
}

/// What `omp_credential` returns is what the command printed, without the white space around it.
pub proof fn law_omp_credential(
    succeeded: bool,
    stdout: Vec<u8>,
    stderr: &[u8],
    r: Result<String, ProviderError>,
)
    requires
        call_ensures(exchange::omp_credential, (succeeded, stdout, stderr), r),
    ensures
        r matches Ok(token) ==> succeeded && token@.len() > 0 && token@ == text::trimmed(
            decode_utf8(stdout@),
        ),
        !succeeded ==> (r matches Err(error) && error.deep_view() == (
        ProviderErrorView::OmpTokenRejected { message: text::trimmed(unicode::lossy(stderr@)) })),
{
}

/// What `encode_frame` returns is the payload behind its length.
pub proof fn law_encode_frame(payload: &Vec<u8>, r: Result<Vec<u8>, ProtocolError>)
    requires
        call_ensures(protocol::encode_frame, (payload,), r),
    ensures
        r matches Ok(frame) ==> frame@.len() == payload@.len() + 4 && frame@.skip(4) == payload@
            && protocol::big_endian(frame@.take(4)) == payload@.len(),
        0 < payload@.len() <= 1_048_576 ==> r is Ok,
        payload@.len() == 0 ==> r is Err,
{
    if let Ok(frame) = r {
        let head = protocol::header_of(payload@.len() as int);
        assert(frame@.skip(4) =~= payload@);
        assert(frame@.take(4) =~= head);
        crate::laws::plugging::law_frame_heads(head, payload@.len() as int);
    }
}

/// What `call_reply` returns tells the output of the tool as it is, or why it failed.
pub proof fn law_call_reply(
    id: String,
    outcome: Result<ToolResult, String>,
    r: ResponseEnvelope,
)
    requires
        call_ensures(service::call_reply, (id, outcome), r),
    ensures
        r.id@ == id@,
        r.ok == outcome is Ok,
        outcome matches Ok(result) ==> (r.result matches Some(told)
            && crate::laws::asking::says(told.deep_view(), "output"@, result.output@)),
        outcome matches Err(message) ==> (r.error matches Some(failure) && text::starts_with(
            message@,
            failure.message@,
        )),
{
    if let Ok(result) = outcome {
        crate::laws::plugging::law_results_are_told(result.output@, result.truncated);
    }
    if let Err(message) = outcome {
        protocol::law_cut_text(message@, 4096);
    }
}

/// What `startup_permission_mode` returns is what was asked for; otherwise what the session had,
/// or the mode that decides by itself.
pub proof fn law_startup_permission_mode(
    restored: bool,
    requested: Option<PermissionMode>,
    snapshot: &CoreSnapshot,
    r: PermissionMode,
)
    requires
        call_ensures(session::startup_permission_mode, (restored, requested, snapshot), r),
    ensures
        requested matches Some(mode) ==> r == mode,
        requested is None && !restored ==> r == PermissionMode::Auto,
        requested is None && restored ==> (r == PermissionMode::Yolo <==> snapshot.permission_mode@
            == "yolo"@),
        requested is None && restored ==> (r == PermissionMode::Auto <==> snapshot.permission_mode@
            == "auto"@),
{
    crate::laws::answering::law_permission_words(snapshot.permission_mode@);
}

/// What `active_pending_call` returns is the call that the session is at.
pub proof fn law_active_pending_call(snapshot: &CoreSnapshot, r: Option<CoreToolCall>)
    requires
        call_ensures(session::active_pending_call, (snapshot,), r),
    ensures
        snapshot.current_call < snapshot.pending_calls@.len() ==> (r matches Some(call)
            && call.call_id@ == snapshot.pending_calls@[snapshot.current_call as int].call_id@
            && call.name@ == snapshot.pending_calls@[snapshot.current_call as int].name@),
        snapshot.current_call >= snapshot.pending_calls@.len() ==> r is None,
{
}

/// What `edited_text` returns is what the editor left, where it succeeded.
pub proof fn law_edited_text(succeeded: bool, bytes: Vec<u8>, r: Result<String, EditError>)
    requires
        call_ensures(sidechain::edited_text, (succeeded, bytes), r),
    ensures
        r matches Ok(content) ==> succeeded && valid_utf8(bytes@) && content@ == decode_utf8(
            bytes@,
        ),
        !succeeded ==> r == Err::<String, EditError>(EditError::EditorFailed),
{
}

/// What `accept_versions` accepts is a range of versions in which the one spoken lies.
pub proof fn law_accept_versions(range: ProtocolRange, r: Result<(), PluginClientError>)
    requires
        call_ensures(plugins::accept_versions, (range,), r),
    ensures
        r is Ok <==> range.min_version <= 1 <= range.max_version,
{
}

/// What `auto_compact_threshold` returns is that part of the window in percent.
pub proof fn law_auto_compact_threshold(window: u64, percent: u8, r: u64)
    requires
        call_ensures(runtime::auto_compact_threshold, (window, percent), r),
    ensures
        window * percent <= u64::MAX ==> r == window * percent / 100,
        percent <= 100 && window <= 0x1_0000_0000 ==> r <= window,
{
    if percent <= 100 && window <= 0x1_0000_0000 {
        assert(window * percent <= window * 100) by (nonlinear_arith)
            requires
                percent <= 100,
                window >= 0,
        ;
    }
}

} // verus!
