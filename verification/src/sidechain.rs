//! Side questions: where they are kept, and how their file is read, grown and written.
use crate::json::{
    lemma_member_at, lemma_reordered_member, object, reordered, said_number, said_text, Json,
    JsonView, ObjectBuilder,
};
use crate::paths::{join_path, joined_path};
use crate::protocol::{self, is_simple_id};
use crate::transcript::{LocalEntryView, LocalTranscriptEntry};
use crate::{text, unicode};
use vstd::prelude::*;
use vstd::string::*;
use vstd::utf8::*;

verus! {

/// The most bytes of the file of side questions.
pub const MAX_BTW_SIDECHAIN_BYTES: usize = 4 * 1024 * 1024;

/// The most bytes taken back from an editor.
pub const MAX_EDITOR_BYTES: usize = 128 * 1024;

/// The version of the file of side questions.
pub const SIDECHAIN_VERSION: u32 = 1;

/// Why side questions cannot be kept or read.
#[derive(Clone, Copy, Debug, PartialEq, Eq, Structural)]
pub enum SidechainError {
    TooLarge { limit: usize },
    Version { version: u32 },
    MissingHomeDirectory,
}

/// The side questions of a session and their answers.
#[derive(Debug)]
pub struct BtwSidechainStore {
    pub entries: Vec<LocalTranscriptEntry>,
}

/// Adds a piece of the file to what was read of it. A file that is too long is refused.
pub fn take_sidechain_piece(bytes: &mut Vec<u8>, piece: &[u8]) -> (r: Result<(), SidechainError>)
    requires
        old(bytes)@.len() <= MAX_BTW_SIDECHAIN_BYTES,
    ensures
        final(bytes)@.len() <= MAX_BTW_SIDECHAIN_BYTES,
        if old(bytes)@.len() + piece@.len() > MAX_BTW_SIDECHAIN_BYTES {
            &&& r == Err::<(), SidechainError>(
                SidechainError::TooLarge { limit: MAX_BTW_SIDECHAIN_BYTES },
            )
            &&& final(bytes)@ == old(bytes)@
        } else {
            &&& r is Ok
            &&& final(bytes)@ == old(bytes)@ + piece@
        },
{
    if piece.len() > MAX_BTW_SIDECHAIN_BYTES - bytes.len() {
        return Err(SidechainError::TooLarge { limit: MAX_BTW_SIDECHAIN_BYTES });
    }
    bytes.extend_from_slice(piece);
    assert(bytes@ =~= old(bytes)@ + piece@);
    Ok(())
}

/// Takes the number of bytes of a file that is about to be written.
pub fn check_sidechain_size(bytes: usize) -> (r: Result<(), SidechainError>)
    ensures
        if bytes > MAX_BTW_SIDECHAIN_BYTES {
            r == Err::<(), SidechainError>(
                SidechainError::TooLarge { limit: MAX_BTW_SIDECHAIN_BYTES },
            )
        } else {
            r is Ok
        },
{
    if bytes > MAX_BTW_SIDECHAIN_BYTES {
        Err(SidechainError::TooLarge { limit: MAX_BTW_SIDECHAIN_BYTES })
    } else {
        Ok(())
    }
}

impl BtwSidechainStore {
    /// The store of a session without side questions.
    pub fn new() -> (r: Self)
        ensures
            r.entries.deep_view() == Seq::<LocalEntryView>::empty(),
    {
        let r = BtwSidechainStore { entries: Vec::new() };
        assert(r.entries.deep_view() =~= Seq::empty());
        r
    }

    /// The store of a file, which must have the version that is known.
    pub fn load(version: u32, entries: Vec<LocalTranscriptEntry>) -> (r: Result<
        Self,
        SidechainError,
    >)
        ensures
            if version == SIDECHAIN_VERSION {
                r == Ok::<BtwSidechainStore, SidechainError>(BtwSidechainStore { entries })
            } else {
                r == Err::<BtwSidechainStore, SidechainError>(SidechainError::Version { version })
            },
    {
        if version == SIDECHAIN_VERSION {
            Ok(BtwSidechainStore { entries })
        } else {
            Err(SidechainError::Version { version })
        }
    }

    /// Adds an entry that is yet to be written.
    pub fn append(&mut self, entry: LocalTranscriptEntry)
        ensures
            final(self).entries.deep_view() == old(self).entries.deep_view().push(
                entry.deep_view(),
            ),
    {
        let ghost before = self.entries.deep_view();
        self.entries.push(entry);
        assert(self.entries.deep_view() =~= before.push(entry.deep_view()));
    }

    /// Takes back the newest entry unless it was written.
    pub fn settle(&mut self, written: bool)
        requires
            old(self).entries@.len() > 0,
        ensures
            final(self).entries.deep_view() == settled(old(self).entries.deep_view(), written),
    {
        let ghost before = self.entries.deep_view();
        if !written {
            let _ = self.entries.pop();
            assert(self.entries.deep_view() =~= before.drop_last());
        }
    }
}

/// The entries once it is known whether the newest was written.
pub open spec fn settled(entries: Seq<LocalEntryView>, written: bool) -> Seq<LocalEntryView> {
    if written {
        entries
    } else {
        entries.drop_last()
    }
}

/// The store holds what the file holds: an entry stays if and only if it was written.
pub proof fn law_unwritten_entries_are_dropped(entries: Seq<LocalEntryView>, entry: LocalEntryView)
    ensures
        settled(entries.push(entry), false) == entries,
        settled(entries.push(entry), true) == entries.push(entry),
{
    assert(entries.push(entry).drop_last() =~= entries);
}

/// The JSON form of an entry.
pub open spec fn entry_form(entry: LocalEntryView) -> JsonView {
    object(seq![("question"@, said_text(entry.question)), ("answer"@, said_text(entry.answer))])
}

/// The JSON form of the file of side questions.
pub open spec fn file_form(entries: Seq<LocalEntryView>) -> JsonView {
    object(
        seq![
            ("version"@, said_number(SIDECHAIN_VERSION as u64)),
            (
                "entries"@,
                JsonView::Array(entries.map_values(|entry: LocalEntryView| entry_form(entry))),
            ),
        ],
    )
}

/// The entry that a JSON value gives, its members in any order.
pub open spec fn entry_said(json: JsonView) -> Option<LocalEntryView> {
    match (json.member_text("question"@), json.member_text("answer"@)) {
        (Some(question), Some(answer)) => Some(LocalEntryView { question, answer }),
        _ => None,
    }
}

/// The entries that JSON values give, if each gives one.
pub open spec fn entries_said(items: Seq<JsonView>) -> Option<Seq<LocalEntryView>>
    decreases items.len(),
{
    if items.len() == 0 {
        Some(Seq::empty())
    } else {
        match (entries_said(items.drop_last()), entry_said(items.last())) {
            (Some(before), Some(entry)) => Some(before.push(entry)),
            _ => None,
        }
    }
}

/// The version and the entries that the JSON form of a file gives, its members in any order.
pub open spec fn file_said(json: JsonView) -> Option<(u32, Seq<LocalEntryView>)> {
    match (json.member_number("version"@), json.member("entries"@)) {
        (Some(version), Some(listed)) => match listed.items() {
            Some(items) => match entries_said(items) {
                Some(entries) => if json.size() == Some(2nat) && version <= u32::MAX {
                    Some((version as u32, entries))
                } else {
                    None
                },
                None => None,
            },
            None => None,
        },
        _ => None,
    }
}

impl BtwSidechainStore {
    /// The JSON form of the file, in which the entries are written.
    pub fn file_json(&self) -> (r: Json)
        ensures
            r.deep_view() == file_form(self.entries.deep_view()),
    {
        let ghost wanted = self.entries.deep_view().map_values(
            |entry: LocalEntryView| entry_form(entry),
        );
        let mut items: Vec<Json> = Vec::new();
        let mut i: usize = 0;
        assert(items.deep_view() =~= wanted.take(0));
        while i < self.entries.len()
            invariant
                wanted == self.entries.deep_view().map_values(
                    |entry: LocalEntryView| entry_form(entry),
                ),
                i <= self.entries@.len(),
                items.deep_view() == wanted.take(i as int),
            decreases self.entries@.len() - i,
        {
            let ghost before = items.deep_view();
            let entry = &self.entries[i];
            assert(self.entries.deep_view()[i as int] == entry.deep_view());
            let built = ObjectBuilder::new().text("question", entry.question.as_str()).text(
                "answer",
                entry.answer.as_str(),
            );
            assert(built.said() =~= seq![
                ("question"@, said_text(entry.question@)),
                ("answer"@, said_text(entry.answer@)),
            ]);
            let item = built.build();
            items.push(item);
            assert(items.deep_view() =~= before.push(item.deep_view()));
            assert(items.deep_view() =~= wanted.take(i + 1));
            i += 1;
        }
        assert(wanted.take(i as int) =~= wanted);
        let built = ObjectBuilder::new().number("version", SIDECHAIN_VERSION as u64).with(
            "entries",
            Json::of_items(items),
        );
        assert(built.said() =~= seq![
            ("version"@, said_number(SIDECHAIN_VERSION as u64)),
            ("entries"@, JsonView::Array(wanted)),
        ]);
        built.build()
    }
}

proof fn lemma_no_entries(items: Seq<JsonView>, at: int)
    requires
        0 <= at < items.len(),
        entry_said(items[at]) is None,
    ensures
        entries_said(items) is None,
    decreases items.len(),
{
    if at < items.len() - 1 {
        lemma_no_entries(items.drop_last(), at);
    }
}

/// Takes the version and the entries from the JSON form of a file.
pub fn file_of_json(json: &Json) -> (r: Option<(u32, Vec<LocalTranscriptEntry>)>)
    ensures
        match r {
            Some((version, entries)) => file_said(json.deep_view()) == Some(
                (version, entries.deep_view()),
            ),
            None => file_said(json.deep_view()) is None,
        },
{
    let (version, items) = match (json.get_u64("version"), json.get("entries")) {
        (Some(version), Some(listed)) => match listed.as_array() {
            Some(items) => (version, items),
            None => return None,
        },
        _ => return None,
    };
    let ghost all = items.deep_view();
    let mut entries: Vec<LocalTranscriptEntry> = Vec::new();
    let mut i: usize = 0;
    assert(entries.deep_view() =~= Seq::empty());
    assert(all.take(0) =~= Seq::empty());
    while i < items.len()
        invariant
            all == items.deep_view(),
            json.deep_view().member("entries"@) matches Some(listed) && listed.items() == Some(all),
            i <= items@.len(),
            entries_said(all.take(i as int)) == Some(entries.deep_view()),
        decreases items@.len() - i,
    {
        let ghost before = entries.deep_view();
        assert(all[i as int] == items@[i as int].deep_view());
        let entry = match (items[i].get_str("question"), items[i].get_str("answer")) {
            (Some(question), Some(answer)) => LocalTranscriptEntry {
                question: question.to_owned(),
                answer: answer.to_owned(),
            },
            _ => {
                proof {
                    lemma_no_entries(all, i as int);
                }
                return None;
            },
        };
        assert(all.take(i + 1).drop_last() =~= all.take(i as int));
        entries.push(entry);
        assert(entries.deep_view() =~= before.push(entry.deep_view()));
        i += 1;
    }
    assert(all.take(i as int) =~= all);
    if json.has_size(2) && version <= 4294967295 {
        Some((version as u32, entries))
    } else {
        None
    }
}

proof fn lemma_entry_round_trip(entry: LocalEntryView, json: JsonView)
    ensures
        entry_said(entry_form(entry)) == Some(entry),
        reordered(entry_form(entry), json) ==> entry_said(json) == Some(entry),
{
    reveal_strlit("question");
    reveal_strlit("answer");
    assert("question"@.len() == 8 && "answer"@.len() == 6);
    if let JsonView::Object(members) = entry_form(entry) {
        lemma_member_at(members, "question"@, 0, 0);
        lemma_member_at(members, "answer"@, 0, 1);
    }
    if reordered(entry_form(entry), json) {
        lemma_reordered_member(entry_form(entry), json, "question"@);
        lemma_reordered_member(entry_form(entry), json, "answer"@);
    }
}

proof fn lemma_entries_round_trip(entries: Seq<LocalEntryView>, items: Seq<JsonView>)
    requires
        items.len() == entries.len(),
        forall|i: int|
            0 <= i < items.len() ==> #[trigger] items[i] == entry_form(entries[i]) || reordered(
                entry_form(entries[i]),
                items[i],
            ),
    ensures
        entries_said(items) == Some(entries),
    decreases entries.len(),
{
    if entries.len() == 0 {
        assert(entries =~= Seq::empty());
    } else {
        lemma_entries_round_trip(entries.drop_last(), items.drop_last());
        assert(items[items.len() - 1] == items.last());
        lemma_entry_round_trip(entries.last(), items.last());
        assert(entries.drop_last().push(entries.last()) =~= entries);
    }
}

/// What the file is written with is read back from it, with the version that is known: all entries
/// there were, and the newest if and only if it was written. The order in which the members of an
/// object come back does not matter.
pub proof fn law_written_entries_are_read_back(
    entries: Seq<LocalEntryView>,
    entry: LocalEntryView,
    written: bool,
    json: JsonView,
)
    requires
        ({
            let form = file_form(settled(entries.push(entry), written));
            json == form || reordered(form, json)
        }),
    ensures
        file_said(json) == Some(
            (
                SIDECHAIN_VERSION,
                if written {
                    entries.push(entry)
                } else {
                    entries
                },
            ),
        ),
{
    let kept = settled(entries.push(entry), written);
    let form = file_form(kept);
    law_unwritten_entries_are_dropped(entries, entry);
    reveal_strlit("version");
    reveal_strlit("entries");
    assert("version"@[0] != "entries"@[0]);
    if let JsonView::Object(members) = form {
        lemma_member_at(members, "version"@, 0, 0);
        lemma_member_at(members, "entries"@, 0, 1);
    }
    if json != form {
        lemma_reordered_member(form, json, "version"@);
        lemma_reordered_member(form, json, "entries"@);
    }
    let items = json.member("entries"@)->0.items()->0;
    assert forall|i: int| 0 <= i < items.len() implies #[trigger] items[i] == entry_form(kept[i])
        || reordered(entry_form(kept[i]), items[i]) by {
        let listed = kept.map_values(|entry: LocalEntryView| entry_form(entry));
        assert(listed[i] == entry_form(kept[i]));
    }
    lemma_entries_round_trip(kept, items);
}

/// The hash of bytes.
pub open spec fn hashed(bytes: Seq<u8>) -> u64
    decreases bytes.len(),
{
    if bytes.len() == 0 {
        0xcbf2_9ce4_8422_2325
    } else {
        (hashed(bytes.drop_last()) ^ bytes.last() as u64).wrapping_mul(0x100_0000_01b3)
    }
}

/// The hash of a path. It is the same in every process.
pub fn stable_path_hash(path: &[u8]) -> (r: u64)
    ensures
        r == hashed(path@),
{
    let mut hash: u64 = 0xcbf2_9ce4_8422_2325;
    let mut i: usize = 0;
    while i < path.len()
        invariant
            i <= path@.len(),
            hash == hashed(path@.take(i as int)),
        decreases path@.len() - i,
    {
        assert(path@.take(i + 1).drop_last() =~= path@.take(i as int));
        hash = (hash ^ path[i] as u64).wrapping_mul(0x100_0000_01b3);
        i += 1;
    }
    assert(path@.take(i as int) =~= path@);
    hash
}

/// The ASCII code of a hexadecimal digit.
pub open spec fn hex_digit(d: int) -> u8 {
    if d < 10 {
        (0x30 + d) as u8
    } else {
        (0x57 + d) as u8
    }
}

/// The last `count` hexadecimal digits of a number.
pub open spec fn hex_digits(n: int, count: nat) -> Seq<u8>
    decreases count,
{
    if count == 0 {
        Seq::empty()
    } else {
        hex_digits(n / 16, (count - 1) as nat).push(hex_digit(n % 16))
    }
}

/// Adds the last `count` hexadecimal digits of a number.
fn push_hex(out: &mut Vec<u8>, n: u64, count: usize)
    ensures
        final(out)@ == old(out)@ + hex_digits(n as int, count as nat),
    decreases count,
{
    if count > 0 {
        push_hex(out, n / 16, count - 1);
        let d: u8 = (n % 16) as u8;
        if d < 10 {
            out.push(0x30 + d);
        } else {
            out.push(0x57 + d);
        }
    }
    assert(out@ =~= old(out)@ + hex_digits(n as int, count as nat));
}

/// Where side questions are kept.
#[derive(Debug, PartialEq, Eq)]
pub enum SidechainPlace {
    At(Vec<u8>),
    UnderHome(Vec<u8>),
}

/// Where side questions are kept: the configured path, beside the session's file, or under the
/// program's directory.
pub open spec fn place_of(
    configured: Option<Seq<u8>>,
    session: Option<Seq<u8>>,
    program_home: Option<Seq<u8>>,
    user_home: Option<Seq<u8>>,
    place: Result<SidechainPlace, SidechainError>,
) -> bool {
    match (configured, session, program_home, user_home) {
        (Some(path), _, _, _) => place matches Ok(SidechainPlace::At(p)) && p@ == path,
        (None, Some(path), _, _) => place matches Ok(SidechainPlace::At(p)) && p@ == path
            + encode_utf8(".btw.json"@),
        (None, None, Some(home), _) => place matches Ok(SidechainPlace::UnderHome(h)) && h@ == home,
        (None, None, None, Some(home)) => place matches Ok(SidechainPlace::UnderHome(h)) && h@
            == joined_path(home, encode_utf8(".mycode"@)),
        (None, None, None, None) => place == Err::<SidechainPlace, SidechainError>(
            SidechainError::MissingHomeDirectory,
        ),
    }
}

/// The bytes of an optional path.
pub open spec fn optional_bytes(path: Option<&[u8]>) -> Option<Seq<u8>> {
    match path {
        Some(path) => Some(path@),
        None => None,
    }
}

/// A copy of bytes.
fn copied(bytes: &[u8]) -> (r: Vec<u8>)
    ensures
        r@ == bytes@,
{
    let mut out: Vec<u8> = Vec::new();
    out.extend_from_slice(bytes);
    assert(out@ =~= bytes@);
    out
}

/// Where side questions are kept. `program_home` and `user_home` are what the environment says of
/// the program's and the user's directory.
pub fn btw_sidechain_place(
    configured: Option<&[u8]>,
    session: Option<&[u8]>,
    program_home: Option<&[u8]>,
    user_home: Option<&[u8]>,
) -> (r: Result<SidechainPlace, SidechainError>)
    ensures
        place_of(
            optional_bytes(configured),
            optional_bytes(session),
            optional_bytes(program_home),
            optional_bytes(user_home),
            r,
        ),
{
    if let Some(path) = configured {
        return Ok(SidechainPlace::At(copied(path)));
    }
    if let Some(path) = session {
        let mut sidecar = copied(path);
        sidecar.extend_from_slice(".btw.json".as_bytes());
        assert(sidecar@ =~= path@ + encode_utf8(".btw.json"@));
        return Ok(SidechainPlace::At(sidecar));
    }
    if let Some(home) = program_home {
        return Ok(SidechainPlace::UnderHome(copied(home)));
    }
    match user_home {
        Some(home) => Ok(SidechainPlace::UnderHome(join_path(home, ".mycode".as_bytes()))),
        None => Err(SidechainError::MissingHomeDirectory),
    }
}

/// The path of the side questions of a workspace: under `home`, in `sidechains`, sixteen
/// hexadecimal digits of the workspace's hash and `.json`.
pub open spec fn workspace_sidechain(home: Seq<u8>, workspace: Seq<u8>) -> Seq<u8> {
    joined_path(
        joined_path(home, encode_utf8("sidechains"@)),
        hex_digits(hashed(workspace) as int, 16) + encode_utf8(".json"@),
    )
}

/// The path of the side questions of a workspace.
pub fn btw_sidechain_path(home: &[u8], workspace: &[u8]) -> (r: Vec<u8>)
    ensures
        r@ == workspace_sidechain(home@, workspace@),
{
    let mut name: Vec<u8> = Vec::new();
    push_hex(&mut name, stable_path_hash(workspace), 16);
    assert(name@ =~= hex_digits(hashed(workspace@) as int, 16));
    name.extend_from_slice(".json".as_bytes());
    assert(name@ =~= hex_digits(hashed(workspace@) as int, 16) + encode_utf8(".json"@));
    let directory = join_path(home, "sidechains".as_bytes());
    join_path(directory.as_slice(), name.as_slice())
}

/// The characters of an optional name.
pub open spec fn given_name(name: Option<&str>) -> Option<Seq<char>> {
    match name {
        Some(name) => Some(name@),
        None => None,
    }
}

/// The name that a file has while it is written.
pub open spec fn temporary_name_of(file_name: Option<Seq<char>>, id: Seq<char>) -> Seq<char> {
    "."@ + match file_name {
        Some(name) => name,
        None => "btw-sidechain"@,
    } + "."@ + id + ".tmp"@
}

/// The name with this id that a file has while it is written.
pub fn temporary_name_with(file_name: Option<&str>, id: &str) -> (r: String)
    ensures
        r@ == temporary_name_of(given_name(file_name), id@),
{
    let mut name = ".".to_owned();
    name.append(
        match file_name {
            Some(given) => given,
            None => "btw-sidechain",
        },
    );
    name.append(".");
    name.append(id);
    name.append(".tmp");
    name
}

/// A fresh name for a file while it is written.
pub fn temporary_name(file_name: Option<&str>) -> (r: String)
    ensures
        exists|id: Seq<char>|
            is_simple_id(id) && r@ == #[trigger] temporary_name_of(given_name(file_name), id),
{
    let id = protocol::core_request_id();
    temporary_name_with(file_name, id.as_str())
}

/// The name of the file that is handed to an editor.
pub open spec fn edited_name_of(id: Seq<char>, suffix: Seq<char>) -> Seq<char> {
    "mycode-"@ + id + "-"@ + suffix + ".md"@
}

/// A fresh name for the file that is handed to an editor.
pub fn edited_file_name(suffix: &str) -> (r: String)
    ensures
        exists|id: Seq<char>|
            is_simple_id(id) && r@ == #[trigger] edited_name_of(id, suffix@),
{
    let id = protocol::core_request_id();
    let mut name = text::cat("mycode-", id.as_str());
    name.append("-");
    name.append(suffix);
    name.append(".md");
    assert(name@ == edited_name_of(id@, suffix@));
    name
}

/// Why an edited text is not taken.
#[derive(Clone, Copy, Debug, PartialEq, Eq, Structural)]
pub enum EditError {
    EditorFailed,
    TooLarge { limit: usize },
    Encoding,
}

/// The text that an editor left, of which at most one byte more than allowed was read.
pub fn edited_text(editor_succeeded: bool, bytes: Vec<u8>) -> (r: Result<String, EditError>)
    ensures
        if !editor_succeeded {
            r == Err::<String, EditError>(EditError::EditorFailed)
        } else if bytes@.len() > MAX_EDITOR_BYTES {
            r == Err::<String, EditError>(EditError::TooLarge { limit: MAX_EDITOR_BYTES })
        } else if !valid_utf8(bytes@) {
            r == Err::<String, EditError>(EditError::Encoding)
        } else {
            r matches Ok(content) && content@ == decode_utf8(bytes@)
        },
{
    if !editor_succeeded {
        return Err(EditError::EditorFailed);
    }
    if bytes.len() > MAX_EDITOR_BYTES {
        return Err(EditError::TooLarge { limit: MAX_EDITOR_BYTES });
    }
    match unicode::text_of_utf8(bytes) {
        Some(content) => Ok(content),
        None => Err(EditError::Encoding),
    }
}

} // verus!
