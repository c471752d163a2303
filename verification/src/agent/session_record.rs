//! Sessions as they are kept on disk, to go on with later.
//!
//! A session file holds the messages of a session and where older ones were moved to. Files of the
//! first version hold messages alone. Messages that were moved are kept in archives, one to a line.

use crate::json::{member_number, parse_json};
#[allow(unused_imports)]
use crate::json::{json_document, json_view, member, number_in, JsonView};
use crate::random::random_uuid;
#[allow(unused_imports)]
use crate::random::uuid_shaped;
use crate::text::same_text;
#[allow(unused_imports)]
use crate::text::texts;
use vstd::prelude::*;

verus! {

/// The version of session files.
pub const SESSION_RECORD_VERSION: u32 = 2;

/// A message of a session.
#[derive(Debug, Clone, PartialEq, Eq)]
pub struct ChatMessage {
    /// Who speaks: `system`, `user` or another
    pub role: String,
    pub content: String,
}

/// What a message of a session says.
#[verifier::ext_equal]
pub struct MessageView {
    pub role: Seq<char>,
    pub content: Seq<char>,
}

impl View for ChatMessage {
    type V = MessageView;

    open spec fn view(&self) -> MessageView {
        MessageView { role: self.role@, content: self.content@ }
    }
}

/// What the messages of a session say.
pub open spec fn message_views(history: Seq<ChatMessage>) -> Seq<MessageView> {
    history.map_values(|m: ChatMessage| m@)
}

impl ChatMessage {
    /// A message of the system.
    pub fn system(content: &str) -> (r: Self)
        ensures
            r@ == system_message(content@),
    {
        ChatMessage { role: "system".to_string(), content: content.to_string() }
    }

    /// A message of the user.
    pub fn user(content: &str) -> (r: Self)
        ensures
            r@ == (MessageView { role: "user"@, content: content@ }),
    {
        ChatMessage { role: "user".to_string(), content: content.to_string() }
    }
}

/// A message of the system.
pub open spec fn system_message(content: Seq<char>) -> MessageView {
    MessageView { role: "system"@, content }
}

/// Where older messages of a session were moved to.
#[derive(Debug, Clone, PartialEq, Eq)]
pub struct SessionCompactionMeta {
    /// Paths of the archives, from the directory of the sessions
    pub archive_paths: Vec<String>,
    /// The beginning of the last summary
    pub last_summary_excerpt: Option<String>,
}

impl Default for SessionCompactionMeta {
    fn default() -> (r: Self)
        ensures
            r.archive_paths@.len() == 0,
            r.last_summary_excerpt is None,
    {
        SessionCompactionMeta { archive_paths: Vec::new(), last_summary_excerpt: None }
    }
}

/// A session.
#[derive(Debug, Clone)]
pub struct SessionRecord {
    pub version: u32,
    pub history: Vec<ChatMessage>,
    pub compaction: Option<SessionCompactionMeta>,
}

/// What was found of a session.
#[derive(Debug, Clone)]
pub enum StoredSession {
    /// There is no file
    Missing,
    /// The messages in a file of the first version
    Legacy(Vec<ChatMessage>),
    /// A file of a later version
    Current(SessionRecord),
}

/// A history that begins with a message of the system.
pub open spec fn begins_with_system(history: Seq<MessageView>) -> bool {
    history.len() > 0 && history[0].role == "system"@
}

/// A history with a message of the system in front, unless it has one there.
pub open spec fn with_system_prompt(history: Seq<MessageView>, prompt: Seq<char>) -> Seq<
    MessageView,
> {
    if begins_with_system(history) {
        history
    } else {
        seq![system_message(prompt)] + history
    }
}

/// Puts a message of the system in front of a history, unless it has one there.
pub fn ensure_system_prompt(history: &mut Vec<ChatMessage>, system_prompt: &str)
    ensures
        message_views(final(history)@) == with_system_prompt(
            message_views(old(history)@),
            system_prompt@,
        ),
{
    if history.len() == 0 || !same_text(history[0].role.as_str(), "system") {
        let first = ChatMessage::system(system_prompt);
        history.insert(0, first);
        assert(message_views(history@) =~= seq![first@] + message_views(old(history)@));
    }
}

/// The history that was found of a session.
pub open spec fn stored_history(stored: StoredSession) -> Seq<MessageView> {
    match stored {
        StoredSession::Missing => Seq::empty(),
        StoredSession::Legacy(history) => message_views(history@),
        StoredSession::Current(record) => message_views(record.history@),
    }
}

/// Brings what was found of a session to the present version. A session that is new has the
/// message of the system alone; one of the first version has no archives. The history begins with a
/// message of the system.
pub fn load_session_record(stored: StoredSession, system_prompt: &str) -> (r: SessionRecord)
    ensures
        r.version == SESSION_RECORD_VERSION,
        message_views(r.history@) == with_system_prompt(stored_history(stored), system_prompt@),
        r.compaction == (match stored {
            StoredSession::Current(record) => record.compaction,
            _ => None,
        }),
{
    let (mut history, compaction): (Vec<ChatMessage>, Option<SessionCompactionMeta>) = match stored {
        StoredSession::Missing => (Vec::new(), None),
        StoredSession::Legacy(history) => (history, None),
        StoredSession::Current(record) => (record.history, record.compaction),
    };
    assert(message_views(history@) =~= stored_history(stored));
    ensure_system_prompt(&mut history, system_prompt);
    SessionRecord { version: SESSION_RECORD_VERSION, history, compaction }
}

/// A history that was loaded begins with a message of the system.
pub proof fn loaded_history_begins_with_system(history: Seq<MessageView>, prompt: Seq<char>)
    ensures
        begins_with_system(with_system_prompt(history, prompt)),
{
}

/// A history that begins with a message of the system is loaded as it was saved, whatever the prompt.
pub proof fn saved_history_is_loaded(history: Seq<MessageView>, prompt: Seq<char>)
    requires
        begins_with_system(history),
    ensures
        with_system_prompt(history, prompt) == history,
{
}

/// Loading again, whatever the prompt, changes nothing: a history gets one message of the system at
/// most.
pub proof fn loading_twice_changes_nothing(
    history: Seq<MessageView>,
    prompt: Seq<char>,
    other: Seq<char>,
)
    ensures
        with_system_prompt(with_system_prompt(history, prompt), other) == with_system_prompt(
            history,
            prompt,
        ),
{
}

/// Loading keeps all messages of a history, in their order, at its end.
pub proof fn loading_keeps_messages(history: Seq<MessageView>, prompt: Seq<char>)
    ensures
        ({
            let loaded = with_system_prompt(history, prompt);
            &&& history.len() <= loaded.len() <= history.len() + 1
            &&& loaded.skip(loaded.len() - history.len()) == history
        }),
{
    let loaded = with_system_prompt(history, prompt);
    assert(loaded.skip(loaded.len() - history.len()) =~= history);
}

/// The version that a session file tells: the number under `version`, of which the lowest 32 bits
/// count; 2 where there is none.
pub open spec fn stored_version(document: JsonView) -> u32 {
    match number_in(member(document, "version"@)) {
        Some(n) => (n % 0x1_0000_0000) as u32,
        None => 2,
    }
}

/// The version that the document of a session file tells.
pub fn version_of(document: &serde_json::Value) -> (r: u32)
    ensures
        r == stored_version(json_view(*document)),
{
    match member_number(document, "version") {
        Some(n) => {
            assert(n as u32 == n % 0x1_0000_0000) by (bit_vector);
            n as u32
        },
        None => 2,
    }
}

/// The document of a session file, by its form.
#[derive(Debug, Clone)]
pub enum SessionDocument {
    /// Of the first version
    Legacy(serde_json::Value),
    /// Of a later version
    Current(serde_json::Value),
}

/// A document in the form that its version tells: the first version has the legacy form, all others
/// have the present one.
pub open spec fn has_form(r: SessionDocument, document: JsonView) -> bool {
    match r {
        SessionDocument::Legacy(v) => json_view(v) == document && stored_version(document) == 1,
        SessionDocument::Current(v) => json_view(v) == document && stored_version(document) != 1,
    }
}

/// Tells the form of the document of a session file.
pub fn form_of(document: serde_json::Value) -> (r: SessionDocument)
    ensures
        has_form(r, json_view(document)),
{
    if version_of(&document) == 1 {
        SessionDocument::Legacy(document)
    } else {
        SessionDocument::Current(document)
    }
}

/// Reads the content of a session file and tells its form, `None` where it is no JSON.
pub fn session_document(content: &[u8]) -> (r: Option<SessionDocument>)
    ensures
        match json_document(content@) {
            Some(document) => r matches Some(form) && has_form(form, document),
            None => r is None,
        },
{
    match parse_json(content) {
        Ok(document) => Some(form_of(document)),
        Err(_) => None,
    }
}

/// A new name for an archive.
pub fn archive_name() -> (r: String)
    ensures
        r@.len() == 42,
        uuid_shaped(r@.take(36)),
        r@.skip(36) == ".jsonl"@,
{
    let id = random_uuid();
    let name = id.clone().concat(".jsonl");
    proof {
        reveal_strlit(".jsonl");
        assert(name@.take(36) =~= id@);
        assert(name@.skip(36) =~= ".jsonl"@);
    }
    name
}

/// The path of an archive, from the directory of the sessions.
pub fn archive_path(name: &str) -> (r: String)
    ensures
        r@ == "archives/"@ + name@,
{
    "archives/".to_string().concat(name)
}

/// Lines behind one another, each with its end.
pub open spec fn as_lines(lines: Seq<Seq<char>>) -> Seq<char>
    decreases lines.len(),
{
    if lines.len() == 0 {
        Seq::empty()
    } else {
        as_lines(lines.drop_last()) + lines.last() + seq!['\n']
    }
}

/// The content of an archive, given its messages as one line of JSON each.
pub fn archive_content(lines: &Vec<String>) -> (r: String)
    ensures
        r@ == as_lines(texts(lines@)),
{
    let mut out = String::new();
    let ghost all = texts(lines@);
    for i in 0..lines.len()
        invariant
            all == texts(lines@),
            out@ == as_lines(all.take(i as int)),
    {
        let ghost before = out@;
        assert(all.take(i + 1).drop_last() =~= all.take(i as int));
        assert(all.take(i + 1).last() == lines@[i as int]@);
        out.append(lines[i].as_str());
        out.push('\n');
        assert(out@ =~= before + lines@[i as int]@ + seq!['\n']);
    }
    assert(all.take(all.len() as int) =~= all);
    out
}

/// A line, after what precedes it, is the longest end of the text without a line break in it.
proof fn last_line_is_told(front: Seq<char>, line: Seq<char>, front2: Seq<char>, line2: Seq<char>)
    requires
        front.len() == 0 || front.last() == '\n',
        front2.len() == 0 || front2.last() == '\n',
        !line.contains('\n'),
        !line2.contains('\n'),
        front + line == front2 + line2,
    ensures
        line.len() <= line2.len(),
{
    let whole = front + line;
    if line.len() > line2.len() {
        assert(front2.len() > front.len());
        assert(whole[front2.len() - 1] == front2.last());
        assert(line[front2.len() - 1 - front.len()] == '\n');
    }
}

proof fn lines_end_in_a_break(lines: Seq<Seq<char>>)
    ensures
        as_lines(lines).len() == 0 <==> lines.len() == 0,
        lines.len() > 0 ==> as_lines(lines).last() == '\n',
{
}

/// The lines of an archive can be told apart again, as long as none holds a line break: archives
/// with the same content hold the same lines.
pub proof fn archives_tell_their_lines(a: Seq<Seq<char>>, b: Seq<Seq<char>>)
    requires
        forall|i: int| 0 <= i < a.len() ==> !(#[trigger] a[i]).contains('\n'),
        forall|i: int| 0 <= i < b.len() ==> !(#[trigger] b[i]).contains('\n'),
        as_lines(a) == as_lines(b),
    ensures
        a == b,
    decreases a.len(),
{
    lines_end_in_a_break(a);
    lines_end_in_a_break(b);
    if a.len() > 0 {
        let front = as_lines(a.drop_last());
        let front2 = as_lines(b.drop_last());
        lines_end_in_a_break(a.drop_last());
        lines_end_in_a_break(b.drop_last());
        let line = a[a.len() - 1];
        let line2 = b[b.len() - 1];
        assert(front + line =~= as_lines(a).drop_last());
        assert(front2 + line2 =~= as_lines(b).drop_last());
        last_line_is_told(front, line, front2, line2);
        last_line_is_told(front2, line2, front, line);
        assert(front =~= (front + line).take(front.len() as int));
        assert(front2 =~= (front2 + line2).take(front.len() as int));
        assert(line =~= (front + line).skip(front.len() as int));
        assert(line2 =~= (front2 + line2).skip(front.len() as int));
        assert forall|i: int| 0 <= i < a.drop_last().len() implies !(
        #[trigger] a.drop_last()[i]).contains('\n') by {
            assert(!a[i].contains('\n'));
        }
        assert forall|i: int| 0 <= i < b.drop_last().len() implies !(
        #[trigger] b.drop_last()[i]).contains('\n') by {
            assert(!b[i].contains('\n'));
        }
        archives_tell_their_lines(a.drop_last(), b.drop_last());
        assert(a =~= a.drop_last().push(line));
        assert(b =~= b.drop_last().push(line2));
    } else {
        assert(a =~= b);
    }
}

/// Loading keeps every message that was stored, of either form of file: the loaded history ends with
/// the messages of the file, in order. Before them stands the prompt, as a message of the system,
/// unless the file begins with one.
pub proof fn stored_messages_are_all_loaded(
    stored: StoredSession,
    messages: Seq<ChatMessage>,
    prompt: Seq<char>,
)
    requires
        match stored {
            StoredSession::Missing => messages.len() == 0,
            StoredSession::Legacy(history) => history@ == messages,
            StoredSession::Current(record) => record.history@ == messages,
        },
    ensures
        ({
            let loaded = with_system_prompt(stored_history(stored), prompt);
            let added = loaded.len() - messages.len();
            &&& added == (if messages.len() > 0 && messages[0].role@ == "system"@ {
                0int
            } else {
                1int
            })
            &&& forall|i: int|
                0 <= i < messages.len() ==> {
                    &&& loaded[added + i].role == (#[trigger] messages[i]).role@
                    &&& loaded[added + i].content == messages[i].content@
                }
            &&& added == 1 ==> loaded[0].role == "system"@ && loaded[0].content == prompt
        }),
{
    let history = stored_history(stored);
    assert(history =~= message_views(messages));
    assert forall|i: int| 0 <= i < messages.len() implies history[i].role
        == (#[trigger] messages[i]).role@ && history[i].content == messages[i].content@ by {}
}

/// What messages say, one by one.
pub proof fn messages_keep_their_places(history: Seq<ChatMessage>)
    ensures
        message_views(history).len() == history.len(),
        forall|i: int|
            0 <= i < history.len() ==> {
                &&& (#[trigger] message_views(history)[i]).role == history[i].role@
                &&& message_views(history)[i].content == history[i].content@
            },
{
}

/// A document without a number under `version` is of the present version. With one, its lowest 32 bits
/// are the version; the first version alone has the legacy form, and the form keeps the document.
pub proof fn forms_follow_the_version(document: JsonView, r: SessionDocument)
    ensures
        ({
            let told = document is Object && (document->Object_0).dom().contains("version"@) && (
            document->Object_0)["version"@] is Unsigned;
            let number = (document->Object_0)["version"@]->Unsigned_0;
            &&& !told ==> stored_version(document) == 2
            &&& told && number <= u32::MAX ==> stored_version(document) == number
            &&& told ==> (number - stored_version(document)) % 0x1_0000_0000 == 0
            &&& has_form(r, document) ==> (r is Legacy <==> stored_version(document) == 1)
            &&& has_form(r, document) ==> json_view(
                match r {
                    SessionDocument::Legacy(v) => v,
                    SessionDocument::Current(v) => v,
                },
            ) == document
        }),
{
}

/// An archive has its lines in order, each with a line break behind it.
pub proof fn archives_have_their_lines_in_order(line: Seq<char>, rest: Seq<Seq<char>>)
    ensures
        as_lines(Seq::empty()) == Seq::<char>::empty(),
        as_lines(seq![line] + rest) == line + seq!['\n'] + as_lines(rest),
    decreases rest.len(),
{
    let whole = seq![line] + rest;
    if rest.len() == 0 {
        assert(whole.drop_last() =~= Seq::empty());
        assert(as_lines(whole.drop_last()) =~= Seq::<char>::empty());
        assert(as_lines(whole) =~= line + seq!['\n'] + as_lines(rest));
    } else {
        archives_have_their_lines_in_order(line, rest.drop_last());
        assert(whole.drop_last() =~= seq![line] + rest.drop_last());
        assert(whole.last() == rest.last());
        assert(as_lines(whole) =~= line + seq!['\n'] + as_lines(rest));
    }
}

} // verus!
