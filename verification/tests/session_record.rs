use zeroclaw::agent::session_record::{
    archive_content, archive_name, archive_path, ensure_system_prompt, load_session_record,
    form_of, session_document, version_of, ChatMessage, SessionCompactionMeta, SessionDocument,
    SessionRecord, StoredSession, SESSION_RECORD_VERSION,
};

fn history_in(document: &serde_json::Value) -> Vec<ChatMessage> {
    document["history"]
        .as_array()
        .unwrap()
        .iter()
        .map(|m| ChatMessage {
            role: m["role"].as_str().unwrap().to_string(),
            content: m["content"].as_str().unwrap().to_string(),
        })
        .collect()
}

#[test]
fn v1_round_trips_to_v2_fields() {
    let v1 = r#"{"version":1,"history":[{"role":"user","content":"hi"}]}"#;
    let Some(SessionDocument::Legacy(document)) = session_document(v1.as_bytes()) else {
        panic!("not the first version");
    };

    let r = load_session_record(StoredSession::Legacy(history_in(&document)), "sys");
    assert_eq!(r.version, SESSION_RECORD_VERSION);
    assert_eq!(r.history.len(), 2);
    assert_eq!(r.history[0].role, "system");
    assert_eq!(r.history[0].content, "sys");
    assert_eq!(r.history[1].content, "hi");
    assert!(r.compaction.is_none());
}

#[test]
fn save_load_round_trip() {
    let rec = SessionRecord {
        version: SESSION_RECORD_VERSION,
        history: vec![ChatMessage::system("s"), ChatMessage::user("u")],
        compaction: Some(SessionCompactionMeta {
            archive_paths: vec!["archives/x.jsonl".into()],
            last_summary_excerpt: Some("bullets".into()),
        }),
    };
    let loaded = load_session_record(StoredSession::Current(rec.clone()), "fallback");
    assert_eq!(loaded.history.len(), rec.history.len());
    assert_eq!(
        loaded.compaction.as_ref().unwrap().archive_paths,
        rec.compaction.as_ref().unwrap().archive_paths
    );
}

#[test]
fn new_session_has_the_prompt_alone() {
    let r = load_session_record(StoredSession::Missing, "be kind");
    assert_eq!(r.version, 2);
    assert_eq!(r.history, vec![ChatMessage::system("be kind")]);
    assert!(r.compaction.is_none());
}

#[test]
fn later_versions_are_brought_to_the_present_one() {
    let rec = SessionRecord {
        version: 7,
        history: vec![ChatMessage::user("u")],
        compaction: Some(SessionCompactionMeta::default()),
    };
    let r = load_session_record(StoredSession::Current(rec), "p");
    assert_eq!(r.version, 2);
    assert_eq!(r.history, vec![ChatMessage::system("p"), ChatMessage::user("u")]);
    assert_eq!(r.compaction, Some(SessionCompactionMeta::default()));
}

#[test]
fn prompt_is_added_once() {
    let mut history = vec![ChatMessage::user("u")];
    ensure_system_prompt(&mut history, "a");
    let once = history.clone();
    ensure_system_prompt(&mut history, "b");
    assert_eq!(history, once);
    assert_eq!(history, vec![ChatMessage::system("a"), ChatMessage::user("u")]);
    let mut empty: Vec<ChatMessage> = vec![];
    ensure_system_prompt(&mut empty, "a");
    assert_eq!(empty, vec![ChatMessage::system("a")]);
}

fn version(content: &str) -> u32 {
    version_of(&serde_json::from_str(content).unwrap())
}

#[test]
fn version_defaults_to_the_present_one() {
    assert_eq!(version("{}"), 2);
    assert_eq!(version(r#"{"version":"1"}"#), 2);
    assert_eq!(version(r#"{"version":-1}"#), 2);
    assert_eq!(version(r#"{"version":3}"#), 3);
    assert_eq!(version(r#"{"version":4294967297}"#), 1);
    assert_eq!(version("[]"), 2);
    assert_eq!(version("null"), 2);
}

#[test]
fn form_follows_the_version() {
    assert!(matches!(session_document(br#"{"version":1}"#), Some(SessionDocument::Legacy(_))));
    assert!(matches!(session_document(br#"{"version":2}"#), Some(SessionDocument::Current(_))));
    assert!(matches!(session_document(br#"{"version":0}"#), Some(SessionDocument::Current(_))));
    assert!(matches!(session_document(b"{}"), Some(SessionDocument::Current(_))));
    assert!(session_document(b"oops").is_none());
    let twice = session_document(br#"{"version":2,"version":1,"x":[7]}"#);
    let Some(SessionDocument::Legacy(document)) = twice else {
        panic!("the last version counts");
    };
    assert_eq!(document["x"][0].as_u64(), Some(7));
    assert!(matches!(form_of(serde_json::Value::Null), SessionDocument::Current(_)));
}

#[test]
fn archives_have_names_of_their_own() {
    let name = archive_name();
    assert_eq!(name.len(), 42);
    assert!(name.ends_with(".jsonl"));
    assert_ne!(name, archive_name());
    assert_eq!(archive_path("x.jsonl"), "archives/x.jsonl");
}

#[test]
fn archive_has_a_line_for_each_message() {
    let lines = vec!["{\"a\":1}".to_string(), "{}".to_string()];
    let content = archive_content(&lines);
    assert_eq!(content, "{\"a\":1}\n{}\n");
    let back: Vec<String> = content.lines().map(|l| l.to_string()).collect();
    assert_eq!(back, lines);
    assert_eq!(archive_content(&vec![]), "");
}
