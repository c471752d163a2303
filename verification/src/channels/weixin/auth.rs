//! Login to the iLink Bot API, and the credentials it gives.
//!
//! Credentials are kept in the agent's own store, a JSON file, or come from the credentials that
//! OpenClaw keeps.

use crate::encoding::{encode_hex, encode_percent};
#[allow(unused_imports)]
use crate::encoding::{hex_text, hex_text_shape, is_hex, percent_text};
use crate::json::{
    empty_object, get_member, is_null, is_object, json_number, json_text, member_number,
    member_text, parse_json, print_json, put_member,
};
#[allow(unused_imports)]
use crate::json::{
    exact_within, json_document, json_view, member, nests_within, number_in, pretty_text,
    same_but_doubles, same_without_doubles, text_in, JsonView, MAX_DEPTH,
};
use crate::random::random_bytes;
use crate::text::byte_prefix;
#[allow(unused_imports)]
use crate::text::first_within;
use vstd::prelude::*;
#[allow(unused_imports)]
use vstd::utf8::encode_utf8;

verus! {

/// A login that waits for its QR code to be scanned.
#[derive(Debug, Clone)]
pub struct WeixinLoginSession {
    pub session_id: String,
    /// Address of the QR code
    pub qr_url: String,
    /// Time of creation, in seconds
    pub created_at: u64,
    /// Time at which the login expires, in seconds
    pub expires_at: u64,
}

/// What a login gives.
#[derive(Debug, Clone)]
pub struct WeixinAuthCredentials {
    /// Token of the account
    pub bot_token: String,
    /// User of the account
    pub bot_wxuin: String,
    /// Time at which the token expires, in seconds; 0 if never
    pub expires_at: u64,
}

/// What credentials say.
#[verifier::ext_equal]
pub struct CredentialsView {
    pub bot_token: Seq<char>,
    pub bot_wxuin: Seq<char>,
    pub expires_at: u64,
}

impl View for WeixinAuthCredentials {
    type V = CredentialsView;

    open spec fn view(&self) -> CredentialsView {
        CredentialsView {
            bot_token: self.bot_token@,
            bot_wxuin: self.bot_wxuin@,
            expires_at: self.expires_at,
        }
    }
}

/// What optional credentials say.
pub open spec fn credentials_opt(creds: Option<WeixinAuthCredentials>) -> Option<CredentialsView> {
    match creds {
        Some(c) => Some(c@),
        None => None,
    }
}

/// Why a login or its credentials are no good.
#[derive(Debug, Clone, Copy, PartialEq, Eq, Structural)]
pub enum AuthError {
    /// The login expired before it was polled
    SessionExpired,
    /// The login expired while it was waited for
    TimedOut,
    /// The store holds no JSON
    NotJson,
}

impl AuthError {
    /// The error in words.
    pub open spec fn words(self) -> Seq<char> {
        match self {
            AuthError::SessionExpired =>
                "Login session expired. Please run `zeroclaw auth login weixin` again."@,
            AuthError::TimedOut => "Login timed out. Please try again."@,
            AuthError::NotJson => "Failed to parse auth file"@,
        }
    }

    /// The error in words.
    pub fn message(self) -> (r: &'static str)
        ensures
            r@ == self.words(),
    {
        match self {
            AuthError::SessionExpired =>
                "Login session expired. Please run `zeroclaw auth login weixin` again.",
            AuthError::TimedOut => "Login timed out. Please try again.",
            AuthError::NotJson => "Failed to parse auth file",
        }
    }
}

/// The address of the QR code of a login. The address to come back to is percent-encoded in it.
pub open spec fn qr_address() -> Seq<char> {
    "https://open.weixin.qq.com/connect/qrconnect?appid=wx_ilink_bot&redirect_uri="@
        + percent_text(encode_utf8("https://ilinkapi.weixin.qq.com/callback"@))
        + "&response_type=code&scope=snsapi_login"@
}

/// What a user is shown to log in: the address of the QR code and the beginning of the login's
/// identifier, in a frame.
pub open spec fn qr_words(qr_url: Seq<char>, label: Seq<char>) -> Seq<char> {
    "\n╔══════════════════════════════════════════════════════════╗\n║          WeChat iLink Bot — QR Code Login               ║\n╠══════════════════════════════════════════════════════════╣\n║                                                          ║\n║  1. Open this URL in your browser:                       ║\n║                                                          ║\n║  "@
        + qr_url
        + "  ║\n║                                                          ║\n║  2. Scan the QR code with WeChat on your phone           ║\n║                                                          ║\n║  3. Confirm authorization in WeChat                     ║\n║                                                          ║\n║  Session ID: "@
        + label
        + "                          ║\n║  Expires in: 5 minutes                                   ║\n║                                                          ║\n╚══════════════════════════════════════════════════════════╝\n"@
}

/// The text under a key of an object, empty where there is none.
pub open spec fn text_or_empty(v: Option<JsonView>) -> Seq<char> {
    match text_in(v) {
        Some(s) => s,
        None => Seq::empty(),
    }
}

/// The credentials in an entry of the agent's store; none without a token.
pub open spec fn stored_credentials(entry: JsonView) -> Option<CredentialsView> {
    let token = text_or_empty(member(entry, "bot_token"@));
    if token.len() == 0 {
        None
    } else {
        Some(
            CredentialsView {
                bot_token: token,
                bot_wxuin: text_or_empty(member(entry, "bot_wxuin"@)),
                expires_at: match number_in(member(entry, "expires_at"@)) {
                    Some(n) => n,
                    None => 0,
                },
            },
        )
    }
}

/// The credentials in the agent's store.
pub open spec fn credentials_in_store(document: JsonView) -> Option<CredentialsView> {
    match member(document, "weixin"@) {
        Some(entry) => stored_credentials(entry),
        None => None,
    }
}

/// One value or, where it is missing, another.
pub open spec fn one_or_other(a: Option<JsonView>, b: Option<JsonView>) -> Option<JsonView> {
    if a is Some {
        a
    } else {
        b
    }
}

/// The credentials in OpenClaw's store, under either name of the channel; none without a token.
/// Nothing is known about their expiry.
pub open spec fn credentials_in_openclaw(document: JsonView) -> Option<CredentialsView> {
    match one_or_other(member(document, "weixin"@), member(document, "openclaw-weixin"@)) {
        Some(entry) => {
            let token = text_or_empty(member(entry, "bot_token"@));
            if token.len() == 0 {
                None
            } else {
                Some(
                    CredentialsView {
                        bot_token: token,
                        bot_wxuin: text_or_empty(
                            one_or_other(member(entry, "bot_wxuin"@), member(entry, "wxuin"@)),
                        ),
                        expires_at: 0,
                    },
                )
            }
        },
        None => None,
    }
}

/// The entry that credentials make in the agent's store.
pub open spec fn credentials_entry(creds: CredentialsView) -> JsonView {
    JsonView::Object(
        map![
            "bot_token"@ => JsonView::Text(creds.bot_token),
            "bot_wxuin"@ => JsonView::Text(creds.bot_wxuin),
            "expires_at"@ => JsonView::Unsigned(creds.expires_at),
        ],
    )
}

/// The agent's store with credentials in it. A store that holds null counts as empty.
pub open spec fn store_with(document: JsonView, creds: CredentialsView) -> JsonView {
    match document {
        JsonView::Object(m) => JsonView::Object(m.insert("weixin"@, credentials_entry(creds))),
        _ => JsonView::Object(map!["weixin"@ => credentials_entry(creds)]),
    }
}

/// The agent's store as a document tells it: empty where there is no document that can be read.
pub open spec fn store_in(document: Option<JsonView>) -> JsonView {
    match document {
        Some(json) => json,
        None => JsonView::Object(Map::empty()),
    }
}

proof fn credential_keys_differ()
    ensures
        "bot_token"@ != "bot_wxuin"@,
        "bot_token"@ != "expires_at"@,
        "bot_wxuin"@ != "expires_at"@,
{
    reveal_strlit("bot_token");
    reveal_strlit("bot_wxuin");
    reveal_strlit("expires_at");
    assert("bot_token"@[4] == 't' && "bot_wxuin"@[4] == 'w');
    assert("expires_at"@[0] == 'e' && "bot_token"@[0] == 'b' && "bot_wxuin"@[0] == 'b');
}

/// Credentials are found again in the store that they were put into, provided that they have a
/// token.
pub proof fn saved_credentials_are_found(document: JsonView, creds: CredentialsView)
    ensures
        credentials_in_store(store_with(document, creds)) == (if creds.bot_token.len() > 0 {
            Some(creds)
        } else {
            None
        }),
{
    credential_keys_differ();
    let entry = credentials_entry(creds);
    assert(member(store_with(document, creds), "weixin"@) == Some(entry));
    assert(member(entry, "bot_token"@) == Some(JsonView::Text(creds.bot_token)));
    assert(member(entry, "bot_wxuin"@) == Some(JsonView::Text(creds.bot_wxuin)));
    assert(member(entry, "expires_at"@) == Some(JsonView::Unsigned(creds.expires_at)));
}

/// Putting credentials into a store leaves its other entries alone.
pub proof fn other_entries_are_kept(document: JsonView, creds: CredentialsView, key: Seq<char>)
    requires
        key != "weixin"@,
        document is Object,
    ensures
        member(store_with(document, creds), key) == member(document, key),
{
}

/// What keeps a store from being written or read back, or from being read back exactly, does not
/// come from credentials that are put into it.
proof fn store_stays_readable(document: JsonView, creds: CredentialsView)
    ensures
        nests_within(document, MAX_DEPTH as nat) ==> nests_within(
            store_with(document, creds),
            MAX_DEPTH as nat,
        ),
        exact_within(document, MAX_DEPTH as nat) ==> exact_within(
            store_with(document, creds),
            MAX_DEPTH as nat,
        ),
{
    let entry = credentials_entry(creds);
    let members = entry->Object_0;
    assert forall|k: Seq<char>| #[trigger] members.dom().contains(k) implies members[k] is Text
        || members[k] is Unsigned by {}
    assert(exact_within(entry, 126) && nests_within(entry, 126)) by {
        assert forall|k: Seq<char>| #[trigger] members.dom().contains(k) implies exact_within(
            members[k],
            125,
        ) && nests_within(members[k], 125) by {}
    }
    let store = store_with(document, creds);
    let all = store->Object_0;
    assert forall|k: Seq<char>| #[trigger] all.dom().contains(k) && k != "weixin"@ implies document is Object
        && (document->Object_0).dom().contains(k) && all[k] == (document->Object_0)[k] by {}
    assert(all["weixin"@] == entry);
}

/// Credentials are found again in what a store with them reads back as, whatever became of the
/// doubles in it.
proof fn credentials_survive_rounding(document: JsonView, creds: CredentialsView, w: JsonView)
    requires
        same_but_doubles(store_with(document, creds), w, MAX_DEPTH as nat),
    ensures
        credentials_in_store(w) == credentials_in_store(store_with(document, creds)),
{
    credential_keys_differ();
    let store = store_with(document, creds);
    let entry = credentials_entry(creds);
    assert((store->Object_0).dom().contains("weixin"@));
    assert((store->Object_0)["weixin"@] == entry);
    let found = (w->Object_0)["weixin"@];
    assert(same_but_doubles(entry, found, 126));
    let members = entry->Object_0;
    assert(members.dom().contains("bot_token"@));
    assert(members.dom().contains("bot_wxuin"@));
    assert(members.dom().contains("expires_at"@));
    assert(same_but_doubles(members["bot_token"@], (found->Object_0)["bot_token"@], 125));
    assert(same_but_doubles(members["bot_wxuin"@], (found->Object_0)["bot_wxuin"@], 125));
    assert(same_but_doubles(members["expires_at"@], (found->Object_0)["expires_at"@], 125));
}

/// A text that holds a store with credentials put into it. It reads back as that store, but for its
/// doubles, and the credentials are found in it again; without doubles it reads back as that store
/// exactly.
pub open spec fn holds_store(text: Seq<char>, store: JsonView, creds: CredentialsView) -> bool {
    &&& json_document(encode_utf8(text)) matches Some(w)
    &&& same_but_doubles(store_with(store, creds), w, MAX_DEPTH as nat)
    &&& credentials_in_store(w) == (if creds.bot_token.len() > 0 {
        Some(creds)
    } else {
        None
    })
    &&& exact_within(store, MAX_DEPTH as nat) ==> w == store_with(store, creds)
}

/// Logins and credentials.
pub struct WeixinAuth;

impl WeixinAuth {
    /// A new identifier for a login: 16 random bytes in hexadecimal digits.
    pub fn generate_session_id() -> (r: String)
        ensures
            exists|bytes: Seq<u8>| bytes.len() == 16 && r@ == #[trigger] hex_text(bytes),
            r@.len() == 32,
            forall|i: int| 0 <= i < r@.len() ==> is_hex(#[trigger] r@[i]),
    {
        let bytes = random_bytes(16);
        proof {
            hex_text_shape(bytes@);
        }
        encode_hex(bytes.as_slice())
    }

    /// Starts a login at the given time, which expires after five minutes.
    pub fn start_login(now: u64) -> (r: WeixinLoginSession)
        requires
            now <= u64::MAX - 300,
        ensures
            exists|bytes: Seq<u8>| bytes.len() == 16 && r.session_id@ == #[trigger] hex_text(bytes),
            r.qr_url@ == qr_address(),
            r.created_at == now,
            r.expires_at == now + 300,
    {
        let mut qr_url =
            "https://open.weixin.qq.com/connect/qrconnect?appid=wx_ilink_bot&redirect_uri=".to_string();
        qr_url.append(encode_percent("https://ilinkapi.weixin.qq.com/callback").as_str());
        qr_url.append("&response_type=code&scope=snsapi_login");
        WeixinLoginSession {
            session_id: Self::generate_session_id(),
            qr_url,
            created_at: now,
            expires_at: now + 300,
        }
    }

    /// The beginning of a login's identifier, to show to the user: 16 bytes at most.
    pub fn session_label(session: &WeixinLoginSession) -> (r: String)
        ensures
            r@ == first_within(session.session_id@, 16),
    {
        byte_prefix(session.session_id.as_str(), 16)
    }

    /// What the user is shown to log in.
    pub fn qr_instructions(session: &WeixinLoginSession) -> (r: String)
        ensures
            r@ == qr_words(session.qr_url@, first_within(session.session_id@, 16)),
    {
        let mut out = "\n╔══════════════════════════════════════════════════════════╗\n║          WeChat iLink Bot — QR Code Login               ║\n╠══════════════════════════════════════════════════════════╣\n║                                                          ║\n║  1. Open this URL in your browser:                       ║\n║                                                          ║\n║  ".to_string();
        out.append(session.qr_url.as_str());
        out.append("  ║\n║                                                          ║\n║  2. Scan the QR code with WeChat on your phone           ║\n║                                                          ║\n║  3. Confirm authorization in WeChat                     ║\n║                                                          ║\n║  Session ID: ");
        out.append(Self::session_label(session).as_str());
        out.append("                          ║\n║  Expires in: 5 minutes                                   ║\n║                                                          ║\n╚══════════════════════════════════════════════════════════╝\n");
        out
    }

    /// The beginning of a token, to show to the user: 20 bytes at most.
    pub fn token_preview(creds: &WeixinAuthCredentials) -> (r: String)
        ensures
            r@ == first_within(creds.bot_token@, 20),
    {
        byte_prefix(creds.bot_token.as_str(), 20)
    }

    /// Asks at the given time whether a login is complete. It is an error once the login expired;
    /// until then the login is waited for.
    pub fn poll_login(session: &WeixinLoginSession, now: u64) -> (r: Result<
        Option<WeixinAuthCredentials>,
        AuthError,
    >)
        ensures
            now >= session.expires_at ==> r == Err::<Option<WeixinAuthCredentials>, AuthError>(
                AuthError::SessionExpired,
            ),
            now < session.expires_at ==> r == Ok::<Option<WeixinAuthCredentials>, AuthError>(None),
    {
        if now >= session.expires_at {
            Err(AuthError::SessionExpired)
        } else {
            Ok(None)
        }
    }

    /// Whether a login may be waited for any longer at the given time.
    pub fn check_timeout(session: &WeixinLoginSession, now: u64) -> (r: Result<(), AuthError>)
        ensures
            now >= session.expires_at ==> r == Err::<(), AuthError>(AuthError::TimedOut),
            now < session.expires_at ==> r == Ok::<(), AuthError>(()),
    {
        if now >= session.expires_at {
            Err(AuthError::TimedOut)
        } else {
            Ok(())
        }
    }

    /// The user's home directory: the value of `HOME`, or else of `USERPROFILE`.
    pub fn home_directory(home: Option<String>, userprofile: Option<String>) -> (r: Option<String>)
        ensures
            r == (if home is Some { home } else { userprofile }),
    {
        match home {
            Some(dir) => Some(dir),
            None => userprofile,
        }
    }

    /// The credentials in a document of OpenClaw's store, `None` where it cannot be read.
    pub fn openclaw_credentials(document: Option<&serde_json::Value>) -> (r: Option<
        WeixinAuthCredentials,
    >)
        ensures
            credentials_opt(r) == (match document {
                Some(json) => credentials_in_openclaw(json_view(*json)),
                None => None,
            }),
    {
        let json = match document {
            Some(json) => json,
            None => return None,
        };
        let entry = match get_member(json, "weixin") {
            Some(entry) => entry,
            None => match get_member(json, "openclaw-weixin") {
                Some(entry) => entry,
                None => return None,
            },
        };
        let bot_token: String = match member_text(entry, "bot_token") {
            Some(token) => token,
            None => String::new(),
        };
        let user = match get_member(entry, "bot_wxuin") {
            Some(_) => member_text(entry, "bot_wxuin"),
            None => member_text(entry, "wxuin"),
        };
        let bot_wxuin: String = match user {
            Some(user) => user,
            None => String::new(),
        };
        if crate::text::chars_of(bot_token.as_str()).len() == 0 {
            return None;
        }
        Some(WeixinAuthCredentials { bot_token, bot_wxuin, expires_at: 0 })
    }

    /// The credentials in the content of OpenClaw's store; none where it is no JSON.
    pub fn import_from_openclaw(content: &[u8]) -> (r: Option<WeixinAuthCredentials>)
        ensures
            credentials_opt(r) == (match json_document(content@) {
                Some(json) => credentials_in_openclaw(json),
                None => None,
            }),
    {
        match parse_json(content) {
            Ok(json) => Self::openclaw_credentials(Some(&json)),
            Err(_) => Self::openclaw_credentials(None),
        }
    }

    /// The credentials in a document of the agent's store.
    pub fn credentials_of(document: Option<&serde_json::Value>) -> (r: Result<
        Option<WeixinAuthCredentials>,
        AuthError,
    >)
        ensures
            match document {
                Some(json) => r matches Ok(creds) && credentials_opt(creds) == credentials_in_store(
                    json_view(*json),
                ),
                None => r == Err::<Option<WeixinAuthCredentials>, AuthError>(AuthError::NotJson),
            },
    {
        let json = match document {
            Some(json) => json,
            None => return Err(AuthError::NotJson),
        };
        let entry = match get_member(json, "weixin") {
            Some(entry) => entry,
            None => return Ok(None),
        };
        let bot_token: String = match member_text(entry, "bot_token") {
            Some(token) => token,
            None => String::new(),
        };
        let bot_wxuin: String = match member_text(entry, "bot_wxuin") {
            Some(user) => user,
            None => String::new(),
        };
        let expires_at: u64 = match member_number(entry, "expires_at") {
            Some(n) => n,
            None => 0,
        };
        if crate::text::chars_of(bot_token.as_str()).len() == 0 {
            return Ok(None);
        }
        Ok(Some(WeixinAuthCredentials { bot_token, bot_wxuin, expires_at }))
    }

    /// The credentials in the content of the agent's store. It is an error if the store is no JSON.
    pub fn load_credentials(content: &[u8]) -> (r: Result<Option<WeixinAuthCredentials>, AuthError>)
        ensures
            match json_document(content@) {
                Some(json) => r matches Ok(creds) && credentials_opt(creds) == credentials_in_store(
                    json,
                ),
                None => r == Err::<Option<WeixinAuthCredentials>, AuthError>(AuthError::NotJson),
            },
    {
        match parse_json(content) {
            Ok(json) => Self::credentials_of(Some(&json)),
            Err(_) => Self::credentials_of(None),
        }
    }

    /// The agent's store with credentials put into a document of it, as text. A document must be an
    /// object or null; without one the store is empty. The text reads back where the document nests no
    /// deeper than the reader follows.
    pub fn put_credentials(
        document: Option<serde_json::Value>,
        creds: &WeixinAuthCredentials,
    ) -> (r: Option<String>)
        requires
            document matches Some(json) ==> json_view(json) is Object || json_view(json)
                == JsonView::Null,
        ensures
            ({
                let store = store_in(
                    match document {
                        Some(json) => Some(json_view(json)),
                        None => None,
                    },
                );
                &&& r matches Some(text)
                &&& text@ == pretty_text(store_with(store, creds@))
                &&& nests_within(store, MAX_DEPTH as nat) ==> holds_store(text@, store, creds@)
            }),
    {
        let mut entry = empty_object();
        put_member(&mut entry, "bot_token", json_text(creds.bot_token.clone()));
        put_member(&mut entry, "bot_wxuin", json_text(creds.bot_wxuin.clone()));
        put_member(&mut entry, "expires_at", json_number(creds.expires_at));
        assert(json_view(entry) == credentials_entry(creds@));
        let mut store = match document {
            Some(json) => json,
            None => empty_object(),
        };
        let ghost before = json_view(store);
        put_member(&mut store, "weixin", entry);
        assert(json_view(store) == store_with(before, creds@));
        match print_json(&store) {
            Ok(text) => {
                proof {
                    let depth = MAX_DEPTH as nat;
                    store_stays_readable(before, creds@);
                    saved_credentials_are_found(before, creds@);
                    if nests_within(before, depth) {
                        let w = json_document(encode_utf8(text@))->0;
                        credentials_survive_rounding(before, creds@, w);
                        if exact_within(before, depth) {
                            same_without_doubles(store_with(before, creds@), w, depth);
                        }
                    }
                }
                Some(text)
            },
            Err(_) => None,
        }
    }

    /// The agent's store with credentials put in, as text, given the content that it has, if any.
    /// Content that is no JSON counts as an empty store. There is no result where the content is JSON
    /// but neither an object nor null: an entry cannot be put into it.
    pub fn save_credentials(content: Option<&[u8]>, creds: &WeixinAuthCredentials) -> (r: Option<
        String,
    >)
        ensures
            ({
                let store = store_in(
                    match content {
                        Some(bytes) => json_document(bytes@),
                        None => None,
                    },
                );
                if store is Object || store == JsonView::Null {
                    &&& r matches Some(text)
                    &&& text@ == pretty_text(store_with(store, creds@))
                    &&& holds_store(text@, store, creds@)
                } else {
                    r is None
                }
            }),
    {
        let document = match content {
            Some(bytes) => match parse_json(bytes) {
                Ok(json) => Some(json),
                Err(_) => None,
            },
            None => None,
        };
        if let Some(json) = &document {
            if !is_object(json) && !is_null(json) {
                return None;
            }
        }
        Self::put_credentials(document, creds)
    }
}

/// The credentials in the agent's store are read from the members of the entry `weixin`: the token, the
/// user and the time of expiry. There are none without an entry, or without a token in it that is a
/// text and not empty; a missing user counts as empty and a missing time as 0.
pub proof fn credentials_are_read_from_their_entry(
    store: Map<Seq<char>, JsonView>,
    entry: Map<Seq<char>, JsonView>,
)
    ensures
        !store.dom().contains("weixin"@) ==> credentials_in_store(JsonView::Object(store)) is None,
        store.dom().contains("weixin"@) && !(store["weixin"@] is Object) ==> credentials_in_store(
            JsonView::Object(store),
        ) is None,
        store.dom().contains("weixin"@) && store["weixin"@] == JsonView::Object(entry) ==> {
            let found = credentials_in_store(JsonView::Object(store));
            let has_token = entry.dom().contains("bot_token"@) && entry["bot_token"@] is Text && (
            entry["bot_token"@]->Text_0).len() > 0;
            &&& found is Some <==> has_token
            &&& found matches Some(creds) ==> {
                &&& creds.bot_token == entry["bot_token"@]->Text_0
                &&& creds.bot_wxuin == (if entry.dom().contains("bot_wxuin"@)
                    && entry["bot_wxuin"@] is Text {
                    entry["bot_wxuin"@]->Text_0
                } else {
                    Seq::empty()
                })
                &&& creds.expires_at == (if entry.dom().contains("expires_at"@)
                    && entry["expires_at"@] is Unsigned {
                    entry["expires_at"@]->Unsigned_0
                } else {
                    0
                })
            }
        },
{
}

/// The credentials in OpenClaw's store are read from the entry `weixin` or, where there is none, from
/// `openclaw-weixin`. There are none without a token; the user stands under `bot_wxuin` or, where
/// there is none, under `wxuin`; they do not expire.
pub proof fn openclaw_credentials_are_read_from_their_entry(
    store: Map<Seq<char>, JsonView>,
    entry: Map<Seq<char>, JsonView>,
)
    ensures
        !store.dom().contains("weixin"@) && !store.dom().contains("openclaw-weixin"@)
            ==> credentials_in_openclaw(JsonView::Object(store)) is None,
        store.dom().contains("weixin"@) && !(store["weixin"@] is Object) ==> credentials_in_openclaw(
            JsonView::Object(store),
        ) is None,
        !store.dom().contains("weixin"@) && store.dom().contains("openclaw-weixin"@)
            && !(store["openclaw-weixin"@] is Object) ==> credentials_in_openclaw(
            JsonView::Object(store),
        ) is None,
        (if store.dom().contains("weixin"@) {
            store["weixin"@] == JsonView::Object(entry)
        } else {
            store.dom().contains("openclaw-weixin"@) && store["openclaw-weixin"@]
                == JsonView::Object(entry)
        }) ==> {
            let found = credentials_in_openclaw(JsonView::Object(store));
            let has_token = entry.dom().contains("bot_token"@) && entry["bot_token"@] is Text && (
            entry["bot_token"@]->Text_0).len() > 0;
            &&& found is Some <==> has_token
            &&& found matches Some(creds) ==> {
                &&& creds.bot_token == entry["bot_token"@]->Text_0
                &&& creds.expires_at == 0
                &&& creds.bot_wxuin == (if entry.dom().contains("bot_wxuin"@) {
                    if entry["bot_wxuin"@] is Text {
                        entry["bot_wxuin"@]->Text_0
                    } else {
                        Seq::empty()
                    }
                } else if entry.dom().contains("wxuin"@) && entry["wxuin"@] is Text {
                    entry["wxuin"@]->Text_0
                } else {
                    Seq::empty()
                })
            }
        },
{
}

/// What is no JSON object holds no credentials.
pub proof fn other_documents_hold_no_credentials(document: JsonView)
    requires
        !(document is Object),
    ensures
        credentials_in_store(document) is None,
        credentials_in_openclaw(document) is None,
{
}

/// A store with credentials in it has them under the members of the entry `weixin`, and besides that
/// entry what it had, which is nothing where it held null or could not be read.
pub proof fn stores_hold_what_they_held_and_the_entry(
    document: JsonView,
    creds: CredentialsView,
    key: Seq<char>,
)
    ensures
        ({
            let store = store_with(document, creds);
            let all = store->Object_0;
            let entry = all["weixin"@]->Object_0;
            &&& store is Object
            &&& all.dom().contains("weixin"@) && all["weixin"@] is Object
            &&& entry.dom().contains("bot_token"@)
            &&& entry["bot_token"@] == JsonView::Text(creds.bot_token)
            &&& entry.dom().contains("bot_wxuin"@)
            &&& entry["bot_wxuin"@] == JsonView::Text(creds.bot_wxuin)
            &&& entry.dom().contains("expires_at"@)
            &&& entry["expires_at"@] == JsonView::Unsigned(creds.expires_at)
            &&& key != "weixin"@ ==> (all.dom().contains(key) <==> document is Object && (
            document->Object_0).dom().contains(key))
            &&& key != "weixin"@ && all.dom().contains(key) ==> all[key] == (document->Object_0)[key]
        }),
        store_in(None) == JsonView::Object(Map::empty()),
        store_in(Some(document)) == document,
{
    credential_keys_differ();
}

/// What a user is shown to log in has the address of the QR code and the label in it, the address
/// first.
pub proof fn users_are_shown_address_and_label(qr_url: Seq<char>, label: Seq<char>)
    ensures
        exists|front: Seq<char>, between: Seq<char>, back: Seq<char>|
            qr_words(qr_url, label) == #[trigger] (front + qr_url + between + label + back),
{
    let front =
        "\n╔══════════════════════════════════════════════════════════╗\n║          WeChat iLink Bot — QR Code Login               ║\n╠══════════════════════════════════════════════════════════╣\n║                                                          ║\n║  1. Open this URL in your browser:                       ║\n║                                                          ║\n║  "@;
    let between =
        "  ║\n║                                                          ║\n║  2. Scan the QR code with WeChat on your phone           ║\n║                                                          ║\n║  3. Confirm authorization in WeChat                     ║\n║                                                          ║\n║  Session ID: "@;
    let back =
        "                          ║\n║  Expires in: 5 minutes                                   ║\n║                                                          ║\n╚══════════════════════════════════════════════════════════╝\n"@;
    assert(qr_words(qr_url, label) == front + qr_url + between + label + back);
}

} // verus!
