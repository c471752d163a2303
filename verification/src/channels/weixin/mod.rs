//! Personal WeChat channel over Tencent's iLink Bot Protocol.
//!
//! The channel is a state machine. It says when to poll for messages and how long to wait after a
//! failure, tells whose messages are let in, turns messages of the API into messages for the agent,
//! and keeps what a reply or a typing indicator needs. Talking to the API is left to its user.

pub mod api;
pub mod auth;
pub mod crypto;
pub mod error;
pub mod markers;
pub mod media;

use self::api::{
    GetConfigResp, GetUpdatesResp, ILinkError, ILinkErrorCode, MessageItem, UpdatesError,
    WeXinApiClient, WeixinMessage,
};
#[allow(unused_imports)]
use self::api::{item_views, ItemView};
#[allow(unused_imports)]
use self::crypto::extension_of;
#[allow(unused_imports)]
use self::markers::{marker, marker_asks_for_its_image, marker_head, segments, SegmentView};
use self::media::{attachment_name, fetchable};
use super::message::{ChannelMessage, MediaAttachment};
use crate::random::random_uuid;
#[allow(unused_imports)]
use crate::random::uuid_shaped;
use crate::text::{is_blank, join, print_u64, same_text};
#[allow(unused_imports)]
use crate::text::{blank, decimal, joined, text_opt, texts};
use vstd::hash_map::StringHashMap;
use vstd::prelude::*;

verus! {

/// Where a channel is in its life.
#[derive(Debug, Clone, Copy, PartialEq, Eq, Structural)]
pub enum WeXinState {
    /// Not connected; the first state
    Disconnected,
    /// Polling
    Running,
    /// About to end
    ShuttingDown,
}

/// A WeChat channel.
pub struct WeXinChannel {
    /// Access to the API
    api: WeXinApiClient,
    /// Users whose messages are let in; none if empty, all if `*` is among them
    allowed_users: Vec<String>,
    /// How long the server is asked to hold a poll, in milliseconds
    timeout_ms: u64,
    /// Where the next poll goes on
    cursor: Option<String>,
    /// Tickets for typing indicators, by user
    typing_tickets: StringHashMap<String>,
    /// Tokens for replies, by user
    context_tokens: StringHashMap<String>,
    /// How long to wait after a failure, in milliseconds
    reconnect_delay_ms: u64,
    state: WeXinState,
    /// The largest image to download, in bytes
    max_image_size_bytes: u64,
}

/// What a channel knows.
#[verifier::ext_equal]
pub struct ChannelView {
    pub token: Seq<char>,
    pub allowed: Seq<Seq<char>>,
    pub timeout_ms: u64,
    pub cursor: Option<Seq<char>>,
    pub tickets: Map<Seq<char>, Seq<char>>,
    pub tokens: Map<Seq<char>, Seq<char>>,
    pub delay_ms: u64,
    pub state: WeXinState,
    pub max_image_bytes: u64,
}

/// The texts of a map.
pub open spec fn text_map(m: Map<Seq<char>, String>) -> Map<Seq<char>, Seq<char>> {
    m.map_values(|s: String| s@)
}

impl View for WeXinChannel {
    type V = ChannelView;

    closed spec fn view(&self) -> ChannelView {
        ChannelView {
            token: self.api.token(),
            allowed: texts(self.allowed_users@),
            timeout_ms: self.timeout_ms,
            cursor: text_opt(self.cursor),
            tickets: text_map(self.typing_tickets@),
            tokens: text_map(self.context_tokens@),
            delay_ms: self.reconnect_delay_ms,
            state: self.state,
            max_image_bytes: self.max_image_size_bytes,
        }
    }
}

/// Whether a list lets a user in: it names the user or holds `*`.
pub open spec fn allowed_by(list: Seq<Seq<char>>, user: Seq<char>) -> bool {
    list.contains("*"@) || list.contains(user)
}

/// An empty list lets nobody in.
pub proof fn empty_list_denies_all(user: Seq<char>)
    ensures
        !allowed_by(Seq::empty(), user),
{
}

/// A list with `*` lets everybody in.
pub proof fn star_allows_all(list: Seq<Seq<char>>, user: Seq<char>)
    requires
        list.contains("*"@),
    ensures
        allowed_by(list, user),
{
}

/// The delay after one more failure: twice as long, up to a minute.
pub open spec fn next_delay(delay_ms: int) -> int {
    if delay_ms * 2 < 60_000 {
        delay_ms * 2
    } else {
        60_000
    }
}

/// The delay after a number of failures in a row.
pub open spec fn delay_after(failures: nat) -> int
    decreases failures,
{
    if failures == 0 {
        1_000
    } else {
        next_delay(delay_after((failures - 1) as nat))
    }
}

/// The delay doubles with each failure in a row, from one second to one minute.
pub proof fn delays_double_up_to_a_minute(failures: nat)
    ensures
        1_000 <= delay_after(failures) <= 60_000,
        delay_after(failures) == (if failures < 6 {
            1_000 * vstd::arithmetic::power2::pow2(failures)
        } else {
            60_000nat
        }),
    decreases failures,
{
    vstd::arithmetic::power2::lemma2_to64();
    if failures > 0 {
        let before = (failures - 1) as nat;
        delays_double_up_to_a_minute(before);
        if failures < 6 {
            vstd::arithmetic::power2::lemma_pow2_unfold(failures);
        }
    }
}

/// What came of a poll.
#[derive(Debug)]
pub enum PollAction {
    /// Messages to process, in order
    Process(Vec<WeixinMessage>),
    /// Time to wait before the next poll, in milliseconds
    Wait(u64),
}

impl WeXinChannel {
    /// What every channel keeps: the delay lies between one second and one minute.
    pub closed spec fn wf(self) -> bool {
        1_000 <= self.reconnect_delay_ms <= 60_000
    }

    /// The delay of a channel lies between one second and one minute.
    pub proof fn delay_in_range(&self)
        requires
            self.wf(),
        ensures
            1_000 <= self@.delay_ms <= 60_000,
    {
    }

    /// A channel for the account with the given token.
    pub fn new(bot_token: String, allowed_users: Vec<String>, long_poll_timeout_ms: u64) -> (r:
        Self)
        ensures
            r.wf(),
            r@ == (ChannelView {
                token: bot_token@,
                allowed: texts(allowed_users@),
                timeout_ms: long_poll_timeout_ms,
                cursor: None,
                tickets: Map::empty(),
                tokens: Map::empty(),
                delay_ms: 1_000,
                state: WeXinState::Disconnected,
                max_image_bytes: 20_971_520,
            }),
    {
        let r = WeXinChannel {
            api: WeXinApiClient::new(bot_token),
            allowed_users,
            timeout_ms: long_poll_timeout_ms,
            cursor: None,
            typing_tickets: StringHashMap::new(),
            context_tokens: StringHashMap::new(),
            reconnect_delay_ms: 1_000,
            state: WeXinState::Disconnected,
            max_image_size_bytes: 20 * 1024 * 1024,
        };
        assert(r@.tickets =~= Map::empty());
        assert(r@.tokens =~= Map::empty());
        r
    }

    /// The name of the channel.
    pub fn name(&self) -> (r: &'static str)
        ensures
            r@ == "weixin"@,
    {
        "weixin"
    }

    /// Access to the API.
    pub fn api(&self) -> (r: &WeXinApiClient)
        ensures
            r.token() == self@.token,
    {
        &self.api
    }

    /// Where the channel is in its life.
    pub fn state(&self) -> (r: WeXinState)
        ensures
            r == self@.state,
    {
        self.state
    }

    /// The largest image to download, in bytes.
    pub fn max_image_size_bytes(&self) -> (r: u64)
        ensures
            r == self@.max_image_bytes,
    {
        self.max_image_size_bytes
    }

    /// Whether messages of a user are let in.
    pub fn is_user_allowed(&self, user_id: &str) -> (r: bool)
        ensures
            r == allowed_by(self@.allowed, user_id@),
    {
        let ghost list = texts(self.allowed_users@);
        for i in 0..self.allowed_users.len()
            invariant
                list == texts(self.allowed_users@),
                forall|j: int| 0 <= j < i ==> list[j] != "*"@ && list[j] != user_id@,
        {
            let user = self.allowed_users[i].as_str();
            assert(list[i as int] == user@);
            if same_text(user, "*") || same_text(user, user_id) {
                assert(list.contains(user@));
                return true;
            }
        }
        false
    }

    /// Goes back to the shortest delay.
    pub fn reset_backoff(&mut self)
        ensures
            final(self).wf(),
            final(self)@ == (ChannelView { delay_ms: 1_000, ..old(self)@ }),
    {
        self.reconnect_delay_ms = 1_000;
    }

    /// Doubles the delay, up to a minute, and tells how long it is now.
    pub fn backoff(&mut self) -> (r: u64)
        requires
            old(self).wf(),
        ensures
            final(self).wf(),
            r == next_delay(old(self)@.delay_ms as int),
            final(self)@ == (ChannelView { delay_ms: r, ..old(self)@ }),
    {
        let doubled: u64 = self.reconnect_delay_ms * 2;
        let delay: u64 = if doubled < 60_000 {
            doubled
        } else {
            60_000
        };
        self.reconnect_delay_ms = delay;
        delay
    }

    /// Starts to poll.
    pub fn begin_listening(&mut self)
        ensures
            final(self).wf() == old(self).wf(),
            final(self)@ == (ChannelView { state: WeXinState::Running, ..old(self)@ }),
    {
        self.state = WeXinState::Running;
    }

    /// The next poll: its cursor and timeout, or nothing once the channel is about to end.
    pub fn next_poll(&self) -> (r: Option<(Option<&str>, u64)>)
        ensures
            self@.state == WeXinState::ShuttingDown ==> r is None,
            self@.state != WeXinState::ShuttingDown ==> (r matches Some((cursor, timeout)) && {
                &&& timeout == self@.timeout_ms
                &&& self@.cursor == match cursor {
                    Some(c) => Some(c@),
                    None => None,
                }
            }),
    {
        if self.state == WeXinState::ShuttingDown {
            return None;
        }
        let cursor: Option<&str> = match &self.cursor {
            Some(c) => Some(c.as_str()),
            None => None,
        };
        Some((cursor, self.timeout_ms))
    }

    /// Takes the outcome of a poll. Success goes back to the shortest delay, moves the cursor and
    /// hands out the messages; failure doubles the delay and leaves the cursor, unless the server
    /// says that it expired: then the next poll begins with the empty one.
    pub fn after_poll(&mut self, outcome: Result<GetUpdatesResp, UpdatesError>) -> (r: PollAction)
        requires
            old(self).wf(),
        ensures
            final(self).wf(),
            match outcome {
                Ok(resp) => {
                    &&& r == PollAction::Process(resp.msgs)
                    &&& final(self)@ == (ChannelView {
                        delay_ms: 1_000,
                        cursor: text_opt(resp.get_updates_buf),
                        ..old(self)@
                    })
                },
                Err(e) => {
                    &&& r == PollAction::Wait(next_delay(old(self)@.delay_ms as int) as u64)
                    &&& final(self)@ == (ChannelView {
                        delay_ms: next_delay(old(self)@.delay_ms as int) as u64,
                        cursor: if e.code == Some(ILinkErrorCode::SessionTimeout) {
                            Some(Seq::empty())
                        } else {
                            old(self)@.cursor
                        },
                        ..old(self)@
                    })
                },
            },
    {
        match outcome {
            Ok(resp) => {
                self.reset_backoff();
                self.cursor = resp.get_updates_buf;
                PollAction::Process(resp.msgs)
            },
            Err(e) => {
                if let Some(ILinkErrorCode::SessionTimeout) = e.code {
                    self.cursor = Some(String::new());
                }
                PollAction::Wait(self.backoff())
            },
        }
    }

    /// The token that a message to a user goes out with: the one of the last message from that
    /// user, or the empty one.
    pub fn reply_token(&self, recipient: &str) -> (r: String)
        ensures
            r@ == reply_token_of(self@, recipient@),
    {
        match self.context_tokens.get(recipient) {
            Some(token) => token.clone(),
            None => String::new(),
        }
    }

    /// The ticket for typing indicators to a user, if it is known.
    pub fn typing_ticket(&self, user_id: &str) -> (r: Option<String>)
        ensures
            text_opt(r) == (if self@.tickets.dom().contains(user_id@) {
                Some(self@.tickets[user_id@])
            } else {
                None
            }),
    {
        match self.typing_tickets.get(user_id) {
            Some(ticket) => Some(ticket.clone()),
            None => None,
        }
    }

    /// Takes the ticket for typing indicators to a user from the API's answer and keeps it.
    pub fn learn_typing_ticket(&mut self, user_id: &str, resp: GetConfigResp) -> (r: Result<
        String,
        ILinkError,
    >)
        ensures
            final(self).wf() == old(self).wf(),
            match resp.typing_ticket {
                Some(ticket) => {
                    &&& r matches Ok(t) && t@ == ticket@
                    &&& final(self)@ == (ChannelView {
                        tickets: old(self)@.tickets.insert(user_id@, ticket@),
                        ..old(self)@
                    })
                },
                None => {
                    &&& r matches Err(e) && e@ == "WeXin: no typing_ticket"@
                    &&& final(self)@ == old(self)@
                },
            },
    {
        match resp.typing_ticket {
            Some(ticket) => {
                self.typing_tickets.insert(user_id.to_string(), ticket.clone());
                assert(self@.tickets =~= old(self)@.tickets.insert(user_id@, ticket@));
                Ok(ticket)
            },
            None => Err(ILinkError { message: "WeXin: no typing_ticket".to_string() }),
        }
    }
}

/// The token that a message to a user goes out with.
pub open spec fn reply_token_of(channel: ChannelView, user: Seq<char>) -> Seq<char> {
    if channel.tokens.dom().contains(user) {
        channel.tokens[user]
    } else {
        Seq::empty()
    }
}

/// A channel after a token for replies to a user came in.
pub open spec fn with_reply_token(
    channel: ChannelView,
    user: Seq<char>,
    token: Option<Seq<char>>,
) -> ChannelView {
    match token {
        Some(t) => ChannelView { tokens: channel.tokens.insert(user, t), ..channel },
        None => channel,
    }
}

/// A reply to a user carries the token of the last message from that user that had one; tokens of
/// other users do not matter.
pub proof fn replies_carry_the_last_token(
    channel: ChannelView,
    user: Seq<char>,
    token: Option<Seq<char>>,
    other: Seq<char>,
)
    ensures
        token matches Some(t) ==> reply_token_of(with_reply_token(channel, user, token), user) == t,
        token is None || other != user ==> reply_token_of(
            with_reply_token(channel, user, token),
            other,
        ) == reply_token_of(channel, other),
{
}

/// An image that was downloaded and decrypted.
#[derive(Debug, Clone)]
pub struct DownloadedImage {
    /// Where it was saved
    pub path: String,
    pub mime: String,
    pub data: Vec<u8>,
}

/// What an image that was downloaded holds.
pub struct DownloadView {
    pub path: Seq<char>,
    pub mime: Seq<char>,
    pub data: Seq<u8>,
}

impl View for DownloadedImage {
    type V = DownloadView;

    open spec fn view(&self) -> DownloadView {
        DownloadView { path: self.path@, mime: self.mime@, data: self.data@ }
    }
}

/// What came of downloading images.
pub open spec fn download_views(downloads: Seq<Option<DownloadedImage>>) -> Seq<
    Option<DownloadView>,
> {
    downloads.map_values(
        |d: Option<DownloadedImage>|
            match d {
                Some(image) => Some(image@),
                None => None,
            },
    )
}

/// What a file that came with a message holds.
pub struct AttachmentView {
    pub file_name: Seq<char>,
    pub data: Seq<u8>,
    pub mime_type: Option<Seq<char>>,
}

impl View for MediaAttachment {
    type V = AttachmentView;

    open spec fn view(&self) -> AttachmentView {
        AttachmentView {
            file_name: self.file_name@,
            data: self.data@,
            mime_type: text_opt(self.mime_type),
        }
    }
}

/// What the files that came with a message hold.
pub open spec fn attachment_views(attachments: Seq<MediaAttachment>) -> Seq<AttachmentView> {
    attachments.map_values(|a: MediaAttachment| a@)
}

/// An image that can be downloaded: the message tells its place and its key.
pub open spec fn downloadable(item: ItemView) -> bool {
    item matches ItemView::Image(m) && m.param is Some && m.key is Some
}

/// Places and keys of the images to download, in order.
pub open spec fn wanted_images(items: Seq<ItemView>) -> Seq<(Seq<char>, Seq<char>)>
    decreases items.len(),
{
    if items.len() == 0 {
        Seq::empty()
    } else {
        let before = wanted_images(items.drop_last());
        match items.last() {
            ItemView::Image(m) => if downloadable(items.last()) {
                before.push((m.param->0, m.key->0))
            } else {
                before
            },
            _ => before,
        }
    }
}

/// What a part of a message adds to its content. Of an image that was downloaded this is a marker
/// with its path.
pub open spec fn part_text(item: ItemView, download: Option<DownloadView>) -> Seq<char> {
    match item {
        ItemView::Text(t) => t,
        ItemView::Image(_) => match download {
            Some(image) => "[IMAGE:"@ + image.path + "]"@,
            None => "[Image]"@,
        },
        ItemView::Voice(_) => "[Voice]"@,
        ItemView::File(_) => "[File]"@,
        ItemView::Video(_, _) => "[Video]"@,
    }
}

/// What the parts of a message add to its content, in order. There is one entry of `downloads` for
/// each image to download.
pub open spec fn content_parts(
    items: Seq<ItemView>,
    downloads: Seq<Option<DownloadView>>,
) -> Seq<Seq<char>>
    decreases items.len(),
{
    if items.len() == 0 {
        Seq::empty()
    } else {
        let before = items.drop_last();
        let download = if downloadable(items.last()) {
            downloads[wanted_images(before).len() as int]
        } else {
            None
        };
        content_parts(before, downloads).push(part_text(items.last(), download))
    }
}

/// The attachment that an image makes.
pub open spec fn image_attachment(image: DownloadView) -> AttachmentView {
    AttachmentView {
        file_name: "weixin_image."@ + extension_of(image.mime),
        data: image.data,
        mime_type: Some(image.mime),
    }
}

/// The attachments that the images make which were downloaded, in order.
pub open spec fn image_attachments(downloads: Seq<Option<DownloadView>>) -> Seq<AttachmentView>
    decreases downloads.len(),
{
    if downloads.len() == 0 {
        Seq::empty()
    } else {
        match downloads.last() {
            Some(image) => image_attachments(downloads.drop_last()).push(image_attachment(image)),
            None => image_attachments(downloads.drop_last()),
        }
    }
}

/// The images to download for a message, by place and key.
fn images_wanted(items: &Vec<MessageItem>) -> (r: Vec<(String, String)>)
    ensures
        r@.map_values(|w: (String, String)| (w.0@, w.1@)) == wanted_images(item_views(items@)),
{
    let mut wanted: Vec<(String, String)> = Vec::new();
    let ghost views = item_views(items@);
    for i in 0..items.len()
        invariant
            views == item_views(items@),
            wanted@.map_values(|w: (String, String)| (w.0@, w.1@)) == wanted_images(
                views.take(i as int),
            ),
    {
        assert(views.take(i + 1).drop_last() =~= views.take(i as int));
        assert(views.take(i + 1).last() == items@[i as int]@);
        if let MessageItem::Image { image_item } = &items[i] {
            if let Some((param, key)) = fetchable(
                &image_item.encrypt_query_param,
                &image_item.aes_key,
            ) {
                let ghost before = wanted@;
                wanted.push((param.to_string(), key.to_string()));
                assert(wanted@.map_values(|w: (String, String)| (w.0@, w.1@)) =~= before.map_values(
                    |w: (String, String)| (w.0@, w.1@),
                ).push((param@, key@)));
            }
        }
    }
    assert(views.take(views.len() as int) =~= views);
    wanted
}

proof fn wanted_images_grow(items: Seq<ItemView>, n: int)
    requires
        0 <= n <= items.len(),
    ensures
        wanted_images(items.take(n)).len() <= wanted_images(items).len(),
    decreases items.len(),
{
    if n < items.len() {
        wanted_images_grow(items.drop_last(), n);
        assert(items.drop_last().take(n) =~= items.take(n));
    } else {
        assert(items.take(n) =~= items);
    }
}

/// Content and attachments of a message, given what came of downloading its images.
pub fn extract_content(items: &Vec<MessageItem>, downloads: &Vec<Option<DownloadedImage>>) -> (r: (
    String,
    Vec<MediaAttachment>,
))
    requires
        downloads@.len() == wanted_images(item_views(items@)).len(),
    ensures
        r.0@ == joined(content_parts(item_views(items@), download_views(downloads@)), "\n"@),
        attachment_views(r.1@) == image_attachments(download_views(downloads@)),
{
    let ghost views = item_views(items@);
    let ghost loaded = download_views(downloads@);
    let mut parts: Vec<String> = Vec::new();
    let mut attachments: Vec<MediaAttachment> = Vec::new();
    let mut next: usize = 0;
    assert(loaded.take(0) =~= Seq::empty());
    for i in 0..items.len()
        invariant
            views == item_views(items@),
            loaded == download_views(downloads@),
            downloads@.len() == wanted_images(views).len(),
            next == wanted_images(views.take(i as int)).len(),
            texts(parts@) == content_parts(views.take(i as int), loaded),
            attachment_views(attachments@) == image_attachments(loaded.take(next as int)),
    {
        assert(views.take(i + 1).drop_last() =~= views.take(i as int));
        assert(views.take(i + 1).last() == items@[i as int]@);
        let ghost before = parts@;
        let part: String = match &items[i] {
            MessageItem::Text { text_item } => text_item.text.clone(),
            MessageItem::Image { image_item } => {
                match fetchable(&image_item.encrypt_query_param, &image_item.aes_key) {
                    Some(_) => {
                        proof {
                            wanted_images_grow(views, i + 1);
                            assert(loaded.take(next + 1).drop_last() =~= loaded.take(next as int));
                            assert(loaded.take(next + 1).last() == loaded[next as int]);
                        }
                        assert(next < downloads.len());
                        let text = match &downloads[next] {
                            Some(image) => {
                                let ghost so_far = attachments@;
                                let attachment = MediaAttachment {
                                    file_name: attachment_name(image.mime.as_str()),
                                    data: image.data.clone(),
                                    mime_type: Some(image.mime.clone()),
                                };
                                assert(attachment.data@ =~= image.data@);
                                attachments.push(attachment);
                                assert(attachment_views(attachments@) =~= attachment_views(
                                    so_far,
                                ).push(attachment@));
                                "[IMAGE:".to_string().concat(image.path.as_str()).concat("]")
                            },
                            None => "[Image]".to_string(),
                        };
                        next = next + 1;
                        text
                    },
                    None => "[Image]".to_string(),
                }
            },
            MessageItem::Voice { .. } => "[Voice]".to_string(),
            MessageItem::File { .. } => "[File]".to_string(),
            MessageItem::Video { .. } => "[Video]".to_string(),
        };
        parts.push(part);
        assert(texts(parts@) =~= texts(before).push(part@));
    }
    assert(views.take(views.len() as int) =~= views);
    assert(loaded.take(loaded.len() as int) =~= loaded);
    (join(&parts, "\n"), attachments)
}

/// Whether a message of the API is for the agent. It is ignored unless it comes from a user who is
/// let in and is new; one without a sender, or without parts, is an error.
pub open spec fn screened(channel: ChannelView, msg: WeixinMessage) -> Result<bool, Seq<char>> {
    if msg.message_type != Some(1u8) {
        Ok(false)
    } else {
        match msg.from_user_id {
            None => Err("WeXin: missing from_user_id"@),
            Some(sender) => if !allowed_by(channel.allowed, sender@) || msg.message_state != Some(
                0u8,
            ) {
                Ok(false)
            } else if msg.item_list is None {
                Err("WeXin: missing item_list"@)
            } else {
                Ok(true)
            },
        }
    }
}

/// The parts of a message.
pub open spec fn parts_of(msg: WeixinMessage) -> Seq<ItemView> {
    match msg.item_list {
        Some(items) => item_views(items@),
        None => Seq::empty(),
    }
}

/// A message from a user who is not let in is ignored, whatever else it says.
pub proof fn blocked_users_are_ignored(channel: ChannelView, msg: WeixinMessage)
    requires
        msg.from_user_id matches Some(sender) && !allowed_by(channel.allowed, sender@),
    ensures
        screened(channel, msg) == Ok::<bool, Seq<char>>(false),
{
}

/// The channel ignores its own messages, and those still being written.
pub proof fn own_and_unfinished_messages_are_ignored(channel: ChannelView, msg: WeixinMessage)
    requires
        msg.message_type != Some(1u8) || (msg.from_user_id is Some && msg.message_state != Some(0u8)),
    ensures
        screened(channel, msg) == Ok::<bool, Seq<char>>(false),
{
}

/// What an image adds to the content of a message asks for the same image when it is sent on, unless
/// its path holds a closing bracket.
pub proof fn received_images_can_be_sent_on(item: ItemView, image: DownloadView)
    requires
        item is Image,
        !image.path.contains(']'),
    ensures
        segments(part_text(item, Some(image))) == seq![SegmentView::Image(image.path)],
{
    reveal_strlit("[IMAGE:");
    reveal_strlit("]");
    assert("[IMAGE:"@ =~= marker_head());
    assert("]"@ =~= seq![']']);
    marker_asks_for_its_image(image.path, Seq::empty());
    assert(marker(image.path) + Seq::<char>::empty() =~= marker(image.path));
    assert(segments(Seq::empty()) =~= Seq::<SegmentView>::empty());
}

/// The content of a message.
pub open spec fn content_of(msg: WeixinMessage, downloads: Seq<Option<DownloadView>>) -> Seq<char> {
    joined(content_parts(parts_of(msg), downloads), "\n"@)
}

/// The message for the agent that a message of the API makes. One without an identifier gets a new
/// one, one without a time the present.
pub open spec fn delivered(
    r: ChannelMessage,
    msg: WeixinMessage,
    downloads: Seq<Option<DownloadView>>,
    now_ms: u64,
) -> bool {
    &&& match msg.message_id {
        Some(n) => r.id@ == decimal(n as nat),
        None => uuid_shaped(r.id@),
    }
    &&& msg.from_user_id matches Some(sender) && r.sender@ == sender@ && r.reply_target@ == sender@
    &&& r.content@ == content_of(msg, downloads)
    &&& r.channel@ == "weixin"@
    &&& r.timestamp == match msg.create_time_ms {
        Some(t) => t,
        None => now_ms,
    }
    &&& r.thread_ts is None
    &&& r.interruption_scope_id is None
    &&& attachment_views(r.attachments@) == image_attachments(downloads)
}

impl WeXinChannel {
    /// Whether a message of the API is for the agent.
    pub fn screen(&self, msg: &WeixinMessage) -> (r: Result<bool, ILinkError>)
        ensures
            match screened(self@, *msg) {
                Ok(wanted) => r == Ok::<bool, ILinkError>(wanted),
                Err(words) => r matches Err(e) && e@ == words,
            },
    {
        if !msg.is_from_user() {
            return Ok(false);
        }
        let sender = match &msg.from_user_id {
            Some(sender) => sender,
            None => return Err(
                ILinkError { message: "WeXin: missing from_user_id".to_string() },
            ),
        };
        if !self.is_user_allowed(sender.as_str()) || !msg.is_new() {
            return Ok(false);
        }
        match &msg.item_list {
            Some(_) => Ok(true),
            None => Err(ILinkError { message: "WeXin: missing item_list".to_string() }),
        }
    }

    /// The images to download before a message is processed, by place and key: none of a message
    /// that is not for the agent.
    pub fn images_to_download(&self, msg: &WeixinMessage) -> (r: Vec<(String, String)>)
        ensures
            r@.map_values(|w: (String, String)| (w.0@, w.1@)) == (if screened(self@, *msg) == Ok::<
                bool,
                Seq<char>,
            >(true) {
                wanted_images(parts_of(*msg))
            } else {
                Seq::empty()
            }),
    {
        if let Ok(true) = self.screen(msg) {
            if let Some(items) = &msg.item_list {
                return images_wanted(items);
            }
        }
        let none: Vec<(String, String)> = Vec::new();
        assert(none@.map_values(|w: (String, String)| (w.0@, w.1@)) =~= Seq::empty());
        none
    }

    /// Processes a message of the API, given what came of downloading its images. One for the agent
    /// is delivered, unless it holds white space alone and no image, and its token kept for replies.
    pub fn process_message(
        &mut self,
        msg: &WeixinMessage,
        downloads: &Vec<Option<DownloadedImage>>,
        now_ms: u64,
    ) -> (r: Result<Option<ChannelMessage>, ILinkError>)
        requires
            screened(old(self)@, *msg) == Ok::<bool, Seq<char>>(true) ==> downloads@.len()
                == wanted_images(parts_of(*msg)).len(),
        ensures
            final(self).wf() == old(self).wf(),
            match screened(old(self)@, *msg) {
                Err(words) => {
                    &&& r matches Err(e) && e@ == words
                    &&& final(self)@ == old(self)@
                },
                Ok(false) => {
                    &&& r == Ok::<Option<ChannelMessage>, ILinkError>(None)
                    &&& final(self)@ == old(self)@
                },
                Ok(true) => {
                    let loaded = download_views(downloads@);
                    if blank(content_of(*msg, loaded)) && image_attachments(loaded).len() == 0 {
                        &&& r == Ok::<Option<ChannelMessage>, ILinkError>(None)
                        &&& final(self)@ == old(self)@
                    } else {
                        &&& r matches Ok(Some(m)) && delivered(m, *msg, loaded, now_ms)
                        &&& final(self)@ == with_reply_token(
                            old(self)@,
                            (msg.from_user_id->0)@,
                            text_opt(msg.context_token),
                        )
                    }
                },
            },
    {
        match self.screen(msg) {
            Ok(true) => {},
            Ok(false) => return Ok(None),
            Err(e) => return Err(e),
        }
        let (sender, items) = match (&msg.from_user_id, &msg.item_list) {
            (Some(sender), Some(items)) => (sender, items),
            _ => return Ok(None),
        };
        let (content, attachments) = extract_content(items, downloads);
        assert(attachments@.len() == attachment_views(attachments@).len());
        if is_blank(content.as_str()) && attachments.len() == 0 {
            return Ok(None);
        }
        if let Some(token) = &msg.context_token {
            self.context_tokens.insert(sender.clone(), token.clone());
            assert(self@.tokens =~= old(self)@.tokens.insert(sender@, token@));
        }
        let id: String = match msg.message_id {
            Some(n) => print_u64(n),
            None => random_uuid(),
        };
        let timestamp: u64 = match msg.create_time_ms {
            Some(t) => t,
            None => now_ms,
        };
        Ok(
            Some(
                ChannelMessage {
                    id,
                    sender: sender.clone(),
                    reply_target: sender.clone(),
                    content,
                    channel: self.name().to_string(),
                    timestamp,
                    thread_ts: None,
                    interruption_scope_id: None,
                    attachments,
                },
            ),
        )
    }
}

/// Every image that was downloaded is attached, in order, and nothing else: there are as many
/// attachments as downloads that succeeded, and each holds the data and the MIME type of its own.
pub proof fn every_downloaded_image_is_attached(downloads: Seq<Option<DownloadView>>)
    ensures
        ({
            let loaded = downloads.filter(|d: Option<DownloadView>| d is Some);
            let attached = image_attachments(downloads);
            &&& attached.len() == loaded.len()
            &&& forall|n: int|
                0 <= n < loaded.len() ==> {
                    &&& (#[trigger] attached[n]).data == (loaded[n]->0).data
                    &&& attached[n].mime_type == Some((loaded[n]->0).mime)
                    &&& attached[n].file_name == "weixin_image."@ + extension_of(
                        (loaded[n]->0).mime,
                    )
                }
        }),
    decreases downloads.len(),
{
    reveal(Seq::filter);
    if downloads.len() > 0 {
        every_downloaded_image_is_attached(downloads.drop_last());
    }
}

/// The images to download are those parts of a message that are images with both a place and a key, in
/// order.
pub proof fn every_image_with_a_key_is_wanted(items: Seq<ItemView>)
    ensures
        wanted_images(items) == items.filter(
            |item: ItemView| item is Image && item->Image_0.param is Some && item->Image_0.key is Some,
        ).map_values(|item: ItemView| (item->Image_0.param->0, item->Image_0.key->0)),
    decreases items.len(),
{
    reveal(Seq::filter);
    let pred = |item: ItemView|
        item is Image && item->Image_0.param is Some && item->Image_0.key is Some;
    let pair = |item: ItemView| (item->Image_0.param->0, item->Image_0.key->0);
    if items.len() > 0 {
        let front = items.drop_last();
        every_image_with_a_key_is_wanted(front);
        if pred(items.last()) {
            assert(items.filter(pred).map_values(pair) =~= front.filter(pred).map_values(pair).push(
                pair(items.last()),
            ));
        }
    }
    assert(wanted_images(items) =~= items.filter(pred).map_values(pair));
}

/// Every part of a message adds to its content, at its place. A text adds itself. An image that can be
/// downloaded takes the next of the downloads: it adds a marker with the path where that succeeded.
/// Other images, voice messages, files and videos add a word in brackets.
pub proof fn every_part_adds_its_text(
    items: Seq<ItemView>,
    downloads: Seq<Option<DownloadView>>,
    i: int,
)
    requires
        0 <= i < items.len(),
    ensures
        content_parts(items, downloads).len() == items.len(),
        ({
            let part = content_parts(items, downloads)[i];
            let next = items.take(i).filter(
                |item: ItemView|
                    item is Image && item->Image_0.param is Some && item->Image_0.key is Some,
            ).len();
            match items[i] {
                ItemView::Text(t) => part == t,
                ItemView::Image(m) => if m.param is Some && m.key is Some && downloads[next as int] is Some {
                    part == "[IMAGE:"@ + (downloads[next as int]->0).path + "]"@
                } else {
                    part == "[Image]"@
                },
                ItemView::Voice(_) => part == "[Voice]"@,
                ItemView::File(_) => part == "[File]"@,
                ItemView::Video(_, _) => part == "[Video]"@,
            }
        }),
    decreases items.len(),
{
    let front = items.drop_last();
    every_image_with_a_key_is_wanted(items.take(i));
    if i < front.len() {
        every_part_adds_its_text(front, downloads, i);
        assert(front.take(i) =~= items.take(i));
        assert(content_parts(items, downloads)[i] == content_parts(front, downloads)[i]);
    } else {
        assert(items.take(i) =~= front);
        content_parts_len(front, downloads);
    }
}

proof fn content_parts_len(items: Seq<ItemView>, downloads: Seq<Option<DownloadView>>)
    ensures
        content_parts(items, downloads).len() == items.len(),
    decreases items.len(),
{
    if items.len() > 0 {
        content_parts_len(items.drop_last(), downloads);
    }
}

/// A user is let in exactly when the list has the user, or a star, at some place.
pub proof fn users_on_the_list_are_let_in(list: Seq<Seq<char>>, user: Seq<char>)
    ensures
        allowed_by(list, user) <==> exists|i: int|
            0 <= i < list.len() && (#[trigger] list[i] == user || list[i] == "*"@),
{
    if list.contains("*"@) {
        let i = choose|i: int| 0 <= i < list.len() && list[i] == "*"@;
        assert(list[i] == "*"@);
    }
    if list.contains(user) {
        let i = choose|i: int| 0 <= i < list.len() && list[i] == user;
        assert(list[i] == user);
    }
}

/// A message is for the agent exactly when it comes from a user, who is named and let in, is new and
/// has parts. A message from a user without a name is an error, and so is one without parts that would
/// be for the agent but for that; every other is ignored.
pub proof fn new_messages_of_allowed_users_are_for_the_agent(
    channel: ChannelView,
    msg: WeixinMessage,
)
    ensures
        ({
            let from_user = msg.message_type == Some(1u8);
            let welcome = msg.from_user_id is Some && exists|i: int|
                0 <= i < channel.allowed.len() && (#[trigger] channel.allowed[i] == (
                msg.from_user_id->0)@ || channel.allowed[i] == "*"@);
            let new = msg.message_state == Some(0u8);
            let r = screened(channel, msg);
            &&& r == Ok::<bool, Seq<char>>(true) <==> from_user && welcome && new
                && msg.item_list is Some
            &&& from_user && msg.from_user_id is None ==> r == Err::<bool, Seq<char>>(
                "WeXin: missing from_user_id"@,
            )
            &&& from_user && welcome && new && msg.item_list is None ==> r == Err::<bool, Seq<char>>(
                "WeXin: missing item_list"@,
            )
            &&& !from_user || (msg.from_user_id is Some && !(welcome && new)) ==> r == Ok::<
                bool,
                Seq<char>,
            >(false)
        }),
{
    if msg.from_user_id is Some {
        users_on_the_list_are_let_in(channel.allowed, (msg.from_user_id->0)@);
    }
}

/// What the agent is given of a message: who sent it and is to be answered, when it was made, what its
/// parts add up to line by line, and the images that came with it.
pub proof fn delivered_messages_say_what_was_sent(
    r: ChannelMessage,
    msg: WeixinMessage,
    downloads: Seq<Option<DownloadView>>,
    now_ms: u64,
)
    requires
        delivered(r, msg, downloads, now_ms),
    ensures
        msg.message_id matches Some(n) ==> r.id@ == decimal(n as nat),
        msg.message_id is None ==> r.id@.len() == 36,
        msg.from_user_id is Some,
        r.sender@ == (msg.from_user_id->0)@,
        r.reply_target@ == (msg.from_user_id->0)@,
        r.channel@ == "weixin"@,
        msg.create_time_ms matches Some(t) ==> r.timestamp == t,
        msg.create_time_ms is None ==> r.timestamp == now_ms,
        r.thread_ts is None,
        r.interruption_scope_id is None,
        msg.item_list matches Some(items) ==> r.content@ == joined(
            content_parts(item_views(items@), downloads),
            "\n"@,
        ),
        r.attachments@.len() == downloads.filter(|d: Option<DownloadView>| d is Some).len(),
        forall|n: int|
            0 <= n < r.attachments@.len() ==> {
                let loaded = downloads.filter(|d: Option<DownloadView>| d is Some);
                &&& (#[trigger] r.attachments@[n]).data@ == (loaded[n]->0).data
                &&& r.attachments@[n].mime_type matches Some(mime) && mime@ == (loaded[n]->0).mime
            },
{
    every_downloaded_image_is_attached(downloads);
    attachments_keep_their_places(r.attachments@);
    let loaded = downloads.filter(|d: Option<DownloadView>| d is Some);
    assert(r.attachments@.len() == loaded.len());
    assert forall|n: int| 0 <= n < r.attachments@.len() implies (#[trigger] r.attachments@[n]).data@
        == (loaded[n]->0).data && (r.attachments@[n].mime_type matches Some(mime) && mime@ == (
    loaded[n]->0).mime) by {
        assert(attachment_views(r.attachments@)[n] == r.attachments@[n]@);
        assert(image_attachments(downloads)[n].data == (loaded[n]->0).data);
    }
}

/// What files and downloads hold, one by one.
pub proof fn attachments_keep_their_places(attachments: Seq<MediaAttachment>)
    ensures
        attachment_views(attachments).len() == attachments.len(),
        forall|i: int|
            0 <= i < attachments.len() ==> {
                let view = #[trigger] attachment_views(attachments)[i];
                &&& view.file_name == attachments[i].file_name@
                &&& view.data == attachments[i].data@
                &&& view.mime_type == text_opt(attachments[i].mime_type)
            },
{
}

/// What images that were downloaded hold, one by one.
pub proof fn downloads_keep_their_places(downloads: Seq<Option<DownloadedImage>>)
    ensures
        download_views(downloads).len() == downloads.len(),
        forall|i: int|
            0 <= i < downloads.len() ==> match downloads[i] {
                Some(image) => #[trigger] download_views(downloads)[i] == Some(
                    DownloadView { path: image.path@, mime: image.mime@, data: image.data@ },
                ),
                None => download_views(downloads)[i] is None,
            },
{
}

/// One more failure doubles the delay, whatever it was, unless that would be more than a minute: then
/// it is a minute.
pub proof fn one_more_failure_doubles_the_delay(delay_ms: int)
    ensures
        2 * delay_ms <= 60_000 ==> next_delay(delay_ms) == 2 * delay_ms,
        2 * delay_ms >= 60_000 ==> next_delay(delay_ms) == 60_000,
{
}

/// A token for replies changes nothing else about a channel.
pub proof fn tokens_change_nothing_else(
    channel: ChannelView,
    user: Seq<char>,
    token: Option<Seq<char>>,
)
    ensures
        ({
            let after = with_reply_token(channel, user, token);
            &&& after.token == channel.token
            &&& after.allowed == channel.allowed
            &&& after.timeout_ms == channel.timeout_ms
            &&& after.cursor == channel.cursor
            &&& after.tickets == channel.tickets
            &&& after.delay_ms == channel.delay_ms
            &&& after.state == channel.state
            &&& after.max_image_bytes == channel.max_image_bytes
        }),
{
}

} // verus!
