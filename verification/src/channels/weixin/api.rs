//! Messages of the iLink Bot API, and what its calls carry and answer.

pub use super::error::{ILinkError, ILinkErrorCode, ILinkErrorResponse};

use crate::encoding::encode_base64;
use crate::random::random_bytes;
use crate::text::print_i32;
#[allow(unused_imports)]
use crate::{
    encoding::base64_text,
    text::{signed_decimal, text_opt},
};
#[allow(unused_imports)]
use super::error::decisive;
use vstd::prelude::*;

verus! {

/// Answer to `getupdates`.
#[derive(Debug, Clone)]
pub struct GetUpdatesResp {
    pub ret: i32,
    pub errcode: Option<i32>,
    pub errmsg: Option<String>,
    pub msgs: Vec<WeixinMessage>,
    /// Cursor for the next call
    pub get_updates_buf: Option<String>,
    /// Timeout that the server suggests, in milliseconds
    pub longpolling_timeout_ms: Option<u64>,
}

/// A message from a WeChat user.
#[derive(Debug, Clone)]
pub struct WeixinMessage {
    /// Sequence number
    pub seq: Option<u64>,
    /// Identifier of the message
    pub message_id: Option<u64>,
    /// Identifier of the sender
    pub from_user_id: Option<String>,
    /// Identifier of the receiver, the bot
    pub to_user_id: Option<String>,
    /// Time of creation, in milliseconds
    pub create_time_ms: Option<u64>,
    /// Identifier of the conversation
    pub session_id: Option<String>,
    /// Who sent it: 1 a user, 2 the bot
    pub message_type: Option<u8>,
    /// How far it is: 0 new, 1 being written, 2 finished
    pub message_state: Option<u8>,
    /// Text, images, voice messages, files and videos
    pub item_list: Option<Vec<MessageItem>>,
    /// To be handed back with an answer
    pub context_token: Option<String>,
}

impl Default for WeixinMessage {
    fn default() -> (r: Self)
        ensures
            r.seq is None,
            r.message_id is None,
            r.from_user_id is None,
            r.to_user_id is None,
            r.create_time_ms is None,
            r.session_id is None,
            r.message_type is None,
            r.message_state is None,
            r.item_list is None,
            r.context_token is None,
    {
        WeixinMessage {
            seq: None,
            message_id: None,
            from_user_id: None,
            to_user_id: None,
            create_time_ms: None,
            session_id: None,
            message_type: None,
            message_state: None,
            item_list: None,
            context_token: None,
        }
    }
}

impl WeixinMessage {
    /// Whether the message comes from a user, and not from the bot itself.
    pub fn is_from_user(&self) -> (r: bool)
        ensures
            r == (self.message_type == Some(1u8)),
    {
        match self.message_type {
            Some(kind) => kind == 1,
            None => false,
        }
    }

    /// Whether the message is new, and not an update of one that is being written.
    pub fn is_new(&self) -> (r: bool)
        ensures
            r == (self.message_state == Some(0u8)),
    {
        match self.message_state {
            Some(state) => state == 0,
            None => false,
        }
    }
}

/// A text.
#[derive(Debug, Clone)]
pub struct TextItem {
    pub text: String,
}

/// An image on the CDN.
#[derive(Debug, Clone)]
pub struct ImageItem {
    pub encrypt_query_param: Option<String>,
    pub aes_key: Option<String>,
}

/// A voice message on the CDN.
#[derive(Debug, Clone)]
pub struct VoiceItem {
    pub encrypt_query_param: Option<String>,
    pub aes_key: Option<String>,
}

/// A file on the CDN.
#[derive(Debug, Clone)]
pub struct FileItem {
    pub encrypt_query_param: Option<String>,
    pub aes_key: Option<String>,
}

/// A video on the CDN.
#[derive(Debug, Clone)]
pub struct VideoItem {
    pub encrypt_query_param: Option<String>,
    pub aes_key: Option<String>,
    /// Preview of the video
    pub thumb: Option<ImageItem>,
}

/// One part of a message. The API tells them apart by numbers: 1 text, 2 image, 3 voice, 4 file,
/// 5 video.
#[derive(Debug, Clone)]
pub enum MessageItem {
    Text { text_item: TextItem },
    Image { image_item: ImageItem },
    Voice { voice_item: VoiceItem },
    File { file_item: FileItem },
    Video { video_item: VideoItem },
}

/// Where a media item lies on the CDN and the key to it, as far as the item tells.
pub struct MediaView {
    pub param: Option<Seq<char>>,
    pub key: Option<Seq<char>>,
}

/// What a part of a message says.
pub enum ItemView {
    Text(Seq<char>),
    Image(MediaView),
    Voice(MediaView),
    File(MediaView),
    Video(MediaView, Option<MediaView>),
}

impl View for ImageItem {
    type V = MediaView;

    open spec fn view(&self) -> MediaView {
        MediaView { param: text_opt(self.encrypt_query_param), key: text_opt(self.aes_key) }
    }
}

impl View for MessageItem {
    type V = ItemView;

    open spec fn view(&self) -> ItemView {
        match self {
            MessageItem::Text { text_item } => ItemView::Text(text_item.text@),
            MessageItem::Image { image_item } => ItemView::Image(image_item@),
            MessageItem::Voice { voice_item } => ItemView::Voice(
                MediaView {
                    param: text_opt(voice_item.encrypt_query_param),
                    key: text_opt(voice_item.aes_key),
                },
            ),
            MessageItem::File { file_item } => ItemView::File(
                MediaView {
                    param: text_opt(file_item.encrypt_query_param),
                    key: text_opt(file_item.aes_key),
                },
            ),
            MessageItem::Video { video_item } => ItemView::Video(
                MediaView {
                    param: text_opt(video_item.encrypt_query_param),
                    key: text_opt(video_item.aes_key),
                },
                match video_item.thumb {
                    Some(thumb) => Some(thumb@),
                    None => None,
                },
            ),
        }
    }
}

/// What the parts of a message say.
pub open spec fn item_views(items: Seq<MessageItem>) -> Seq<ItemView> {
    items.map_values(|item: MessageItem| item@)
}

/// A media item with both its place and its key.
pub open spec fn media(param: Seq<char>, key: Seq<char>) -> MediaView {
    MediaView { param: Some(param), key: Some(key) }
}

impl MessageItem {
    /// A text to send.
    pub fn text(content: &str) -> (r: Self)
        ensures
            r@ == ItemView::Text(content@),
    {
        MessageItem::Text { text_item: TextItem { text: content.to_string() } }
    }

    /// An image to send, by its place on the CDN and its key.
    pub fn image(encrypt_query_param: &str, aes_key: &str) -> (r: Self)
        ensures
            r@ == ItemView::Image(media(encrypt_query_param@, aes_key@)),
    {
        MessageItem::Image {
            image_item: ImageItem {
                encrypt_query_param: Some(encrypt_query_param.to_string()),
                aes_key: Some(aes_key.to_string()),
            },
        }
    }

    /// A voice message to send, by its place on the CDN and its key.
    pub fn voice(encrypt_query_param: &str, aes_key: &str) -> (r: Self)
        ensures
            r@ == ItemView::Voice(media(encrypt_query_param@, aes_key@)),
    {
        MessageItem::Voice {
            voice_item: VoiceItem {
                encrypt_query_param: Some(encrypt_query_param.to_string()),
                aes_key: Some(aes_key.to_string()),
            },
        }
    }

    /// Whether this is a text.
    pub fn is_text(&self) -> (r: bool)
        ensures
            r == (self@ is Text),
    {
        matches!(self, MessageItem::Text { .. })
    }

    /// The text, if this is one.
    pub fn as_text(&self) -> (r: Option<&str>)
        ensures
            self@ matches ItemView::Text(t) ==> (r matches Some(s) && s@ == t),
            !(self@ is Text) ==> r is None,
    {
        match self {
            MessageItem::Text { text_item } => Some(text_item.text.as_str()),
            _ => None,
        }
    }
}

/// Answer to `getconfig`.
#[derive(Debug, Clone)]
pub struct GetConfigResp {
    pub ret: i32,
    /// To be handed back with typing indicators
    pub typing_ticket: Option<String>,
}

/// Whether to show or to take back a typing indicator.
#[derive(Debug, Clone, Copy, PartialEq, Eq, Structural)]
pub enum TypingStatus {
    Typing,
    Cancel,
}

impl TypingStatus {
    /// The number that stands for the status in a request.
    pub fn code(self) -> (r: u8)
        ensures
            r == (if self == TypingStatus::Typing { 1u8 } else { 2u8 }),
    {
        match self {
            TypingStatus::Typing => 1,
            TypingStatus::Cancel => 2,
        }
    }
}

/// What `getuploadurl` is told about a file.
#[derive(Debug, Clone)]
pub struct UploadParams {
    pub filekey: String,
    /// 1 image, 2 video, 3 file
    pub media_type: u8,
    pub to_user_id: String,
    /// Size of the file before encryption, in bytes
    pub rawsize: u64,
    /// MD5 of the file before encryption
    pub rawfilemd5: String,
    /// Size of the file after encryption, in bytes
    pub filesize: u64,
    /// Size of the thumbnail before encryption, in bytes
    pub thumb_rawsize: Option<u64>,
    /// MD5 of the thumbnail before encryption
    pub thumb_rawfilemd5: Option<String>,
    /// Size of the thumbnail after encryption, in bytes
    pub thumb_filesize: Option<u64>,
}

/// Answer to `getuploadurl`.
#[derive(Debug, Clone)]
pub struct UploadUrlResp {
    /// Where to put the file
    pub upload_param: String,
    /// Where to put the thumbnail
    pub thumb_upload_param: Option<String>,
}

/// The calls of the API.
#[derive(Debug, Clone, Copy, PartialEq, Eq, Structural)]
pub enum ApiCall {
    GetUpdates,
    SendMessage,
    GetConfig,
    SendTyping,
    GetUploadUrl,
}

impl ApiCall {
    /// The address of a call.
    pub open spec fn address(self) -> Seq<char> {
        "https://ilinkapi.weixin.qq.com"@ + match self {
            ApiCall::GetUpdates => "/getupdates"@,
            ApiCall::SendMessage => "/sendmessage"@,
            ApiCall::GetConfig => "/getconfig"@,
            ApiCall::SendTyping => "/sendtyping"@,
            ApiCall::GetUploadUrl => "/getuploadurl"@,
        }
    }

    /// The name of a call in error messages.
    pub open spec fn name(self) -> Seq<char> {
        match self {
            ApiCall::GetUpdates => "getUpdates"@,
            ApiCall::SendMessage => "sendMessage"@,
            ApiCall::GetConfig => "getConfig"@,
            ApiCall::SendTyping => "sendTyping"@,
            ApiCall::GetUploadUrl => "getUploadUrl"@,
        }
    }

    /// The address to post the call to.
    pub fn url(self) -> (r: String)
        ensures
            r@ == self.address(),
    {
        let path: &str = match self {
            ApiCall::GetUpdates => "/getupdates",
            ApiCall::SendMessage => "/sendmessage",
            ApiCall::GetConfig => "/getconfig",
            ApiCall::SendTyping => "/sendtyping",
            ApiCall::GetUploadUrl => "/getuploadurl",
        };
        "https://ilinkapi.weixin.qq.com".to_string().concat(path)
    }

    fn words(self) -> (r: &'static str)
        ensures
            r@ == self.name(),
    {
        match self {
            ApiCall::GetUpdates => "getUpdates",
            ApiCall::SendMessage => "sendMessage",
            ApiCall::GetConfig => "getConfig",
            ApiCall::SendTyping => "sendTyping",
            ApiCall::GetUploadUrl => "getUploadUrl",
        }
    }

    /// The error for an answer with an HTTP status other than success: the status and the body.
    pub fn http_error(self, status: &str, body: &str) -> (r: ILinkError)
        ensures
            r@ == "iLink "@ + self.name() + " HTTP error "@ + status@ + ": "@ + body@,
    {
        let mut message = "iLink ".to_string();
        message.append(self.words());
        message.append(" HTTP error ");
        message.append(status);
        message.append(": ");
        message.append(body);
        ILinkError { message }
    }

    /// What a call says when no answer comes: polling tells a timeout, which means that the session
    /// has run out, and a failed connection from the rest, and sending tells a timeout.
    pub open spec fn transport_words(self, timeout: bool, connect: bool, detail: Seq<char>) -> Seq<
        char,
    > {
        match self {
            ApiCall::GetUpdates => if timeout {
                ILinkErrorCode::SessionTimeout.words()
            } else if connect {
                "iLink connection failed: "@ + detail
            } else {
                "iLink getUpdates HTTP request failed: "@ + detail
            },
            ApiCall::SendMessage => if timeout {
                "iLink sendMessage timeout"@
            } else {
                "iLink sendMessage HTTP error: "@ + detail
            },
            _ => "iLink "@ + self.name() + " HTTP error: "@ + detail,
        }
    }

    /// The error for a call that no answer came to.
    pub fn transport_error(self, timeout: bool, connect: bool, detail: &str) -> (r: ILinkError)
        ensures
            r@ == self.transport_words(timeout, connect, detail@),
    {
        let message: String = match self {
            ApiCall::GetUpdates => if timeout {
                ILinkErrorCode::SessionTimeout.description().to_string()
            } else if connect {
                "iLink connection failed: ".to_string().concat(detail)
            } else {
                "iLink getUpdates HTTP request failed: ".to_string().concat(detail)
            },
            ApiCall::SendMessage => if timeout {
                "iLink sendMessage timeout".to_string()
            } else {
                "iLink sendMessage HTTP error: ".to_string().concat(detail)
            },
            _ => {
                "iLink ".to_string().concat(self.words()).concat(" HTTP error: ").concat(detail)
            },
        };
        ILinkError { message }
    }
}

/// The cursor to send with `getupdates`: none yet stands for the empty one.
pub fn cursor_to_send(cursor: Option<&str>) -> (r: &str)
    ensures
        r@ == (match cursor {
            Some(c) => c@,
            None => ""@,
        }),
{
    match cursor {
        Some(c) => c,
        None => "",
    }
}

/// How long to wait for the answer to `getupdates`: five seconds longer than the server is asked to
/// hold the call.
pub fn poll_timeout_ms(timeout_ms: u64) -> (r: u64)
    requires
        timeout_ms <= u64::MAX - 5_000,
    ensures
        r == timeout_ms + 5_000,
{
    timeout_ms + 5_000
}

/// The words for an invalid token, with what to do about it.
pub open spec fn login_advice() -> Seq<char> {
    ILinkErrorCode::InvalidToken.words()
        + ". Please run: openclaw channels login --channel openclaw-weixin"@
}

/// Why a poll brought no messages.
#[derive(Debug, Clone)]
pub struct UpdatesError {
    /// The code that the server sent, if it answered with one
    pub code: Option<ILinkErrorCode>,
    /// The error in words
    pub message: String,
}

/// An answer to `getupdates` that reports an error: by a return code other than zero, or by the error
/// code of an expired session, an invalid token or too many requests.
pub open spec fn reports_error(ret: i32, errcode: Option<i32>) -> bool {
    ret != 0 || errcode == Some(-14i32) || errcode == Some(-20i32) || errcode == Some(-100i32)
}

/// Judges the answer to `getupdates`. An expired session and an invalid token have words of their
/// own; any other error is named by the error code if there is one.
pub fn accept_updates(result: GetUpdatesResp) -> (r: Result<GetUpdatesResp, UpdatesError>)
    ensures
        !reports_error(result.ret, result.errcode) ==> r == Ok::<GetUpdatesResp, UpdatesError>(
            result,
        ),
        reports_error(result.ret, result.errcode) ==> (r matches Err(e) && e.code == Some(
            ILinkErrorCode::meaning(decisive(result.ret, result.errcode) as int),
        ) && e.message@ == (if result.errcode == Some(-14i32) {
            ILinkErrorCode::SessionTimeout.words()
        } else if result.errcode == Some(-20i32) {
            login_advice()
        } else {
            "iLink getUpdates error ("@ + signed_decimal(
                decisive(result.ret, result.errcode) as int,
            ) + "): "@ + ILinkErrorCode::meaning(
                decisive(result.ret, result.errcode) as int,
            ).words()
        })),
{
    let number: i32 = result.errcode.unwrap_or(result.ret);
    if result.ret == 0 && number != -14 && number != -20 && number != -100 {
        return Ok(result);
    }
    let code = ILinkErrorCode::from_code(number);
    let message: String = match result.errcode {
        Some(-14) => code.description().to_string(),
        Some(-20) => {
            let mut message = code.description().to_string();
            message.append(". Please run: openclaw channels login --channel openclaw-weixin");
            message
        },
        _ => {
            let mut message = "iLink getUpdates error (".to_string();
            message.append(print_i32(number).as_str());
            message.append("): ");
            message.append(code.description());
            message
        },
    };
    Err(UpdatesError { code: Some(code), message })
}

/// The codes by which the report on a message tells that it was not sent: it is too long, it is
/// blocked, or the token is invalid.
pub open spec fn not_sent(number: i32) -> bool {
    number == -301 || number == -500 || number == -20
}

/// Judges what the body of a successful answer to `sendmessage` reports, if it can be read as a
/// report.
pub fn accept_sent(report: Option<&ILinkErrorResponse>) -> (r: Result<(), ILinkError>)
    ensures
        match report {
            Some(resp) => if not_sent(decisive(resp.ret, resp.errcode)) {
                r matches Err(e) && e@ == send_error_words(decisive(resp.ret, resp.errcode), *resp)
            } else {
                r is Ok
            },
            None => r is Ok,
        },
{
    match report {
        Some(resp) => {
            let number: i32 = resp.errcode.unwrap_or(resp.ret);
            if number == -301 || number == -500 || number == -20 {
                Err(send_error(number, resp))
            } else {
                Ok(())
            }
        },
        None => Ok(()),
    }
}

/// The words for a message that was not sent: a number, what the report means, and its message.
pub open spec fn send_error_words(number: i32, report: ILinkErrorResponse) -> Seq<char> {
    "iLink sendMessage error ("@ + signed_decimal(number as int) + "): "@ + ILinkErrorCode::meaning(
        decisive(report.ret, report.errcode) as int,
    ).words() + " — "@ + (match report.errmsg {
        Some(m) => m@,
        None => Seq::<char>::empty(),
    })
}

fn send_error(number: i32, report: &ILinkErrorResponse) -> (r: ILinkError)
    ensures
        r@ == send_error_words(number, *report),
{
    let mut message = "iLink sendMessage error (".to_string();
    message.append(print_i32(number).as_str());
    message.append("): ");
    message.append(report.error_code().description());
    message.append(" — ");
    if let Some(m) = &report.errmsg {
        message.append(m.as_str());
    }
    assert(message@ =~= message@ + Seq::<char>::empty());
    ILinkError { message }
}

/// Judges the answer to `getconfig`: any other return code than zero is an error.
pub fn accept_config(result: GetConfigResp) -> (r: Result<GetConfigResp, ILinkError>)
    ensures
        result.ret == 0 ==> r == Ok::<GetConfigResp, ILinkError>(result),
        result.ret != 0 ==> (r matches Err(e) && e@ == "iLink getConfig error (ret="@
            + signed_decimal(result.ret as int) + "): "@ + ILinkErrorCode::meaning(
            result.ret as int,
        ).words()),
{
    if result.ret != 0 {
        let code = ILinkErrorCode::from_code(result.ret);
        let mut message = "iLink getConfig error (ret=".to_string();
        message.append(print_i32(result.ret).as_str());
        message.append("): ");
        message.append(code.description());
        return Err(ILinkError { message });
    }
    Ok(result)
}

/// The error for a message that was refused: what the body reports, if it can be read as an error
/// response, with the HTTP status in place of a missing error code; else status and body.
pub fn send_refused(
    status_code: u16,
    status: &str,
    body: &str,
    report: Option<&ILinkErrorResponse>,
) -> (r: ILinkError)
    ensures
        report is None ==> r@ == "iLink sendMessage HTTP error "@ + status@ + ": "@ + body@,
        report matches Some(resp) ==> r@ == send_error_words(
            decisive(status_code as i32, resp.errcode),
            *resp,
        ),
{
    match report {
        Some(resp) => send_error(resp.errcode.unwrap_or(status_code as i32), resp),
        None => {
            let e = ApiCall::SendMessage.http_error(status, body);
            assert(e@ =~= "iLink sendMessage HTTP error "@ + status@ + ": "@ + body@) by {
                reveal_strlit("iLink ");
                reveal_strlit("sendMessage");
                reveal_strlit(" HTTP error ");
                reveal_strlit("iLink sendMessage HTTP error ");
            }
            e
        },
    }
}

/// What an HTTP status says about a file that was refused for upload.
pub open spec fn upload_refusal(status_code: u16) -> ILinkErrorCode {
    if status_code == 413 {
        ILinkErrorCode::FileTooLarge
    } else if status_code == 415 {
        ILinkErrorCode::InvalidMediaType
    } else {
        ILinkErrorCode::UploadFailed
    }
}

/// The error for a file that was refused for upload.
pub fn upload_refused(status_code: u16, status: &str) -> (r: ILinkError)
    ensures
        r@ == "iLink getUploadUrl error ("@ + status@ + "): "@ + upload_refusal(status_code).words(),
{
    let code = if status_code == 413 {
        ILinkErrorCode::FileTooLarge
    } else if status_code == 415 {
        ILinkErrorCode::InvalidMediaType
    } else {
        ILinkErrorCode::UploadFailed
    };
    let mut message = "iLink getUploadUrl error (".to_string();
    message.append(status);
    message.append("): ");
    message.append(code.description());
    ILinkError { message }
}

/// A number for a single request, random, of four bytes in base64.
pub fn random_uin_base64() -> (r: String)
    ensures
        exists|bytes: Seq<u8>| bytes.len() == 4 && r@ == #[trigger] base64_text(bytes),
{
    let bytes = random_bytes(4);
    encode_base64(bytes.as_slice())
}

/// An account's access to the iLink Bot API.
#[derive(Clone)]
pub struct WeXinApiClient {
    bot_token: String,
}

/// Names and values of the headers of a request.
pub open spec fn header_views(headers: Seq<(String, String)>) -> Seq<(Seq<char>, Seq<char>)> {
    headers.map_values(|h: (String, String)| (h.0@, h.1@))
}

impl WeXinApiClient {
    /// The token of the account.
    pub closed spec fn token(self) -> Seq<char> {
        self.bot_token@
    }

    /// Access with the given token.
    pub fn new(bot_token: String) -> (r: Self)
        ensures
            r.token() == bot_token@,
    {
        WeXinApiClient { bot_token }
    }

    /// The headers that every request carries, with a number of its own.
    pub open spec fn headers(token: Seq<char>, uin: Seq<char>) -> Seq<(Seq<char>, Seq<char>)> {
        seq![
            ("content-type"@, "application/json"@),
            ("AuthorizationType"@, "ilink_bot_token"@),
            ("authorization"@, "Bearer "@ + token),
            ("X-WECHAT-UIN"@, uin),
        ]
    }

    /// The headers for a request with the given number.
    pub fn headers_with(&self, uin: String) -> (r: Vec<(String, String)>)
        ensures
            header_views(r@) == Self::headers(self.token(), uin@),
    {
        let mut headers: Vec<(String, String)> = Vec::new();
        headers.push(("content-type".to_string(), "application/json".to_string()));
        headers.push(("AuthorizationType".to_string(), "ilink_bot_token".to_string()));
        headers.push(
            ("authorization".to_string(), "Bearer ".to_string().concat(self.bot_token.as_str())),
        );
        headers.push(("X-WECHAT-UIN".to_string(), uin));
        assert(header_views(headers@) =~= Self::headers(self.token(), uin@));
        headers
    }

    /// The headers for one request.
    pub fn make_headers(&self) -> (r: Vec<(String, String)>)
        ensures
            exists|bytes: Seq<u8>|
                bytes.len() == 4 && header_views(r@) == Self::headers(
                    self.token(),
                    #[trigger] base64_text(bytes),
                ),
    {
        self.headers_with(random_uin_base64())
    }
}

/// What the parts of a message say, one by one: a text its words, and media their places and keys.
pub proof fn parts_keep_their_places(items: Seq<MessageItem>, i: int)
    requires
        0 <= i < items.len(),
    ensures
        item_views(items).len() == items.len(),
        match items[i] {
            MessageItem::Text { text_item } => item_views(items)[i] == ItemView::Text(
                text_item.text@,
            ),
            MessageItem::Image { image_item } => {
                &&& item_views(items)[i] is Image
                &&& item_views(items)[i]->Image_0.param == text_opt(image_item.encrypt_query_param)
                &&& item_views(items)[i]->Image_0.key == text_opt(image_item.aes_key)
            },
            MessageItem::Voice { voice_item } => {
                &&& item_views(items)[i] is Voice
                &&& item_views(items)[i]->Voice_0.param == text_opt(voice_item.encrypt_query_param)
                &&& item_views(items)[i]->Voice_0.key == text_opt(voice_item.aes_key)
            },
            MessageItem::File { file_item } => {
                &&& item_views(items)[i] is File
                &&& item_views(items)[i]->File_0.param == text_opt(file_item.encrypt_query_param)
                &&& item_views(items)[i]->File_0.key == text_opt(file_item.aes_key)
            },
            MessageItem::Video { video_item } => {
                &&& item_views(items)[i] is Video
                &&& item_views(items)[i]->Video_0.param == text_opt(video_item.encrypt_query_param)
                &&& item_views(items)[i]->Video_0.key == text_opt(video_item.aes_key)
            },
        },
{
}

/// An answer to `getupdates` is an error exactly when its return code is not zero, or its error code is
/// that of an expired session, an invalid token or a rate limit; an error code says more than the
/// return code.
pub proof fn errors_of_polls(ret: i32, errcode: Option<i32>)
    ensures
        ret != 0 ==> reports_error(ret, errcode),
        ret == 0 ==> (reports_error(ret, errcode) <==> errcode is Some && (
        ILinkErrorCode::SessionTimeout.number() == (errcode->0) || ILinkErrorCode::InvalidToken.number()
            == (errcode->0) || ILinkErrorCode::RateLimited.number() == (errcode->0))),
        errcode is Some ==> decisive(ret, errcode) == errcode->0,
        errcode is None ==> decisive(ret, errcode) == ret,
{
}

/// A message that the server took was not sent exactly when the report says that it is too long, that
/// its content is blocked or that the token is invalid.
pub proof fn errors_of_messages(number: i32)
    ensures
        not_sent(number) <==> number == ILinkErrorCode::MessageTooLong.number() || number
            == ILinkErrorCode::ContentBlocked.number() || number
            == ILinkErrorCode::InvalidToken.number(),
{
}

/// Every request carries its token, as a bearer token, its number, and that it is JSON.
pub proof fn requests_carry_token_and_number(token: Seq<char>, uin: Seq<char>)
    ensures
        ({
            let headers = WeXinApiClient::headers(token, uin);
            &&& headers.len() == 4
            &&& headers.contains(("authorization"@, "Bearer "@ + token))
            &&& headers.contains(("X-WECHAT-UIN"@, uin))
            &&& headers.contains(("AuthorizationType"@, "ilink_bot_token"@))
            &&& headers.contains(("content-type"@, "application/json"@))
        }),
{
    let headers = WeXinApiClient::headers(token, uin);
    assert(headers[0] == ("content-type"@, "application/json"@));
    assert(headers[1] == ("AuthorizationType"@, "ilink_bot_token"@));
    assert(headers[2] == ("authorization"@, "Bearer "@ + token));
    assert(headers[3] == ("X-WECHAT-UIN"@, uin));
}

/// The headers of a request, one by one.
pub proof fn headers_keep_their_places(headers: Seq<(String, String)>)
    ensures
        header_views(headers).len() == headers.len(),
        forall|i: int|
            0 <= i < headers.len() ==> #[trigger] header_views(headers)[i] == (
                headers[i].0@,
                headers[i].1@,
            ),
{
}

/// A file is refused as too large with HTTP status 413 and for its type with 415; with any other status
/// the upload failed, and only then does another attempt make sense.
pub proof fn refused_uploads_by_status(status_code: u16)
    ensures
        upload_refusal(status_code) == ILinkErrorCode::FileTooLarge <==> status_code == 413,
        upload_refusal(status_code) == ILinkErrorCode::InvalidMediaType <==> status_code == 415,
        upload_refusal(status_code).retryable() <==> status_code != 413 && status_code != 415,
{
}

/// Errors end with what is known of their cause: the words of the transport where no answer came,
/// unless a timeout of a poll or of a message says it all, and the server's own message where a message
/// was refused.
pub proof fn errors_end_with_their_cause(
    call: ApiCall,
    timeout: bool,
    connect: bool,
    detail: Seq<char>,
    number: i32,
    report: ILinkErrorResponse,
)
    ensures
        ({
            let words = call.transport_words(timeout, connect, detail);
            !(timeout && (call == ApiCall::GetUpdates || call == ApiCall::SendMessage)) ==> words.len()
                >= detail.len() && words.skip(words.len() - detail.len()) == detail
        }),
        ({
            let words = send_error_words(number, report);
            report.errmsg matches Some(m) ==> words.len() >= m@.len() && words.skip(
                words.len() - m@.len(),
            ) == m@
        }),
{
    let words = call.transport_words(timeout, connect, detail);
    if !(timeout && (call == ApiCall::GetUpdates || call == ApiCall::SendMessage)) {
        assert(words.skip(words.len() - detail.len()) =~= detail);
    }
    if let Some(m) = report.errmsg {
        let told = send_error_words(number, report);
        assert(told.skip(told.len() - m@.len()) =~= m@);
    }
}

} // verus!
