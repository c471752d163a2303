//! Errors of the iLink Bot API: what its numeric codes mean and how to react to them.

use crate::text::{print_i32, signed_decimal};
use vstd::prelude::*;

verus! {

/// Error codes of the iLink Bot API, as they stand in the `errcode` field of a response.
#[derive(Debug, Clone, Copy, PartialEq, Eq, Structural)]
pub enum ILinkErrorCode {
    /// Success, no error
    Success,
    /// Generic error, the message says more
    GenericError,
    /// The cursor has expired: reset it and retry
    SessionTimeout,
    /// The token is no longer valid: authenticate again
    InvalidToken,
    /// Too many requests
    RateLimited,
    /// The user does not exist or is blocked
    UserNotFound,
    /// The message is too long
    MessageTooLong,
    /// The media type is not supported
    InvalidMediaType,
    /// The media file is too large
    FileTooLarge,
    /// The upload failed
    UploadFailed,
    /// The content was blocked by Tencent's moderation
    ContentBlocked,
    /// The network failed, on the client's side
    NetworkError,
    /// A code without a known meaning
    Unknown,
}

impl ILinkErrorCode {
    /// The number that stands for a code.
    pub open spec fn number(self) -> int {
        match self {
            ILinkErrorCode::Success => 0,
            ILinkErrorCode::GenericError => -1,
            ILinkErrorCode::SessionTimeout => -14,
            ILinkErrorCode::InvalidToken => -20,
            ILinkErrorCode::RateLimited => -100,
            ILinkErrorCode::UserNotFound => -200,
            ILinkErrorCode::MessageTooLong => -301,
            ILinkErrorCode::InvalidMediaType => -302,
            ILinkErrorCode::FileTooLarge => -303,
            ILinkErrorCode::UploadFailed => -400,
            ILinkErrorCode::ContentBlocked => -500,
            ILinkErrorCode::NetworkError => -900,
            ILinkErrorCode::Unknown => i32::MIN as int,
        }
    }

    /// Whether the server sends a code: the network error is only ever found on the client's
    /// side, and an unknown code is one that has no meaning here.
    pub open spec fn sent_by_server(self) -> bool {
        self != ILinkErrorCode::NetworkError && self != ILinkErrorCode::Unknown
    }

    /// The meaning of a number: the code that the server sends it for, or unknown.
    pub open spec fn meaning(number: int) -> ILinkErrorCode {
        if number == 0 {
            ILinkErrorCode::Success
        } else if number == -1 {
            ILinkErrorCode::GenericError
        } else if number == -14 {
            ILinkErrorCode::SessionTimeout
        } else if number == -20 {
            ILinkErrorCode::InvalidToken
        } else if number == -100 {
            ILinkErrorCode::RateLimited
        } else if number == -200 {
            ILinkErrorCode::UserNotFound
        } else if number == -301 {
            ILinkErrorCode::MessageTooLong
        } else if number == -302 {
            ILinkErrorCode::InvalidMediaType
        } else if number == -303 {
            ILinkErrorCode::FileTooLarge
        } else if number == -400 {
            ILinkErrorCode::UploadFailed
        } else if number == -500 {
            ILinkErrorCode::ContentBlocked
        } else {
            ILinkErrorCode::Unknown
        }
    }

    /// The number that stands for this code.
    pub fn code(&self) -> (r: i32)
        ensures
            r == self.number(),
    {
        match self {
            ILinkErrorCode::Success => 0,
            ILinkErrorCode::GenericError => -1,
            ILinkErrorCode::SessionTimeout => -14,
            ILinkErrorCode::InvalidToken => -20,
            ILinkErrorCode::RateLimited => -100,
            ILinkErrorCode::UserNotFound => -200,
            ILinkErrorCode::MessageTooLong => -301,
            ILinkErrorCode::InvalidMediaType => -302,
            ILinkErrorCode::FileTooLarge => -303,
            ILinkErrorCode::UploadFailed => -400,
            ILinkErrorCode::ContentBlocked => -500,
            ILinkErrorCode::NetworkError => -900,
            ILinkErrorCode::Unknown => i32::MIN,
        }
    }

    /// The code that a number stands for.
    pub fn from_code(code: i32) -> (r: Self)
        ensures
            r == Self::meaning(code as int),
    {
        if code == 0 {
            ILinkErrorCode::Success
        } else if code == -1 {
            ILinkErrorCode::GenericError
        } else if code == -14 {
            ILinkErrorCode::SessionTimeout
        } else if code == -20 {
            ILinkErrorCode::InvalidToken
        } else if code == -100 {
            ILinkErrorCode::RateLimited
        } else if code == -200 {
            ILinkErrorCode::UserNotFound
        } else if code == -301 {
            ILinkErrorCode::MessageTooLong
        } else if code == -302 {
            ILinkErrorCode::InvalidMediaType
        } else if code == -303 {
            ILinkErrorCode::FileTooLarge
        } else if code == -400 {
            ILinkErrorCode::UploadFailed
        } else if code == -500 {
            ILinkErrorCode::ContentBlocked
        } else {
            ILinkErrorCode::Unknown
        }
    }

    /// The codes after which another attempt may succeed.
    pub open spec fn retryable(self) -> bool {
        ||| self == ILinkErrorCode::SessionTimeout
        ||| self == ILinkErrorCode::RateLimited
        ||| self == ILinkErrorCode::NetworkError
        ||| self == ILinkErrorCode::UploadFailed
    }

    /// Whether another attempt may succeed.
    pub fn is_retryable(&self) -> (r: bool)
        ensures
            r == self.retryable(),
    {
        matches!(self, ILinkErrorCode::SessionTimeout | ILinkErrorCode::RateLimited
            | ILinkErrorCode::NetworkError | ILinkErrorCode::UploadFailed)
    }

    /// Whether the error calls for a new login.
    pub fn requires_reauth(&self) -> (r: bool)
        ensures
            r == (self == ILinkErrorCode::InvalidToken),
    {
        matches!(self, ILinkErrorCode::InvalidToken)
    }

    /// How long to wait before the next attempt, in milliseconds.
    pub open spec fn retry_delay(self) -> Option<u64> {
        match self {
            ILinkErrorCode::SessionTimeout => Some(0),
            ILinkErrorCode::RateLimited => Some(60_000),
            ILinkErrorCode::NetworkError => Some(5_000),
            ILinkErrorCode::UploadFailed => Some(10_000),
            _ => None,
        }
    }

    /// How long to wait before the next attempt, in milliseconds; `None` where there is no point
    /// in another attempt.
    pub fn recommended_retry_delay_ms(&self) -> (r: Option<u64>)
        ensures
            r == self.retry_delay(),
    {
        match self {
            ILinkErrorCode::SessionTimeout => Some(0),
            ILinkErrorCode::RateLimited => Some(60_000),
            ILinkErrorCode::NetworkError => Some(5_000),
            ILinkErrorCode::UploadFailed => Some(10_000),
            _ => None,
        }
    }

    /// The code in words.
    pub open spec fn words(self) -> Seq<char> {
        match self {
            ILinkErrorCode::Success => "Success"@,
            ILinkErrorCode::GenericError => "Generic error"@,
            ILinkErrorCode::SessionTimeout => "Session timeout - cursor expired, please reset"@,
            ILinkErrorCode::InvalidToken => "Invalid or expired token - please re-authenticate"@,
            ILinkErrorCode::RateLimited => "Rate limited - too many requests"@,
            ILinkErrorCode::UserNotFound => "User not found or blocked"@,
            ILinkErrorCode::MessageTooLong => "Message exceeds maximum length"@,
            ILinkErrorCode::InvalidMediaType => "Invalid or unsupported media type"@,
            ILinkErrorCode::FileTooLarge => "File exceeds maximum size limit"@,
            ILinkErrorCode::UploadFailed => "File upload failed"@,
            ILinkErrorCode::ContentBlocked => "Content blocked by moderation"@,
            ILinkErrorCode::NetworkError => "Network error"@,
            ILinkErrorCode::Unknown => "Unknown error"@,
        }
    }

    /// The code in words, for people.
    pub fn description(&self) -> (r: &'static str)
        ensures
            r@ == self.words(),
    {
        match self {
            ILinkErrorCode::Success => "Success",
            ILinkErrorCode::GenericError => "Generic error",
            ILinkErrorCode::SessionTimeout => "Session timeout - cursor expired, please reset",
            ILinkErrorCode::InvalidToken => "Invalid or expired token - please re-authenticate",
            ILinkErrorCode::RateLimited => "Rate limited - too many requests",
            ILinkErrorCode::UserNotFound => "User not found or blocked",
            ILinkErrorCode::MessageTooLong => "Message exceeds maximum length",
            ILinkErrorCode::InvalidMediaType => "Invalid or unsupported media type",
            ILinkErrorCode::FileTooLarge => "File exceeds maximum size limit",
            ILinkErrorCode::UploadFailed => "File upload failed",
            ILinkErrorCode::ContentBlocked => "Content blocked by moderation",
            ILinkErrorCode::NetworkError => "Network error",
            ILinkErrorCode::Unknown => "Unknown error",
        }
    }

    /// What to do about an error, in words.
    pub open spec fn advice(self) -> Seq<char> {
        match self {
            ILinkErrorCode::Success => "No action needed"@,
            ILinkErrorCode::GenericError => "Check error message for details"@,
            ILinkErrorCode::SessionTimeout => "Reset cursor to empty and retry"@,
            ILinkErrorCode::InvalidToken => "Run 'openclaw channels login --channel openclaw-weixin'"@,
            ILinkErrorCode::RateLimited => "Wait before retrying, implement backoff"@,
            ILinkErrorCode::UserNotFound => "Verify user ID is correct"@,
            ILinkErrorCode::MessageTooLong => "Split message into smaller parts"@,
            ILinkErrorCode::InvalidMediaType => "Use supported format: jpg, png, mp4, etc."@,
            ILinkErrorCode::FileTooLarge => "Compress file or use smaller resolution"@,
            ILinkErrorCode::UploadFailed => "Retry upload with exponential backoff"@,
            ILinkErrorCode::ContentBlocked => "Modify content to comply with ToS"@,
            ILinkErrorCode::NetworkError => "Check network connectivity"@,
            ILinkErrorCode::Unknown => "Check Tencent documentation"@,
        }
    }

    /// What to do about the error, for people.
    pub fn suggested_action(&self) -> (r: &'static str)
        ensures
            r@ == self.advice(),
    {
        match self {
            ILinkErrorCode::Success => "No action needed",
            ILinkErrorCode::GenericError => "Check error message for details",
            ILinkErrorCode::SessionTimeout => "Reset cursor to empty and retry",
            ILinkErrorCode::InvalidToken => "Run 'openclaw channels login --channel openclaw-weixin'",
            ILinkErrorCode::RateLimited => "Wait before retrying, implement backoff",
            ILinkErrorCode::UserNotFound => "Verify user ID is correct",
            ILinkErrorCode::MessageTooLong => "Split message into smaller parts",
            ILinkErrorCode::InvalidMediaType => "Use supported format: jpg, png, mp4, etc.",
            ILinkErrorCode::FileTooLarge => "Compress file or use smaller resolution",
            ILinkErrorCode::UploadFailed => "Retry upload with exponential backoff",
            ILinkErrorCode::ContentBlocked => "Modify content to comply with ToS",
            ILinkErrorCode::NetworkError => "Check network connectivity",
            ILinkErrorCode::Unknown => "Check Tencent documentation",
        }
    }
}

impl From<i32> for ILinkErrorCode {
    fn from(code: i32) -> (r: Self) {
        Self::from_code(code)
    }
}

impl vstd::std_specs::convert::FromSpecImpl<i32> for ILinkErrorCode {
    open spec fn obeys_from_spec() -> bool {
        true
    }

    open spec fn from_spec(code: i32) -> Self {
        Self::meaning(code as int)
    }
}

/// Every code but the network error, which only ever arises here, is read back from its number.
pub proof fn codes_read_back(code: ILinkErrorCode)
    requires
        code != ILinkErrorCode::NetworkError,
    ensures
        ILinkErrorCode::meaning(code.number()) == code,
{
}

/// A number is read as a known code exactly when the server sends that code for it.
pub proof fn numbers_read_once(number: int, code: ILinkErrorCode)
    requires
        code.sent_by_server(),
    ensures
        ILinkErrorCode::meaning(number) == code <==> number == code.number(),
        ILinkErrorCode::meaning(number) != ILinkErrorCode::NetworkError,
{
}

/// A delay is recommended exactly for the errors after which another attempt may succeed.
pub proof fn delay_recommended_iff_retryable(code: ILinkErrorCode)
    ensures
        code.retry_delay() is Some <==> code.retryable(),
{
}

/// An error in words, for people.
#[derive(Debug, Clone)]
pub struct ILinkError {
    /// The words
    pub message: String,
}

impl View for ILinkError {
    type V = Seq<char>;

    open spec fn view(&self) -> Seq<char> {
        self.message@
    }
}

/// An error response of the iLink Bot API.
#[derive(Debug, Clone)]
pub struct ILinkErrorResponse {
    /// Return code of the call, 0 for success
    pub ret: i32,
    /// Error code
    pub errcode: Option<i32>,
    /// Error message, for people
    pub errmsg: Option<String>,
}

/// The number that says what went wrong: the error code, or the return code where there is none.
pub open spec fn decisive(ret: i32, errcode: Option<i32>) -> i32 {
    match errcode {
        Some(code) => code,
        None => ret,
    }
}

impl ILinkErrorResponse {
    /// Whether the response reports success.
    pub fn is_success(&self) -> (r: bool)
        ensures
            r == (self.ret == 0 && (self.errcode is None || self.errcode == Some(0i32))),
    {
        self.ret == 0 && self.errcode.unwrap_or(0) == 0
    }

    /// The code that the response reports.
    pub fn error_code(&self) -> (r: ILinkErrorCode)
        ensures
            r == ILinkErrorCode::meaning(decisive(self.ret, self.errcode) as int),
    {
        ILinkErrorCode::from_code(self.errcode.unwrap_or(self.ret))
    }

    /// The message, or a stand-in where the response has none.
    pub open spec fn message_or_default(self) -> Seq<char> {
        match self.errmsg {
            Some(m) => m@,
            None => "Unknown error"@,
        }
    }

    /// The response as an error in words: the numbers, the meaning of the error code if there is
    /// one, and the message.
    pub fn to_error(&self) -> (r: ILinkError)
        ensures
            self.errcode matches Some(code) ==> r@ == "iLink error (ret="@ + signed_decimal(
                self.ret as int,
            ) + ", errcode="@ + signed_decimal(code as int) + "): "@ + ILinkErrorCode::meaning(
                code as int,
            ).words() + " — "@ + self.message_or_default(),
            self.errcode is None ==> r@ == "iLink error (ret="@ + signed_decimal(self.ret as int)
                + "): "@ + self.message_or_default(),
    {
        let code = self.error_code();
        let msg: &str = match &self.errmsg {
            Some(m) => m.as_str(),
            None => "Unknown error",
        };
        let mut message = "iLink error (ret=".to_string();
        message.append(print_i32(self.ret).as_str());
        if let Some(number) = self.errcode {
            message.append(", errcode=");
            message.append(print_i32(number).as_str());
            message.append("): ");
            message.append(code.description());
            message.append(" — ");
            message.append(msg);
        } else {
            message.append("): ");
            message.append(msg);
        }
        ILinkError { message }
    }
}

/// A response that reports success carries the code for success.
pub proof fn success_has_success_code(ret: i32, errcode: Option<i32>)
    requires
        ret == 0 && (errcode is None || errcode == Some(0i32)),
    ensures
        ILinkErrorCode::meaning(decisive(ret, errcode) as int) == ILinkErrorCode::Success,
{
}

/// Kinds of errors, by how to react to them.
#[derive(Debug, Clone, Copy, PartialEq, Eq, Structural)]
pub enum ErrorCategory {
    /// Another attempt may succeed
    Transient,
    /// Another attempt will not succeed
    Permanent,
    /// A new login is needed
    Auth,
    /// It takes a pause
    RateLimit,
    /// The content was blocked
    Content,
}

impl ErrorCategory {
    /// The kind of an error code.
    pub open spec fn of(code: ILinkErrorCode) -> ErrorCategory {
        match code {
            ILinkErrorCode::Success => ErrorCategory::Permanent,
            ILinkErrorCode::GenericError => ErrorCategory::Transient,
            ILinkErrorCode::SessionTimeout => ErrorCategory::Transient,
            ILinkErrorCode::InvalidToken => ErrorCategory::Auth,
            ILinkErrorCode::RateLimited => ErrorCategory::RateLimit,
            ILinkErrorCode::UserNotFound => ErrorCategory::Permanent,
            ILinkErrorCode::MessageTooLong => ErrorCategory::Permanent,
            ILinkErrorCode::InvalidMediaType => ErrorCategory::Permanent,
            ILinkErrorCode::FileTooLarge => ErrorCategory::Permanent,
            ILinkErrorCode::UploadFailed => ErrorCategory::Transient,
            ILinkErrorCode::ContentBlocked => ErrorCategory::Content,
            ILinkErrorCode::NetworkError => ErrorCategory::Transient,
            ILinkErrorCode::Unknown => ErrorCategory::Permanent,
        }
    }
}

impl<'a> From<&'a ILinkErrorCode> for ErrorCategory {
    fn from(code: &'a ILinkErrorCode) -> (r: Self) {
        match code {
            ILinkErrorCode::Success => ErrorCategory::Permanent,
            ILinkErrorCode::GenericError => ErrorCategory::Transient,
            ILinkErrorCode::SessionTimeout => ErrorCategory::Transient,
            ILinkErrorCode::InvalidToken => ErrorCategory::Auth,
            ILinkErrorCode::RateLimited => ErrorCategory::RateLimit,
            ILinkErrorCode::UserNotFound => ErrorCategory::Permanent,
            ILinkErrorCode::MessageTooLong => ErrorCategory::Permanent,
            ILinkErrorCode::InvalidMediaType => ErrorCategory::Permanent,
            ILinkErrorCode::FileTooLarge => ErrorCategory::Permanent,
            ILinkErrorCode::UploadFailed => ErrorCategory::Transient,
            ILinkErrorCode::ContentBlocked => ErrorCategory::Content,
            ILinkErrorCode::NetworkError => ErrorCategory::Transient,
            ILinkErrorCode::Unknown => ErrorCategory::Permanent,
        }
    }
}

impl<'a> vstd::std_specs::convert::FromSpecImpl<&'a ILinkErrorCode> for ErrorCategory {
    open spec fn obeys_from_spec() -> bool {
        true
    }

    open spec fn from_spec(code: &'a ILinkErrorCode) -> Self {
        Self::of(*code)
    }
}

/// A new login is called for exactly by the errors of the authentication kind, and every error
/// after which another attempt may succeed is transient or asks for a pause.
pub proof fn categories_agree(code: ILinkErrorCode)
    ensures
        ErrorCategory::of(code) == ErrorCategory::Auth <==> code == ILinkErrorCode::InvalidToken,
        code.retryable() ==> ErrorCategory::of(code) == ErrorCategory::Transient
            || ErrorCategory::of(code) == ErrorCategory::RateLimit,
{
}

/// How often and how patiently to retry. How the delays grow between the first and the longest
/// is left to the caller.
#[derive(Debug, Clone)]
pub struct RetryPolicy {
    /// Number of retries before giving up
    pub max_retries: u32,
    /// First delay in milliseconds
    pub initial_delay_ms: u64,
    /// Longest delay in milliseconds
    pub max_delay_ms: u64,
}

impl Default for RetryPolicy {
    fn default() -> (r: Self)
        ensures
            r.max_retries == 5,
            r.initial_delay_ms == 1_000,
            r.max_delay_ms == 60_000,
    {
        RetryPolicy { max_retries: 5, initial_delay_ms: 1_000, max_delay_ms: 60_000 }
    }
}

impl RetryPolicy {
    /// Whether to retry after the given number of attempts.
    pub fn should_retry(&self, attempt: u32, error: &ILinkErrorCode) -> (r: bool)
        ensures
            r == (attempt < self.max_retries && error.retryable()),
    {
        attempt < self.max_retries && error.is_retryable()
    }
}

/// The numbers of the API's documentation, and what each means; every other number is unknown.
pub proof fn numbers_mean_what_is_documented(number: int)
    ensures
        number == 0 <==> ILinkErrorCode::meaning(number) == ILinkErrorCode::Success,
        number == -1 <==> ILinkErrorCode::meaning(number) == ILinkErrorCode::GenericError,
        number == -14 <==> ILinkErrorCode::meaning(number) == ILinkErrorCode::SessionTimeout,
        number == -20 <==> ILinkErrorCode::meaning(number) == ILinkErrorCode::InvalidToken,
        number == -100 <==> ILinkErrorCode::meaning(number) == ILinkErrorCode::RateLimited,
        number == -200 <==> ILinkErrorCode::meaning(number) == ILinkErrorCode::UserNotFound,
        number == -301 <==> ILinkErrorCode::meaning(number) == ILinkErrorCode::MessageTooLong,
        number == -302 <==> ILinkErrorCode::meaning(number) == ILinkErrorCode::InvalidMediaType,
        number == -303 <==> ILinkErrorCode::meaning(number) == ILinkErrorCode::FileTooLarge,
        number == -400 <==> ILinkErrorCode::meaning(number) == ILinkErrorCode::UploadFailed,
        number == -500 <==> ILinkErrorCode::meaning(number) == ILinkErrorCode::ContentBlocked,
        ILinkErrorCode::meaning(number) != ILinkErrorCode::NetworkError,
{
}

/// Another attempt makes sense after an expired session, at once; after a failure of the network, in
/// five seconds; after a failed upload, in ten; after too many requests, in a minute; and after no
/// other error.
pub proof fn waits_grow_with_the_cause(code: ILinkErrorCode)
    ensures
        code.retryable() <==> code == ILinkErrorCode::SessionTimeout || code
            == ILinkErrorCode::NetworkError || code == ILinkErrorCode::UploadFailed || code
            == ILinkErrorCode::RateLimited,
        code.retry_delay() == Some(0u64) <==> code == ILinkErrorCode::SessionTimeout,
        code.retry_delay() == Some(5_000u64) <==> code == ILinkErrorCode::NetworkError,
        code.retry_delay() == Some(10_000u64) <==> code == ILinkErrorCode::UploadFailed,
        code.retry_delay() == Some(60_000u64) <==> code == ILinkErrorCode::RateLimited,
        code.retry_delay() is None <==> !code.retryable(),
{
}

/// Which errors are of which kind: a login, a pause and other content are asked for by one code each;
/// a generic error, an expired session, a failed upload and a failure of the network pass; all others
/// stay.
pub proof fn kinds_of_errors(code: ILinkErrorCode)
    ensures
        ErrorCategory::of(code) == ErrorCategory::Auth <==> code == ILinkErrorCode::InvalidToken,
        ErrorCategory::of(code) == ErrorCategory::RateLimit <==> code == ILinkErrorCode::RateLimited,
        ErrorCategory::of(code) == ErrorCategory::Content <==> code
            == ILinkErrorCode::ContentBlocked,
        ErrorCategory::of(code) == ErrorCategory::Transient <==> code
            == ILinkErrorCode::GenericError || code == ILinkErrorCode::SessionTimeout || code
            == ILinkErrorCode::UploadFailed || code == ILinkErrorCode::NetworkError,
{
}

} // verus!
