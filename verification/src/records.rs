//! The decoded in-memory representation of a log file, and the error
//! taxonomy of the decoder.

use vstd::prelude::*;

verus! {

/// Why a decode failed.
#[derive(Debug, Clone, Copy, PartialEq, Eq, Structural)]
pub enum DecodeError {
    /// The first seven bytes of the file are not the magic sequence.
    MalformedMagic,
    /// A record's one-byte type tag did not match any known record shape
    /// (or, for a single body decoder, not the shape it expects).
    UnexpectedTag,
    /// The buffer ended before a required field or body was complete.
    TruncatedInput,
    /// A record declared a body size smaller than the fixed fields it must
    /// contain, so the trailing field's length would underflow.
    InvalidLength,
    /// A field defined as text is not valid UTF-8.
    InvalidText,
}

/// Type tag of the mandatory flag-bits record, the byte `B`.
pub const TAG_FLAG_BITS: u8 = 0x42;

/// Type tag of a format-definition record, the byte `F`.
pub const TAG_FORMAT: u8 = 0x46;

/// Type tag of a single key/value information record, the byte `I`.
pub const TAG_INFO: u8 = 0x49;

/// Type tag of a multi-part key/value information record, the byte `M`.
pub const TAG_INFO_MULTIPLE: u8 = 0x4d;

/// Type tag of a parameter record, the byte `P`.
pub const TAG_PARAMETER: u8 = 0x50;

/// Type tag of a parameter-default record, the byte `Q`.
pub const TAG_PARAMETER_DEFAULT: u8 = 0x51;

/// Type tag of a message-subscription record, the byte `A`.
pub const TAG_ADD_LOGGED: u8 = 0x41;

/// Type tag of a subscription-removal record, the byte `R`.
pub const TAG_REMOVE_LOGGED: u8 = 0x52;

/// Type tag of a data record, the byte `D`.
pub const TAG_DATA: u8 = 0x44;

/// Type tag of a logged-string record, the byte `L`.
pub const TAG_LOGGING: u8 = 0x4c;

/// Type tag of a tagged logged-string record, the byte `C`.
pub const TAG_LOGGING_TAGGED: u8 = 0x43;

/// Type tag of a synchronization record, the byte `S`.
pub const TAG_SYNC: u8 = 0x53;

/// Type tag of a dropout marker record, the byte `O`.
pub const TAG_DROPOUT: u8 = 0x4f;

/// The file header: format version and recording-start timestamp
/// (microseconds on the device's monotonic clock).
#[derive(Debug, Clone, Copy, PartialEq, Eq, Structural)]
pub struct Header {
    pub version: u8,
    pub timestamp: u64,
}

/// The three-byte header framing every record: declared body size in bytes
/// (excluding this header itself) and the one-byte type tag.
#[derive(Debug, Clone, Copy, PartialEq, Eq, Structural)]
pub struct MessageHeader {
    pub msg_size: u16,
    pub msg_type: u8,
}

/// The mandatory first record: compatibility and incompatibility bitmasks,
/// and offsets to appended data sections.
#[derive(Debug, Clone, Copy, PartialEq, Eq)]
pub struct MessageFlagBits {
    pub header: MessageHeader,
    pub compat_flags: [u8; 8],
    pub incompat_flags: [u8; 8],
    pub appended_offsets: [u8; 3],
}

/// A type-definition record: the entire body is UTF-8 text.
#[derive(Debug, PartialEq, Eq)]
pub struct MessageFormat {
    pub header: MessageHeader,
    pub format: String,
}

/// A single key/value information record; the value is opaque bytes.
#[derive(Debug, PartialEq, Eq)]
pub struct MessageInfo {
    pub header: MessageHeader,
    pub key_len: u8,
    pub key: String,
    pub value: Vec<u8>,
}

/// A key/value information record that may continue an earlier value
/// sharing the same key.
#[derive(Debug, PartialEq, Eq)]
pub struct MessageInfoMultiple {
    pub header: MessageHeader,
    pub is_continued: u8,
    pub key_len: u8,
    pub key: String,
    pub value: Vec<u8>,
}

/// A parameter record; the value is opaque bytes.
#[derive(Debug, PartialEq, Eq)]
pub struct MessageParameter {
    pub header: MessageHeader,
    pub key_len: u8,
    pub key: String,
    pub value: Vec<u8>,
}

/// A parameter record carrying a default-type bitmask.
#[derive(Debug, PartialEq, Eq)]
pub struct MessageParameterDefault {
    pub header: MessageHeader,
    pub default_types: u8,
    pub key_len: u8,
    pub key: String,
    pub value: Vec<u8>,
}

/// A subscription: from here on, data records with `msg_id` use the named
/// format; `multi_id` distinguishes concurrent instances of one format.
#[derive(Debug, PartialEq, Eq)]
pub struct MessageAddLogged {
    pub header: MessageHeader,
    pub multi_id: u8,
    pub msg_id: u16,
    pub message_name: String,
}

/// Removal of an earlier subscription.
#[derive(Debug, Clone, Copy, PartialEq, Eq, Structural)]
pub struct MessageRemoveLogged {
    pub header: MessageHeader,
    pub msg_id: u16,
}

/// A data record: the payload bytes of one logged message.
#[derive(Debug, PartialEq, Eq)]
pub struct MessageData {
    pub header: MessageHeader,
    pub msg_id: u16,
    pub data: Vec<u8>,
}

/// A logged string with a level and timestamp.
#[derive(Debug, PartialEq, Eq)]
pub struct MessageLogging {
    pub header: MessageHeader,
    pub log_level: u8,
    pub timestamp: u64,
    pub message: String,
}

/// A logged string with a level, a tag id and a timestamp.
#[derive(Debug, PartialEq, Eq)]
pub struct MessageLoggingTagged {
    pub header: MessageHeader,
    pub log_level: u8,
    pub tag: u16,
    pub timestamp: u64,
    pub message: String,
}

/// A synchronization marker record.
#[derive(Debug, Clone, Copy, PartialEq, Eq, Structural)]
pub struct MessageSync {
    pub header: MessageHeader,
    pub sync_magic: u8,
}

/// A marker for a gap in data capture, in milliseconds.
#[derive(Debug, Clone, Copy, PartialEq, Eq, Structural)]
pub struct MessageDropout {
    pub header: MessageHeader,
    pub duration: u16,
}

/// One record of the log body, discriminated by its type tag.
#[derive(Debug, PartialEq, Eq)]
pub enum Message {
    Format(MessageFormat),
    Info(MessageInfo),
    InfoMultiple(MessageInfoMultiple),
    Parameter(MessageParameter),
    ParameterDefault(MessageParameterDefault),
    AddLogged(MessageAddLogged),
    RemoveLogged(MessageRemoveLogged),
    Data(MessageData),
    Logging(MessageLogging),
    LoggingTagged(MessageLoggingTagged),
    Sync(MessageSync),
    Dropout(MessageDropout),
}

/// A fully decoded log file: header, the mandatory flag-bits record, and
/// every following record in appearance order.
#[derive(Debug, PartialEq, Eq)]
pub struct Ulog {
    pub header: Header,
    pub message_flag_bits: MessageFlagBits,
    pub messages: Vec<Message>,
}

} // verus!
