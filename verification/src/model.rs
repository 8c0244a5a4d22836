//! The mathematical model of the byte layout.
//!
//! Each `spec_*` function here decodes one part of the format over a
//! `Seq<u8>` and a cursor position, returning either the decoded value and
//! the position just past it, or the exact [`DecodeError`] the executable
//! decoder must report. The `*_matches` relations say when an executable
//! result agrees with its model; text fields are compared through
//! `vstd::utf8::decode_utf8`, opaque fields byte for byte.

use vstd::prelude::*;

verus! {

use vstd::bytes::spec_u16_from_le_bytes;
use vstd::bytes::spec_u64_from_le_bytes;
use vstd::utf8::decode_utf8;
use vstd::utf8::valid_utf8;

use crate::records::DecodeError;
use crate::records::Header;
use crate::records::Message;
use crate::records::MessageFlagBits;
use crate::records::MessageHeader;
use crate::records::MessageRemoveLogged;
use crate::records::MessageSync;
use crate::records::MessageDropout;
use crate::records::Ulog;
use crate::records::TAG_ADD_LOGGED;
use crate::records::TAG_DATA;
use crate::records::TAG_DROPOUT;
use crate::records::TAG_FLAG_BITS;
use crate::records::TAG_FORMAT;
use crate::records::TAG_INFO;
use crate::records::TAG_INFO_MULTIPLE;
use crate::records::TAG_LOGGING;
use crate::records::TAG_LOGGING_TAGGED;
use crate::records::TAG_PARAMETER;
use crate::records::TAG_PARAMETER_DEFAULT;
use crate::records::TAG_REMOVE_LOGGED;
use crate::records::TAG_SYNC;

/// The seven magic bytes that open every log file.
pub open spec fn spec_magic() -> Seq<u8> {
    seq![0x55u8, 0x4cu8, 0x6fu8, 0x67u8, 0x01u8, 0x12u8, 0x35u8]
}

/// The little-endian 16-bit integer stored at `pos`.
pub open spec fn le16_at(s: Seq<u8>, pos: int) -> u16
    recommends
        0 <= pos,
        pos + 2 <= s.len(),
{
    spec_u16_from_le_bytes(s.subrange(pos, pos + 2))
}

/// The little-endian 64-bit integer stored at `pos`.
pub open spec fn le64_at(s: Seq<u8>, pos: int) -> u64
    recommends
        0 <= pos,
        pos + 8 <= s.len(),
{
    spec_u64_from_le_bytes(s.subrange(pos, pos + 8))
}

/// Model of the flag-bits record: the three fixed-width fields as byte
/// sequences of length 8, 8 and 3.
pub struct SpecFlagBits {
    pub header: MessageHeader,
    pub compat_flags: Seq<u8>,
    pub incompat_flags: Seq<u8>,
    pub appended_offsets: Seq<u8>,
}

/// Model of a format record; `format` is the decoded text.
pub struct SpecFormat {
    pub header: MessageHeader,
    pub format: Seq<char>,
}

/// Model of an information record; `key` is decoded text, `value` raw bytes.
pub struct SpecInfo {
    pub header: MessageHeader,
    pub key_len: u8,
    pub key: Seq<char>,
    pub value: Seq<u8>,
}

/// Model of a multi-part information record.
pub struct SpecInfoMultiple {
    pub header: MessageHeader,
    pub is_continued: u8,
    pub key_len: u8,
    pub key: Seq<char>,
    pub value: Seq<u8>,
}

/// Model of a parameter record.
pub struct SpecParameter {
    pub header: MessageHeader,
    pub key_len: u8,
    pub key: Seq<char>,
    pub value: Seq<u8>,
}

/// Model of a parameter-default record.
pub struct SpecParameterDefault {
    pub header: MessageHeader,
    pub default_types: u8,
    pub key_len: u8,
    pub key: Seq<char>,
    pub value: Seq<u8>,
}

/// Model of a subscription record; `message_name` is decoded text.
pub struct SpecAddLogged {
    pub header: MessageHeader,
    pub multi_id: u8,
    pub msg_id: u16,
    pub message_name: Seq<char>,
}

/// Model of a data record; `data` is the raw payload.
pub struct SpecData {
    pub header: MessageHeader,
    pub msg_id: u16,
    pub data: Seq<u8>,
}

/// Model of a logged-string record.
pub struct SpecLogging {
    pub header: MessageHeader,
    pub log_level: u8,
    pub timestamp: u64,
    pub message: Seq<char>,
}

/// Model of a tagged logged-string record.
pub struct SpecLoggingTagged {
    pub header: MessageHeader,
    pub log_level: u8,
    pub tag: u16,
    pub timestamp: u64,
    pub message: Seq<char>,
}

/// Model of one record of the log body.
pub enum SpecMessage {
    Format(SpecFormat),
    Info(SpecInfo),
    InfoMultiple(SpecInfoMultiple),
    Parameter(SpecParameter),
    ParameterDefault(SpecParameterDefault),
    AddLogged(SpecAddLogged),
    RemoveLogged(MessageRemoveLogged),
    Data(SpecData),
    Logging(SpecLogging),
    LoggingTagged(SpecLoggingTagged),
    Sync(MessageSync),
    Dropout(MessageDropout),
}

/// Model of a fully decoded log file.
pub struct SpecUlog {
    pub header: Header,
    pub flag_bits: SpecFlagBits,
    pub messages: Seq<SpecMessage>,
}

/// Decode the 16-byte file header at `pos`: the seven magic bytes, a
/// one-byte version, and a little-endian 64-bit timestamp.
pub open spec fn spec_header(s: Seq<u8>, pos: int) -> Result<(Header, int), DecodeError> {
    if s.len() < pos + 7 {
        Err(DecodeError::TruncatedInput)
    } else if s.subrange(pos, pos + 7) != spec_magic() {
        Err(DecodeError::MalformedMagic)
    } else if s.len() < pos + 16 {
        Err(DecodeError::TruncatedInput)
    } else {
        Ok((Header { version: s[pos + 7], timestamp: le64_at(s, pos + 8) }, pos + 16))
    }
}

/// Decode the three-byte record header at `pos`: a little-endian size and
/// one required tag byte equal to `msg_type`.
pub open spec fn spec_message_header(s: Seq<u8>, pos: int, msg_type: u8) -> Result<
    (MessageHeader, int),
    DecodeError,
> {
    if s.len() < pos + 3 {
        Err(DecodeError::TruncatedInput)
    } else if s[pos + 2] != msg_type {
        Err(DecodeError::UnexpectedTag)
    } else {
        Ok((MessageHeader { msg_size: le16_at(s, pos), msg_type }, pos + 3))
    }
}

/// Decode the flag-bits record at `pos`: a `B`-tagged record whose body
/// (its declared size, at least 19 bytes) carves 8 + 8 + 3 fixed bytes;
/// any declared body bytes past the nineteenth are skipped.
pub open spec fn spec_flag_bits(s: Seq<u8>, pos: int) -> Result<(SpecFlagBits, int), DecodeError> {
    match spec_message_header(s, pos, TAG_FLAG_BITS) {
        Err(e) => Err(e),
        Ok((h, p)) => {
            if s.len() < p + h.msg_size {
                Err(DecodeError::TruncatedInput)
            } else if h.msg_size < 19 {
                Err(DecodeError::TruncatedInput)
            } else {
                Ok(
                    (
                        SpecFlagBits {
                            header: h,
                            compat_flags: s.subrange(p, p + 8),
                            incompat_flags: s.subrange(p + 8, p + 16),
                            appended_offsets: s.subrange(p + 16, p + 19),
                        },
                        p + h.msg_size,
                    ),
                )
            }
        },
    }
}

/// Decode an `F` record at `pos`: the entire declared body is UTF-8 text.
pub open spec fn spec_format(s: Seq<u8>, pos: int) -> Result<(SpecMessage, int), DecodeError> {
    match spec_message_header(s, pos, TAG_FORMAT) {
        Err(e) => Err(e),
        Ok((h, p)) => {
            if s.len() < p + h.msg_size {
                Err(DecodeError::TruncatedInput)
            } else if !valid_utf8(s.subrange(p, p + h.msg_size)) {
                Err(DecodeError::InvalidText)
            } else {
                Ok(
                    (
                        SpecMessage::Format(
                            SpecFormat {
                                header: h,
                                format: decode_utf8(s.subrange(p, p + h.msg_size)),
                            },
                        ),
                        p + h.msg_size,
                    ),
                )
            }
        },
    }
}

/// Decode an `I` record at `pos`: a one-byte key length, the UTF-8 key, and
/// an opaque value of the remaining `msg_size - 1 - key_len` bytes.
pub open spec fn spec_info(s: Seq<u8>, pos: int) -> Result<(SpecMessage, int), DecodeError> {
    match spec_message_header(s, pos, TAG_INFO) {
        Err(e) => Err(e),
        Ok((h, p)) => {
            if s.len() < p + 1 {
                Err(DecodeError::TruncatedInput)
            } else {
                let key_len = s[p];
                if s.len() < p + 1 + key_len {
                    Err(DecodeError::TruncatedInput)
                } else if h.msg_size < 1 + key_len {
                    Err(DecodeError::InvalidLength)
                } else if s.len() < p + h.msg_size {
                    Err(DecodeError::TruncatedInput)
                } else if !valid_utf8(s.subrange(p + 1, p + 1 + key_len)) {
                    Err(DecodeError::InvalidText)
                } else {
                    Ok(
                        (
                            SpecMessage::Info(
                                SpecInfo {
                                    header: h,
                                    key_len,
                                    key: decode_utf8(s.subrange(p + 1, p + 1 + key_len)),
                                    value: s.subrange(p + 1 + key_len, p + h.msg_size),
                                },
                            ),
                            p + h.msg_size,
                        ),
                    )
                }
            }
        },
    }
}

/// Decode an `M` record at `pos`: a continuation flag, a key length, the
/// UTF-8 key, and an opaque value of `msg_size - 2 - key_len` bytes.
pub open spec fn spec_info_multiple(s: Seq<u8>, pos: int) -> Result<
    (SpecMessage, int),
    DecodeError,
> {
    match spec_message_header(s, pos, TAG_INFO_MULTIPLE) {
        Err(e) => Err(e),
        Ok((h, p)) => {
            if s.len() < p + 2 {
                Err(DecodeError::TruncatedInput)
            } else {
                let is_continued = s[p];
                let key_len = s[p + 1];
                if s.len() < p + 2 + key_len {
                    Err(DecodeError::TruncatedInput)
                } else if h.msg_size < 2 + key_len {
                    Err(DecodeError::InvalidLength)
                } else if s.len() < p + h.msg_size {
                    Err(DecodeError::TruncatedInput)
                } else if !valid_utf8(s.subrange(p + 2, p + 2 + key_len)) {
                    Err(DecodeError::InvalidText)
                } else {
                    Ok(
                        (
                            SpecMessage::InfoMultiple(
                                SpecInfoMultiple {
                                    header: h,
                                    is_continued,
                                    key_len,
                                    key: decode_utf8(s.subrange(p + 2, p + 2 + key_len)),
                                    value: s.subrange(p + 2 + key_len, p + h.msg_size),
                                },
                            ),
                            p + h.msg_size,
                        ),
                    )
                }
            }
        },
    }
}

/// Decode a `P` record at `pos`: shaped exactly like an `I` record.
pub open spec fn spec_parameter(s: Seq<u8>, pos: int) -> Result<(SpecMessage, int), DecodeError> {
    match spec_message_header(s, pos, TAG_PARAMETER) {
        Err(e) => Err(e),
        Ok((h, p)) => {
            if s.len() < p + 1 {
                Err(DecodeError::TruncatedInput)
            } else {
                let key_len = s[p];
                if s.len() < p + 1 + key_len {
                    Err(DecodeError::TruncatedInput)
                } else if h.msg_size < 1 + key_len {
                    Err(DecodeError::InvalidLength)
                } else if s.len() < p + h.msg_size {
                    Err(DecodeError::TruncatedInput)
                } else if !valid_utf8(s.subrange(p + 1, p + 1 + key_len)) {
                    Err(DecodeError::InvalidText)
                } else {
                    Ok(
                        (
                            SpecMessage::Parameter(
                                SpecParameter {
                                    header: h,
                                    key_len,
                                    key: decode_utf8(s.subrange(p + 1, p + 1 + key_len)),
                                    value: s.subrange(p + 1 + key_len, p + h.msg_size),
                                },
                            ),
                            p + h.msg_size,
                        ),
                    )
                }
            }
        },
    }
}

/// Decode a `Q` record at `pos`: a default-type bitmask, a key length, the
/// UTF-8 key, and an opaque value of `msg_size - 2 - key_len` bytes.
pub open spec fn spec_parameter_default(s: Seq<u8>, pos: int) -> Result<
    (SpecMessage, int),
    DecodeError,
> {
    match spec_message_header(s, pos, TAG_PARAMETER_DEFAULT) {
        Err(e) => Err(e),
        Ok((h, p)) => {
            if s.len() < p + 2 {
                Err(DecodeError::TruncatedInput)
            } else {
                let default_types = s[p];
                let key_len = s[p + 1];
                if s.len() < p + 2 + key_len {
                    Err(DecodeError::TruncatedInput)
                } else if h.msg_size < 2 + key_len {
                    Err(DecodeError::InvalidLength)
                } else if s.len() < p + h.msg_size {
                    Err(DecodeError::TruncatedInput)
                } else if !valid_utf8(s.subrange(p + 2, p + 2 + key_len)) {
                    Err(DecodeError::InvalidText)
                } else {
                    Ok(
                        (
                            SpecMessage::ParameterDefault(
                                SpecParameterDefault {
                                    header: h,
                                    default_types,
                                    key_len,
                                    key: decode_utf8(s.subrange(p + 2, p + 2 + key_len)),
                                    value: s.subrange(p + 2 + key_len, p + h.msg_size),
                                },
                            ),
                            p + h.msg_size,
                        ),
                    )
                }
            }
        },
    }
}

/// Decode an `A` record at `pos`: a multi-instance id, a message id, and a
/// UTF-8 format name of the remaining `msg_size - 3` bytes.
pub open spec fn spec_add_logged(s: Seq<u8>, pos: int) -> Result<(SpecMessage, int), DecodeError> {
    match spec_message_header(s, pos, TAG_ADD_LOGGED) {
        Err(e) => Err(e),
        Ok((h, p)) => {
            if s.len() < p + 3 {
                Err(DecodeError::TruncatedInput)
            } else if h.msg_size < 3 {
                Err(DecodeError::InvalidLength)
            } else if s.len() < p + h.msg_size {
                Err(DecodeError::TruncatedInput)
            } else if !valid_utf8(s.subrange(p + 3, p + h.msg_size)) {
                Err(DecodeError::InvalidText)
            } else {
                Ok(
                    (
                        SpecMessage::AddLogged(
                            SpecAddLogged {
                                header: h,
                                multi_id: s[p],
                                msg_id: le16_at(s, p + 1),
                                message_name: decode_utf8(s.subrange(p + 3, p + h.msg_size)),
                            },
                        ),
                        p + h.msg_size,
                    ),
                )
            }
        },
    }
}

/// Decode an `R` record at `pos`: just the two-byte message id. The
/// declared size plays no part, matching the format's fixed shape.
pub open spec fn spec_remove_logged(s: Seq<u8>, pos: int) -> Result<
    (SpecMessage, int),
    DecodeError,
> {
    match spec_message_header(s, pos, TAG_REMOVE_LOGGED) {
        Err(e) => Err(e),
        Ok((h, p)) => {
            if s.len() < p + 2 {
                Err(DecodeError::TruncatedInput)
            } else {
                Ok(
                    (
                        SpecMessage::RemoveLogged(
                            MessageRemoveLogged { header: h, msg_id: le16_at(s, p) },
                        ),
                        p + 2,
                    ),
                )
            }
        },
    }
}

/// Decode a `D` record at `pos`: a two-byte message id and an opaque
/// payload of the remaining `msg_size - 2` bytes.
pub open spec fn spec_data(s: Seq<u8>, pos: int) -> Result<(SpecMessage, int), DecodeError> {
    match spec_message_header(s, pos, TAG_DATA) {
        Err(e) => Err(e),
        Ok((h, p)) => {
            if s.len() < p + 2 {
                Err(DecodeError::TruncatedInput)
            } else if h.msg_size < 2 {
                Err(DecodeError::InvalidLength)
            } else if s.len() < p + h.msg_size {
                Err(DecodeError::TruncatedInput)
            } else {
                Ok(
                    (
                        SpecMessage::Data(
                            SpecData {
                                header: h,
                                msg_id: le16_at(s, p),
                                data: s.subrange(p + 2, p + h.msg_size),
                            },
                        ),
                        p + h.msg_size,
                    ),
                )
            }
        },
    }
}

/// Decode an `L` record at `pos`: a level byte, a 64-bit timestamp, and
/// UTF-8 text of the remaining `msg_size - 9` bytes.
pub open spec fn spec_logging(s: Seq<u8>, pos: int) -> Result<(SpecMessage, int), DecodeError> {
    match spec_message_header(s, pos, TAG_LOGGING) {
        Err(e) => Err(e),
        Ok((h, p)) => {
            if s.len() < p + 9 {
                Err(DecodeError::TruncatedInput)
            } else if h.msg_size < 9 {
                Err(DecodeError::InvalidLength)
            } else if s.len() < p + h.msg_size {
                Err(DecodeError::TruncatedInput)
            } else if !valid_utf8(s.subrange(p + 9, p + h.msg_size)) {
                Err(DecodeError::InvalidText)
            } else {
                Ok(
                    (
                        SpecMessage::Logging(
                            SpecLogging {
                                header: h,
                                log_level: s[p],
                                timestamp: le64_at(s, p + 1),
                                message: decode_utf8(s.subrange(p + 9, p + h.msg_size)),
                            },
                        ),
                        p + h.msg_size,
                    ),
                )
            }
        },
    }
}

/// Decode a `C` record at `pos`: a level byte, a 16-bit tag id, a 64-bit
/// timestamp, and UTF-8 text of the remaining `msg_size - 11` bytes.
pub open spec fn spec_logging_tagged(s: Seq<u8>, pos: int) -> Result<
    (SpecMessage, int),
    DecodeError,
> {
    match spec_message_header(s, pos, TAG_LOGGING_TAGGED) {
        Err(e) => Err(e),
        Ok((h, p)) => {
            if s.len() < p + 11 {
                Err(DecodeError::TruncatedInput)
            } else if h.msg_size < 11 {
                Err(DecodeError::InvalidLength)
            } else if s.len() < p + h.msg_size {
                Err(DecodeError::TruncatedInput)
            } else if !valid_utf8(s.subrange(p + 11, p + h.msg_size)) {
                Err(DecodeError::InvalidText)
            } else {
                Ok(
                    (
                        SpecMessage::LoggingTagged(
                            SpecLoggingTagged {
                                header: h,
                                log_level: s[p],
                                tag: le16_at(s, p + 1),
                                timestamp: le64_at(s, p + 3),
                                message: decode_utf8(s.subrange(p + 11, p + h.msg_size)),
                            },
                        ),
                        p + h.msg_size,
                    ),
                )
            }
        },
    }
}

/// Decode an `S` record at `pos`: the one-byte synchronization magic. The
/// declared size plays no part, matching the format's fixed shape.
pub open spec fn spec_sync(s: Seq<u8>, pos: int) -> Result<(SpecMessage, int), DecodeError> {
    match spec_message_header(s, pos, TAG_SYNC) {
        Err(e) => Err(e),
        Ok((h, p)) => {
            if s.len() < p + 1 {
                Err(DecodeError::TruncatedInput)
            } else {
                Ok((SpecMessage::Sync(MessageSync { header: h, sync_magic: s[p] }), p + 1))
            }
        },
    }
}

/// Decode an `O` record at `pos`: the two-byte dropout duration. The
/// declared size plays no part, matching the format's fixed shape.
pub open spec fn spec_dropout(s: Seq<u8>, pos: int) -> Result<(SpecMessage, int), DecodeError> {
    match spec_message_header(s, pos, TAG_DROPOUT) {
        Err(e) => Err(e),
        Ok((h, p)) => {
            if s.len() < p + 2 {
                Err(DecodeError::TruncatedInput)
            } else {
                Ok((SpecMessage::Dropout(MessageDropout { header: h, duration: le16_at(s, p) }), p + 2))
            }
        },
    }
}

/// Decode one record at `pos` by its tag byte. Since every record shape
/// asserts a distinct tag, trying the shapes in order is the same as
/// dispatching on the tag; a tag outside the twelve is `UnexpectedTag`.
pub open spec fn spec_message(s: Seq<u8>, pos: int) -> Result<(SpecMessage, int), DecodeError> {
    if s.len() < pos + 3 {
        Err(DecodeError::TruncatedInput)
    } else {
        let t = s[pos + 2];
        if t == TAG_FORMAT {
            spec_format(s, pos)
        } else if t == TAG_INFO {
            spec_info(s, pos)
        } else if t == TAG_INFO_MULTIPLE {
            spec_info_multiple(s, pos)
        } else if t == TAG_PARAMETER {
            spec_parameter(s, pos)
        } else if t == TAG_PARAMETER_DEFAULT {
            spec_parameter_default(s, pos)
        } else if t == TAG_ADD_LOGGED {
            spec_add_logged(s, pos)
        } else if t == TAG_REMOVE_LOGGED {
            spec_remove_logged(s, pos)
        } else if t == TAG_DATA {
            spec_data(s, pos)
        } else if t == TAG_LOGGING {
            spec_logging(s, pos)
        } else if t == TAG_LOGGING_TAGGED {
            spec_logging_tagged(s, pos)
        } else if t == TAG_SYNC {
            spec_sync(s, pos)
        } else if t == TAG_DROPOUT {
            spec_dropout(s, pos)
        } else {
            Err(DecodeError::UnexpectedTag)
        }
    }
}

/// A successfully decoded record starts with its three-byte header and ends
/// inside the buffer.
pub proof fn lemma_message_bounds(s: Seq<u8>, pos: int)
    ensures
        spec_message(s, pos) matches Ok((m, end)) ==> pos + 3 <= end <= s.len(),
{
}

/// Decode records one after the other from `pos` until the buffer is
/// exactly exhausted; any failure fails the whole sequence.
pub open spec fn spec_messages(s: Seq<u8>, pos: int) -> Result<Seq<SpecMessage>, DecodeError>
    decreases s.len() - pos,
    via spec_messages_decreases
{
    if pos >= s.len() {
        Ok(Seq::empty())
    } else {
        match spec_message(s, pos) {
            Err(e) => Err(e),
            Ok((m, end)) => match spec_messages(s, end) {
                Err(e) => Err(e),
                Ok(rest) => Ok(seq![m] + rest),
            },
        }
    }
}

#[via_fn]
proof fn spec_messages_decreases(s: Seq<u8>, pos: int) {
    if pos < s.len() {
        lemma_message_bounds(s, pos);
    }
}

/// Decode a whole file: header, the mandatory flag-bits record, then
/// records until the end of the buffer.
pub open spec fn spec_ulog(s: Seq<u8>) -> Result<SpecUlog, DecodeError> {
    match spec_header(s, 0) {
        Err(e) => Err(e),
        Ok((h, p1)) => match spec_flag_bits(s, p1) {
            Err(e) => Err(e),
            Ok((fb, p2)) => match spec_messages(s, p2) {
                Err(e) => Err(e),
                Ok(ms) => Ok(SpecUlog { header: h, flag_bits: fb, messages: ms }),
            },
        },
    }
}

/// An executable flag-bits record agrees with its model.
pub open spec fn flag_bits_matches(m: MessageFlagBits, sm: SpecFlagBits) -> bool {
    &&& m.header == sm.header
    &&& m.compat_flags@ == sm.compat_flags
    &&& m.incompat_flags@ == sm.incompat_flags
    &&& m.appended_offsets@ == sm.appended_offsets
}

/// An executable record agrees with its model: same variant, fixed fields
/// equal, opaque fields byte for byte, text fields as the decoded UTF-8.
pub open spec fn message_matches(m: Message, sm: SpecMessage) -> bool {
    match (m, sm) {
        (Message::Format(a), SpecMessage::Format(b)) => {
            &&& a.header == b.header
            &&& a.format@ == b.format
        },
        (Message::Info(a), SpecMessage::Info(b)) => {
            &&& a.header == b.header
            &&& a.key_len == b.key_len
            &&& a.key@ == b.key
            &&& a.value@ == b.value
        },
        (Message::InfoMultiple(a), SpecMessage::InfoMultiple(b)) => {
            &&& a.header == b.header
            &&& a.is_continued == b.is_continued
            &&& a.key_len == b.key_len
            &&& a.key@ == b.key
            &&& a.value@ == b.value
        },
        (Message::Parameter(a), SpecMessage::Parameter(b)) => {
            &&& a.header == b.header
            &&& a.key_len == b.key_len
            &&& a.key@ == b.key
            &&& a.value@ == b.value
        },
        (Message::ParameterDefault(a), SpecMessage::ParameterDefault(b)) => {
            &&& a.header == b.header
            &&& a.default_types == b.default_types
            &&& a.key_len == b.key_len
            &&& a.key@ == b.key
            &&& a.value@ == b.value
        },
        (Message::AddLogged(a), SpecMessage::AddLogged(b)) => {
            &&& a.header == b.header
            &&& a.multi_id == b.multi_id
            &&& a.msg_id == b.msg_id
            &&& a.message_name@ == b.message_name
        },
        (Message::RemoveLogged(a), SpecMessage::RemoveLogged(b)) => a == b,
        (Message::Data(a), SpecMessage::Data(b)) => {
            &&& a.header == b.header
            &&& a.msg_id == b.msg_id
            &&& a.data@ == b.data
        },
        (Message::Logging(a), SpecMessage::Logging(b)) => {
            &&& a.header == b.header
            &&& a.log_level == b.log_level
            &&& a.timestamp == b.timestamp
            &&& a.message@ == b.message
        },
        (Message::LoggingTagged(a), SpecMessage::LoggingTagged(b)) => {
            &&& a.header == b.header
            &&& a.log_level == b.log_level
            &&& a.tag == b.tag
            &&& a.timestamp == b.timestamp
            &&& a.message@ == b.message
        },
        (Message::Sync(a), SpecMessage::Sync(b)) => a == b,
        (Message::Dropout(a), SpecMessage::Dropout(b)) => a == b,
        _ => false,
    }
}

/// An executable decoded file agrees with its model, record by record and
/// in the same order.
pub open spec fn ulog_matches(u: Ulog, su: SpecUlog) -> bool {
    &&& u.header == su.header
    &&& flag_bits_matches(u.message_flag_bits, su.flag_bits)
    &&& u.messages@.len() == su.messages.len()
    &&& forall|i: int|
        0 <= i < su.messages.len() ==> message_matches(#[trigger] u.messages@[i], su.messages[i])
}

/// An executable header result agrees with the model's.
pub open spec fn header_result_matches(
    r: Result<(Header, usize), DecodeError>,
    sr: Result<(Header, int), DecodeError>,
) -> bool {
    match (r, sr) {
        (Ok((h, end)), Ok((sh, send))) => h == sh && end as int == send,
        (Err(e), Err(se)) => e == se,
        _ => false,
    }
}

/// An executable record-header result agrees with the model's.
pub open spec fn message_header_result_matches(
    r: Result<(MessageHeader, usize), DecodeError>,
    sr: Result<(MessageHeader, int), DecodeError>,
) -> bool {
    match (r, sr) {
        (Ok((h, end)), Ok((sh, send))) => h == sh && end as int == send,
        (Err(e), Err(se)) => e == se,
        _ => false,
    }
}

/// An executable flag-bits result agrees with the model's.
pub open spec fn flag_bits_result_matches(
    r: Result<(MessageFlagBits, usize), DecodeError>,
    sr: Result<(SpecFlagBits, int), DecodeError>,
) -> bool {
    match (r, sr) {
        (Ok((m, end)), Ok((sm, send))) => flag_bits_matches(m, sm) && end as int == send,
        (Err(e), Err(se)) => e == se,
        _ => false,
    }
}

/// An executable record result agrees with the model's.
pub open spec fn message_result_matches(
    r: Result<(Message, usize), DecodeError>,
    sr: Result<(SpecMessage, int), DecodeError>,
) -> bool {
    match (r, sr) {
        (Ok((m, end)), Ok((sm, send))) => message_matches(m, sm) && end as int == send,
        (Err(e), Err(se)) => e == se,
        _ => false,
    }
}

} // verus!
