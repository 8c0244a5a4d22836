//! The executable decoder, verified against the model in [`crate::model`].
//!
//! Every function takes the whole buffer and a cursor position, and returns
//! the decoded value with the position just past it, or the exact
//! [`DecodeError`] that the model assigns to the input.

use vstd::prelude::*;

verus! {

use vstd::bytes::u16_from_le_bytes;
use vstd::bytes::u64_from_le_bytes;
use vstd::slice::slice_subrange;
use vstd::slice::slice_to_vec;
use vstd::utf8::decode_utf8;
use vstd::utf8::valid_utf8;

use crate::model::flag_bits_result_matches;
use crate::model::header_result_matches;
use crate::model::lemma_message_bounds;
use crate::model::message_matches;
use crate::model::message_header_result_matches;
use crate::model::message_result_matches;
use crate::model::spec_add_logged;
use crate::model::spec_data;
use crate::model::spec_dropout;
use crate::model::spec_flag_bits;
use crate::model::spec_format;
use crate::model::spec_header;
use crate::model::spec_info;
use crate::model::spec_info_multiple;
use crate::model::spec_logging;
use crate::model::spec_logging_tagged;
use crate::model::spec_magic;
use crate::model::spec_message;
use crate::model::spec_message_header;
use crate::model::spec_messages;
use crate::model::spec_parameter;
use crate::model::spec_parameter_default;
use crate::model::spec_remove_logged;
use crate::model::spec_sync;
use crate::model::spec_ulog;
use crate::model::ulog_matches;
use crate::model::SpecMessage;
use crate::records::DecodeError;
use crate::records::Header;
use crate::records::Message;
use crate::records::MessageAddLogged;
use crate::records::MessageData;
use crate::records::MessageDropout;
use crate::records::MessageFlagBits;
use crate::records::MessageFormat;
use crate::records::MessageHeader;
use crate::records::MessageInfo;
use crate::records::MessageInfoMultiple;
use crate::records::MessageLogging;
use crate::records::MessageLoggingTagged;
use crate::records::MessageParameter;
use crate::records::MessageParameterDefault;
use crate::records::MessageRemoveLogged;
use crate::records::MessageSync;
use crate::records::Ulog;
use crate::records::TAG_ADD_LOGGED;
use crate::records::TAG_DATA;
use crate::records::TAG_DROPOUT;
use crate::records::TAG_FLAG_BITS;
use crate::records::TAG_FORMAT;
use crate::records::TAG_INFO;
use crate::records::TAG_INFO_MULTIPLE;
use crate::records::TAG_LOGGING;
use crate::records::TAG_LOGGING_TAGGED;
use crate::records::TAG_PARAMETER;
use crate::records::TAG_PARAMETER_DEFAULT;
use crate::records::TAG_REMOVE_LOGGED;
use crate::records::TAG_SYNC;

/// Relies on `String::from_utf8` from std: it succeeds exactly on input
/// that is valid UTF-8, and then returns the characters those bytes encode,
/// as `vstd::utf8` defines them.
#[verifier::external_body]
fn utf8_to_string(bytes: Vec<u8>) -> (r: Option<String>)
    ensures
        r is Some <==> valid_utf8(bytes@),
        r matches Some(text) ==> text@ == decode_utf8(bytes@),
{
    String::from_utf8(bytes).ok()
}

/// Decode the 16-byte file header at `pos`: match the seven magic bytes,
/// then read the version byte and the little-endian timestamp.
pub fn header(input: &[u8], pos: usize) -> (r: Result<(Header, usize), DecodeError>)
    ensures
        header_result_matches(r, spec_header(input@, pos as int)),
{
    if input.len() < 7 || pos > input.len() - 7 {
        return Err(DecodeError::TruncatedInput);
    }
    let magic_ok = input[pos] == 0x55 && input[pos + 1] == 0x4c && input[pos + 2] == 0x6f
        && input[pos + 3] == 0x67 && input[pos + 4] == 0x01 && input[pos + 5] == 0x12
        && input[pos + 6] == 0x35;
    proof {
        let sub = input@.subrange(pos as int, pos as int + 7);
        assert(sub[0] == input@[pos as int]);
        assert(sub[1] == input@[pos as int + 1]);
        assert(sub[2] == input@[pos as int + 2]);
        assert(sub[3] == input@[pos as int + 3]);
        assert(sub[4] == input@[pos as int + 4]);
        assert(sub[5] == input@[pos as int + 5]);
        assert(sub[6] == input@[pos as int + 6]);
        if magic_ok {
            assert(sub =~= spec_magic());
        } else {
            assert(sub != spec_magic());
        }
    }
    if !magic_ok {
        return Err(DecodeError::MalformedMagic);
    }
    if input.len() - pos < 16 {
        return Err(DecodeError::TruncatedInput);
    }
    let version = input[pos + 7];
    let timestamp = u64_from_le_bytes(slice_subrange(input, pos + 8, pos + 16));
    Ok((Header { version, timestamp }, pos + 16))
}

/// Decode the three-byte record header at `pos`: a little-endian size,
/// then one required byte equal to the caller's expected tag.
pub fn message_header(input: &[u8], pos: usize, msg_type: u8) -> (r: Result<
    (MessageHeader, usize),
    DecodeError,
>)
    ensures
        message_header_result_matches(r, spec_message_header(input@, pos as int, msg_type)),
{
    if input.len() < 3 || pos > input.len() - 3 {
        return Err(DecodeError::TruncatedInput);
    }
    if input[pos + 2] != msg_type {
        return Err(DecodeError::UnexpectedTag);
    }
    let msg_size = u16_from_le_bytes(slice_subrange(input, pos, pos + 2));
    Ok((MessageHeader { msg_size, msg_type }, pos + 3))
}

/// Decode the mandatory flag-bits record at `pos`: a `B`-tagged record
/// whose body carves two 8-byte bitmasks and three offset bytes.
pub fn message_flag_bits(input: &[u8], pos: usize) -> (r: Result<
    (MessageFlagBits, usize),
    DecodeError,
>)
    ensures
        flag_bits_result_matches(r, spec_flag_bits(input@, pos as int)),
{
    let (header, p) = match message_header(input, pos, TAG_FLAG_BITS) {
        Ok(x) => x,
        Err(e) => return Err(e),
    };
    let size = header.msg_size as usize;
    if input.len() - p < size {
        return Err(DecodeError::TruncatedInput);
    }
    if size < 19 {
        return Err(DecodeError::TruncatedInput);
    }
    let mut compat_flags: [u8; 8] = [0u8; 8];
    let mut incompat_flags: [u8; 8] = [0u8; 8];
    let mut appended_offsets: [u8; 3] = [0u8; 3];
    compat_flags[0] = input[p];
    compat_flags[1] = input[p + 1];
    compat_flags[2] = input[p + 2];
    compat_flags[3] = input[p + 3];
    compat_flags[4] = input[p + 4];
    compat_flags[5] = input[p + 5];
    compat_flags[6] = input[p + 6];
    compat_flags[7] = input[p + 7];
    incompat_flags[0] = input[p + 8];
    incompat_flags[1] = input[p + 9];
    incompat_flags[2] = input[p + 10];
    incompat_flags[3] = input[p + 11];
    incompat_flags[4] = input[p + 12];
    incompat_flags[5] = input[p + 13];
    incompat_flags[6] = input[p + 14];
    incompat_flags[7] = input[p + 15];
    appended_offsets[0] = input[p + 16];
    appended_offsets[1] = input[p + 17];
    appended_offsets[2] = input[p + 18];
    proof {
        assert(compat_flags@ =~= input@.subrange(p as int, p as int + 8));
        assert(incompat_flags@ =~= input@.subrange(p as int + 8, p as int + 16));
        assert(appended_offsets@ =~= input@.subrange(p as int + 16, p as int + 19));
    }
    Ok((MessageFlagBits { header, compat_flags, incompat_flags, appended_offsets }, p + size))
}

/// Decode an `F` record at `pos`: the entire declared body is the UTF-8
/// type-definition text.
pub fn message_format(input: &[u8], pos: usize) -> (r: Result<(Message, usize), DecodeError>)
    ensures
        message_result_matches(r, spec_format(input@, pos as int)),
{
    let (header, p) = match message_header(input, pos, TAG_FORMAT) {
        Ok(x) => x,
        Err(e) => return Err(e),
    };
    let size = header.msg_size as usize;
    if input.len() - p < size {
        return Err(DecodeError::TruncatedInput);
    }
    let body = slice_to_vec(slice_subrange(input, p, p + size));
    let format = match utf8_to_string(body) {
        Some(text) => text,
        None => return Err(DecodeError::InvalidText),
    };
    Ok((Message::Format(MessageFormat { header, format }), p + size))
}

/// Decode an `I` record at `pos`: a one-byte key length, the UTF-8 key,
/// and an opaque value of the remaining `msg_size - 1 - key_len` bytes.
pub fn message_info(input: &[u8], pos: usize) -> (r: Result<(Message, usize), DecodeError>)
    ensures
        message_result_matches(r, spec_info(input@, pos as int)),
{
    let (header, p) = match message_header(input, pos, TAG_INFO) {
        Ok(x) => x,
        Err(e) => return Err(e),
    };
    if input.len() - p < 1 {
        return Err(DecodeError::TruncatedInput);
    }
    let key_len = input[p];
    let kl = key_len as usize;
    if input.len() - (p + 1) < kl {
        return Err(DecodeError::TruncatedInput);
    }
    if (header.msg_size as usize) < 1 + kl {
        return Err(DecodeError::InvalidLength);
    }
    let size = header.msg_size as usize;
    if input.len() - p < size {
        return Err(DecodeError::TruncatedInput);
    }
    let key_bytes = slice_to_vec(slice_subrange(input, p + 1, p + 1 + kl));
    let key = match utf8_to_string(key_bytes) {
        Some(text) => text,
        None => return Err(DecodeError::InvalidText),
    };
    let value = slice_to_vec(slice_subrange(input, p + 1 + kl, p + size));
    Ok((Message::Info(MessageInfo { header, key_len, key, value }), p + size))
}

/// Decode an `M` record at `pos`: a continuation flag, a key length, the
/// UTF-8 key, and an opaque value of `msg_size - 2 - key_len` bytes.
pub fn message_info_multiple(input: &[u8], pos: usize) -> (r: Result<
    (Message, usize),
    DecodeError,
>)
    ensures
        message_result_matches(r, spec_info_multiple(input@, pos as int)),
{
    let (header, p) = match message_header(input, pos, TAG_INFO_MULTIPLE) {
        Ok(x) => x,
        Err(e) => return Err(e),
    };
    if input.len() - p < 2 {
        return Err(DecodeError::TruncatedInput);
    }
    let is_continued = input[p];
    let key_len = input[p + 1];
    let kl = key_len as usize;
    if input.len() - (p + 2) < kl {
        return Err(DecodeError::TruncatedInput);
    }
    if (header.msg_size as usize) < 2 + kl {
        return Err(DecodeError::InvalidLength);
    }
    let size = header.msg_size as usize;
    if input.len() - p < size {
        return Err(DecodeError::TruncatedInput);
    }
    let key_bytes = slice_to_vec(slice_subrange(input, p + 2, p + 2 + kl));
    let key = match utf8_to_string(key_bytes) {
        Some(text) => text,
        None => return Err(DecodeError::InvalidText),
    };
    let value = slice_to_vec(slice_subrange(input, p + 2 + kl, p + size));
    Ok(
        (
            Message::InfoMultiple(MessageInfoMultiple { header, is_continued, key_len, key, value }),
            p + size,
        ),
    )
}

/// Decode a `P` record at `pos`: shaped exactly like an `I` record.
pub fn message_parameter(input: &[u8], pos: usize) -> (r: Result<(Message, usize), DecodeError>)
    ensures
        message_result_matches(r, spec_parameter(input@, pos as int)),
{
    let (header, p) = match message_header(input, pos, TAG_PARAMETER) {
        Ok(x) => x,
        Err(e) => return Err(e),
    };
    if input.len() - p < 1 {
        return Err(DecodeError::TruncatedInput);
    }
    let key_len = input[p];
    let kl = key_len as usize;
    if input.len() - (p + 1) < kl {
        return Err(DecodeError::TruncatedInput);
    }
    if (header.msg_size as usize) < 1 + kl {
        return Err(DecodeError::InvalidLength);
    }
    let size = header.msg_size as usize;
    if input.len() - p < size {
        return Err(DecodeError::TruncatedInput);
    }
    let key_bytes = slice_to_vec(slice_subrange(input, p + 1, p + 1 + kl));
    let key = match utf8_to_string(key_bytes) {
        Some(text) => text,
        None => return Err(DecodeError::InvalidText),
    };
    let value = slice_to_vec(slice_subrange(input, p + 1 + kl, p + size));
    Ok((Message::Parameter(MessageParameter { header, key_len, key, value }), p + size))
}

/// Decode a `Q` record at `pos`: a default-type bitmask, a key length, the
/// UTF-8 key, and an opaque value of `msg_size - 2 - key_len` bytes.
pub fn message_parameter_default(input: &[u8], pos: usize) -> (r: Result<
    (Message, usize),
    DecodeError,
>)
    ensures
        message_result_matches(r, spec_parameter_default(input@, pos as int)),
{
    let (header, p) = match message_header(input, pos, TAG_PARAMETER_DEFAULT) {
        Ok(x) => x,
        Err(e) => return Err(e),
    };
    if input.len() - p < 2 {
        return Err(DecodeError::TruncatedInput);
    }
    let default_types = input[p];
    let key_len = input[p + 1];
    let kl = key_len as usize;
    if input.len() - (p + 2) < kl {
        return Err(DecodeError::TruncatedInput);
    }
    if (header.msg_size as usize) < 2 + kl {
        return Err(DecodeError::InvalidLength);
    }
    let size = header.msg_size as usize;
    if input.len() - p < size {
        return Err(DecodeError::TruncatedInput);
    }
    let key_bytes = slice_to_vec(slice_subrange(input, p + 2, p + 2 + kl));
    let key = match utf8_to_string(key_bytes) {
        Some(text) => text,
        None => return Err(DecodeError::InvalidText),
    };
    let value = slice_to_vec(slice_subrange(input, p + 2 + kl, p + size));
    Ok(
        (
            Message::ParameterDefault(
                MessageParameterDefault { header, default_types, key_len, key, value },
            ),
            p + size,
        ),
    )
}

/// Decode an `A` record at `pos`: a multi-instance id, a message id, and a
/// UTF-8 format name of the remaining `msg_size - 3` bytes.
pub fn message_add_logged(input: &[u8], pos: usize) -> (r: Result<(Message, usize), DecodeError>)
    ensures
        message_result_matches(r, spec_add_logged(input@, pos as int)),
{
    let (header, p) = match message_header(input, pos, TAG_ADD_LOGGED) {
        Ok(x) => x,
        Err(e) => return Err(e),
    };
    if input.len() - p < 3 {
        return Err(DecodeError::TruncatedInput);
    }
    let multi_id = input[p];
    let msg_id = u16_from_le_bytes(slice_subrange(input, p + 1, p + 3));
    if (header.msg_size as usize) < 3 {
        return Err(DecodeError::InvalidLength);
    }
    let size = header.msg_size as usize;
    if input.len() - p < size {
        return Err(DecodeError::TruncatedInput);
    }
    let name_bytes = slice_to_vec(slice_subrange(input, p + 3, p + size));
    let message_name = match utf8_to_string(name_bytes) {
        Some(text) => text,
        None => return Err(DecodeError::InvalidText),
    };
    Ok((Message::AddLogged(MessageAddLogged { header, multi_id, msg_id, message_name }), p + size))
}

/// Decode an `R` record at `pos`: just the two-byte message id.
pub fn message_remove_logged(input: &[u8], pos: usize) -> (r: Result<
    (Message, usize),
    DecodeError,
>)
    ensures
        message_result_matches(r, spec_remove_logged(input@, pos as int)),
{
    let (header, p) = match message_header(input, pos, TAG_REMOVE_LOGGED) {
        Ok(x) => x,
        Err(e) => return Err(e),
    };
    if input.len() - p < 2 {
        return Err(DecodeError::TruncatedInput);
    }
    let msg_id = u16_from_le_bytes(slice_subrange(input, p, p + 2));
    Ok((Message::RemoveLogged(MessageRemoveLogged { header, msg_id }), p + 2))
}

/// Decode a `D` record at `pos`: a two-byte message id and an opaque
/// payload of the remaining `msg_size - 2` bytes.
pub fn message_data(input: &[u8], pos: usize) -> (r: Result<(Message, usize), DecodeError>)
    ensures
        message_result_matches(r, spec_data(input@, pos as int)),
{
    let (header, p) = match message_header(input, pos, TAG_DATA) {
        Ok(x) => x,
        Err(e) => return Err(e),
    };
    if input.len() - p < 2 {
        return Err(DecodeError::TruncatedInput);
    }
    let msg_id = u16_from_le_bytes(slice_subrange(input, p, p + 2));
    if (header.msg_size as usize) < 2 {
        return Err(DecodeError::InvalidLength);
    }
    let size = header.msg_size as usize;
    if input.len() - p < size {
        return Err(DecodeError::TruncatedInput);
    }
    let data = slice_to_vec(slice_subrange(input, p + 2, p + size));
    Ok((Message::Data(MessageData { header, msg_id, data }), p + size))
}

/// Decode an `L` record at `pos`: a level byte, a 64-bit timestamp, and
/// UTF-8 text of the remaining `msg_size - 9` bytes.
pub fn message_logging(input: &[u8], pos: usize) -> (r: Result<(Message, usize), DecodeError>)
    ensures
        message_result_matches(r, spec_logging(input@, pos as int)),
{
    let (header, p) = match message_header(input, pos, TAG_LOGGING) {
        Ok(x) => x,
        Err(e) => return Err(e),
    };
    if input.len() - p < 9 {
        return Err(DecodeError::TruncatedInput);
    }
    let log_level = input[p];
    let timestamp = u64_from_le_bytes(slice_subrange(input, p + 1, p + 9));
    if (header.msg_size as usize) < 9 {
        return Err(DecodeError::InvalidLength);
    }
    let size = header.msg_size as usize;
    if input.len() - p < size {
        return Err(DecodeError::TruncatedInput);
    }
    let text_bytes = slice_to_vec(slice_subrange(input, p + 9, p + size));
    let message = match utf8_to_string(text_bytes) {
        Some(text) => text,
        None => return Err(DecodeError::InvalidText),
    };
    Ok((Message::Logging(MessageLogging { header, log_level, timestamp, message }), p + size))
}

/// Decode a `C` record at `pos`: a level byte, a 16-bit tag id, a 64-bit
/// timestamp, and UTF-8 text of the remaining `msg_size - 11` bytes.
pub fn message_logging_tagged(input: &[u8], pos: usize) -> (r: Result<
    (Message, usize),
    DecodeError,
>)
    ensures
        message_result_matches(r, spec_logging_tagged(input@, pos as int)),
{
    let (header, p) = match message_header(input, pos, TAG_LOGGING_TAGGED) {
        Ok(x) => x,
        Err(e) => return Err(e),
    };
    if input.len() - p < 11 {
        return Err(DecodeError::TruncatedInput);
    }
    let log_level = input[p];
    let tag = u16_from_le_bytes(slice_subrange(input, p + 1, p + 3));
    let timestamp = u64_from_le_bytes(slice_subrange(input, p + 3, p + 11));
    if (header.msg_size as usize) < 11 {
        return Err(DecodeError::InvalidLength);
    }
    let size = header.msg_size as usize;
    if input.len() - p < size {
        return Err(DecodeError::TruncatedInput);
    }
    let text_bytes = slice_to_vec(slice_subrange(input, p + 11, p + size));
    let message = match utf8_to_string(text_bytes) {
        Some(text) => text,
        None => return Err(DecodeError::InvalidText),
    };
    Ok(
        (
            Message::LoggingTagged(
                MessageLoggingTagged { header, log_level, tag, timestamp, message },
            ),
            p + size,
        ),
    )
}

/// Decode an `S` record at `pos`: the one-byte synchronization magic.
pub fn message_sync(input: &[u8], pos: usize) -> (r: Result<(Message, usize), DecodeError>)
    ensures
        message_result_matches(r, spec_sync(input@, pos as int)),
{
    let (header, p) = match message_header(input, pos, TAG_SYNC) {
        Ok(x) => x,
        Err(e) => return Err(e),
    };
    if input.len() - p < 1 {
        return Err(DecodeError::TruncatedInput);
    }
    let sync_magic = input[p];
    Ok((Message::Sync(MessageSync { header, sync_magic }), p + 1))
}

/// Decode an `O` record at `pos`: the two-byte dropout duration.
pub fn message_dropout(input: &[u8], pos: usize) -> (r: Result<(Message, usize), DecodeError>)
    ensures
        message_result_matches(r, spec_dropout(input@, pos as int)),
{
    let (header, p) = match message_header(input, pos, TAG_DROPOUT) {
        Ok(x) => x,
        Err(e) => return Err(e),
    };
    if input.len() - p < 2 {
        return Err(DecodeError::TruncatedInput);
    }
    let duration = u16_from_le_bytes(slice_subrange(input, p, p + 2));
    Ok((Message::Dropout(MessageDropout { header, duration }), p + 2))
}

/// Decode one record at `pos` by dispatching on its tag byte; every record
/// shape asserts its own distinct tag, so at most one can succeed.
pub fn message(input: &[u8], pos: usize) -> (r: Result<(Message, usize), DecodeError>)
    ensures
        message_result_matches(r, spec_message(input@, pos as int)),
{
    if input.len() < 3 || pos > input.len() - 3 {
        return Err(DecodeError::TruncatedInput);
    }
    let t = input[pos + 2];
    if t == TAG_FORMAT {
        message_format(input, pos)
    } else if t == TAG_INFO {
        message_info(input, pos)
    } else if t == TAG_INFO_MULTIPLE {
        message_info_multiple(input, pos)
    } else if t == TAG_PARAMETER {
        message_parameter(input, pos)
    } else if t == TAG_PARAMETER_DEFAULT {
        message_parameter_default(input, pos)
    } else if t == TAG_ADD_LOGGED {
        message_add_logged(input, pos)
    } else if t == TAG_REMOVE_LOGGED {
        message_remove_logged(input, pos)
    } else if t == TAG_DATA {
        message_data(input, pos)
    } else if t == TAG_LOGGING {
        message_logging(input, pos)
    } else if t == TAG_LOGGING_TAGGED {
        message_logging_tagged(input, pos)
    } else if t == TAG_SYNC {
        message_sync(input, pos)
    } else if t == TAG_DROPOUT {
        message_dropout(input, pos)
    } else {
        Err(DecodeError::UnexpectedTag)
    }
}

/// Decode a whole file: the header at offset 0, the mandatory flag-bits
/// record right after it, then records until the buffer is exactly
/// exhausted. Any failure anywhere fails the whole decode.
pub fn ulog(input: &[u8]) -> (r: Result<Ulog, DecodeError>)
    ensures
        match spec_ulog(input@) {
            Ok(su) => r matches Ok(u) && ulog_matches(u, su),
            Err(e) => r == Err::<Ulog, DecodeError>(e),
        },
{
    let (file_header, p1) = match header(input, 0) {
        Ok(x) => x,
        Err(e) => return Err(e),
    };
    let (flag_bits, p2) = match message_flag_bits(input, p1) {
        Ok(x) => x,
        Err(e) => return Err(e),
    };
    let mut messages: Vec<Message> = Vec::new();
    let ghost mut model: Seq<SpecMessage> = Seq::empty();
    let mut pos: usize = p2;
    proof {
        match spec_messages(input@, p2 as int) {
            Ok(rest) => {
                assert(model + rest =~= rest);
            },
            Err(_) => {},
        }
    }
    while pos < input.len()
        invariant
            pos <= input.len(),
            header_result_matches(Ok((file_header, p1)), spec_header(input@, 0)),
            flag_bits_result_matches(Ok((flag_bits, p2)), spec_flag_bits(input@, p1 as int)),
            model.len() == messages@.len(),
            forall|i: int|
                0 <= i < model.len() ==> message_matches(#[trigger] messages@[i], model[i]),
            (match spec_messages(input@, pos as int) {
                Ok(rest) => spec_messages(input@, p2 as int) == Ok::<Seq<SpecMessage>, DecodeError>(
                    model + rest,
                ),
                Err(e) => spec_messages(input@, p2 as int) == Err::<Seq<SpecMessage>, DecodeError>(
                    e,
                ),
            }),
        decreases input@.len() - pos,
    {
        match message(input, pos) {
            Err(e) => {
                return Err(e);
            },
            Ok((m, end)) => {
                proof {
                    lemma_message_bounds(input@, pos as int);
                    let (sm, send) = spec_message(input@, pos as int)->Ok_0;
                    match spec_messages(input@, send) {
                        Ok(rest) => {
                            assert(model + (seq![sm] + rest) =~= (model + seq![sm]) + rest);
                        },
                        Err(_) => {},
                    }
                }
                messages.push(m);
                proof {
                    model = model + seq![spec_message(input@, pos as int)->Ok_0.0];
                }
                pos = end;
            },
        }
    }
    proof {
        assert(model + Seq::<SpecMessage>::empty() =~= model);
    }
    Ok(Ulog { header: file_header, message_flag_bits: flag_bits, messages })
}

/// Decode a whole file, reporting only success or failure: `Some` exactly
/// when the buffer is a well-formed log.
pub fn parse_ulog(input: &[u8]) -> (r: Option<Ulog>)
    ensures
        match spec_ulog(input@) {
            Ok(su) => r matches Some(u) && ulog_matches(u, su),
            Err(_) => r is None,
        },
{
    match ulog(input) {
        Ok(u) => Some(u),
        Err(_) => None,
    }
}

} // verus!
