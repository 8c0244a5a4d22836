//! Decoder for a binary flight-log container format.
//!
//! A log file is a fixed magic/version/timestamp header, one mandatory
//! flag-bits record, and then a sequence of size-framed, tag-typed records.
//! The decoder turns a complete in-memory byte buffer into a strongly typed
//! [`Ulog`] value, or reports exactly why the buffer is not a well-formed log.
//!
//! Every decoding function is specified against a mathematical model of the
//! byte layout (see [`model`]), and the laws in [`laws`] state the format's
//! round-trip and rejection properties.

pub mod laws;
pub mod model;

mod decode;
mod records;

pub use decode::{
    header, message, message_add_logged, message_data, message_dropout, message_flag_bits,
    message_format, message_header, message_info, message_info_multiple, message_logging,
    message_logging_tagged, message_parameter, message_parameter_default, message_remove_logged,
    message_sync, parse_ulog, ulog,
};
pub use records::{
    DecodeError, Header, Message, MessageAddLogged, MessageData, MessageDropout, MessageFlagBits,
    MessageFormat, MessageHeader, MessageInfo, MessageInfoMultiple, MessageLogging,
    MessageLoggingTagged, MessageParameter, MessageParameterDefault, MessageRemoveLogged,
    MessageSync, Ulog, TAG_ADD_LOGGED, TAG_DATA, TAG_DROPOUT, TAG_FLAG_BITS, TAG_FORMAT, TAG_INFO,
    TAG_INFO_MULTIPLE, TAG_LOGGING, TAG_LOGGING_TAGGED, TAG_PARAMETER, TAG_PARAMETER_DEFAULT,
    TAG_REMOVE_LOGGED, TAG_SYNC,
};
