//! Format-level laws: round trips of well-formed encodings and guaranteed
//! rejection of malformed ones, stated over the model in [`crate::model`].

use vstd::prelude::*;

verus! {

use vstd::bytes::lemma_auto_spec_u16_to_from_le_bytes;
use vstd::bytes::lemma_auto_spec_u64_to_from_le_bytes;
use vstd::bytes::spec_u16_to_le_bytes;
use vstd::bytes::spec_u64_to_le_bytes;

use crate::model::le16_at;
use crate::model::lemma_message_bounds;
use crate::model::spec_flag_bits;
use crate::model::spec_header;
use crate::model::spec_magic;
use crate::model::spec_message;
use crate::model::spec_messages;
use crate::model::spec_ulog;
use crate::model::SpecData;
use crate::model::SpecFlagBits;
use crate::model::SpecMessage;
use crate::records::MessageHeader;
use crate::records::DecodeError;
use crate::records::Header;
use crate::records::TAG_FLAG_BITS;
use crate::records::TAG_ADD_LOGGED;
use crate::records::TAG_DATA;
use crate::records::TAG_DROPOUT;
use crate::records::TAG_FORMAT;
use crate::records::TAG_INFO;
use crate::records::TAG_INFO_MULTIPLE;
use crate::records::TAG_LOGGING;
use crate::records::TAG_LOGGING_TAGGED;
use crate::records::TAG_PARAMETER;
use crate::records::TAG_PARAMETER_DEFAULT;
use crate::records::TAG_REMOVE_LOGGED;
use crate::records::TAG_SYNC;

/// The 16 header bytes that encode a version and a timestamp.
pub open spec fn spec_encode_header(version: u8, timestamp: u64) -> Seq<u8> {
    spec_magic() + seq![version] + spec_u64_to_le_bytes(timestamp)
}

/// The bytes of a `D` record carrying `msg_id` and `payload`.
pub open spec fn spec_encode_data(msg_id: u16, payload: Seq<u8>) -> Seq<u8>
    recommends
        payload.len() + 2 <= u16::MAX,
{
    spec_u16_to_le_bytes((payload.len() + 2) as u16) + seq![TAG_DATA] + spec_u16_to_le_bytes(msg_id)
        + payload
}

/// The width of the fixed fields a record of the given tag must carry
/// beyond its three-byte record header before its size-driven trailing
/// field starts. Tags whose shape never derives a length from the declared
/// size have width zero.
pub open spec fn spec_fixed_prefix_width(tag: u8) -> int {
    if tag == TAG_INFO || tag == TAG_PARAMETER {
        1
    } else if tag == TAG_INFO_MULTIPLE || tag == TAG_PARAMETER_DEFAULT || tag == TAG_DATA {
        2
    } else if tag == TAG_ADD_LOGGED {
        3
    } else if tag == TAG_LOGGING {
        9
    } else if tag == TAG_LOGGING_TAGGED {
        11
    } else {
        0
    }
}

/// Tags whose body length is driven by the declared size; `R`, `S` and `O`
/// records have a fixed shape and never read the declared size.
pub open spec fn spec_tag_sized(tag: u8) -> bool {
    ||| tag == TAG_FORMAT
    ||| tag == TAG_INFO
    ||| tag == TAG_INFO_MULTIPLE
    ||| tag == TAG_PARAMETER
    ||| tag == TAG_PARAMETER_DEFAULT
    ||| tag == TAG_ADD_LOGGED
    ||| tag == TAG_DATA
    ||| tag == TAG_LOGGING
    ||| tag == TAG_LOGGING_TAGGED
}

/// The tag byte that marks a record of the given shape.
pub open spec fn spec_message_tag(m: SpecMessage) -> u8 {
    match m {
        SpecMessage::Format(_) => TAG_FORMAT,
        SpecMessage::Info(_) => TAG_INFO,
        SpecMessage::InfoMultiple(_) => TAG_INFO_MULTIPLE,
        SpecMessage::Parameter(_) => TAG_PARAMETER,
        SpecMessage::ParameterDefault(_) => TAG_PARAMETER_DEFAULT,
        SpecMessage::AddLogged(_) => TAG_ADD_LOGGED,
        SpecMessage::RemoveLogged(_) => TAG_REMOVE_LOGGED,
        SpecMessage::Data(_) => TAG_DATA,
        SpecMessage::Logging(_) => TAG_LOGGING,
        SpecMessage::LoggingTagged(_) => TAG_LOGGING_TAGGED,
        SpecMessage::Sync(_) => TAG_SYNC,
        SpecMessage::Dropout(_) => TAG_DROPOUT,
    }
}

/// A decoded record's shape is the one its tag byte names.
pub proof fn lemma_message_typed_by_tag(s: Seq<u8>, pos: int)
    ensures
        spec_message(s, pos) matches Ok((m, end)) ==> spec_message_tag(m) == s[pos + 2],
{
}

/// Well-formed header bytes — the magic, a version byte and a little-endian
/// timestamp — decode to exactly that version and timestamp, whatever
/// follows them.
pub proof fn lemma_header_round_trip(version: u8, timestamp: u64, rest: Seq<u8>)
    ensures
        spec_header(spec_encode_header(version, timestamp) + rest, 0) == Ok::<
            (Header, int),
            DecodeError,
        >((Header { version, timestamp }, 16)),
{
    lemma_auto_spec_u64_to_from_le_bytes();
    let s = spec_encode_header(version, timestamp) + rest;
    assert(s.subrange(0, 7) =~= spec_magic());
    assert(s[7] == version);
    assert(s.subrange(8, 16) =~= spec_u64_to_le_bytes(timestamp));
}

/// A buffer whose first seven bytes differ from the magic sequence is
/// rejected as `MalformedMagic`.
pub proof fn lemma_bad_magic_rejected(s: Seq<u8>)
    requires
        s.len() >= 7,
        s.subrange(0, 7) != spec_magic(),
    ensures
        spec_header(s, 0) == Err::<(Header, int), DecodeError>(DecodeError::MalformedMagic),
{
}

/// A `D` record round-trips: encoding a message id with a payload of any
/// length the size field can frame, then decoding, returns exactly that id
/// and payload, consuming the whole encoding.
pub proof fn lemma_data_round_trip(msg_id: u16, payload: Seq<u8>)
    requires
        payload.len() + 2 <= u16::MAX,
    ensures
        spec_message(spec_encode_data(msg_id, payload), 0) == Ok::<
            (SpecMessage, int),
            DecodeError,
        >(
            (
                SpecMessage::Data(
                    SpecData {
                        header: MessageHeader {
                            msg_size: (payload.len() + 2) as u16,
                            msg_type: TAG_DATA,
                        },
                        msg_id,
                        data: payload,
                    },
                ),
                spec_encode_data(msg_id, payload).len() as int,
            ),
        ),
{
    lemma_auto_spec_u16_to_from_le_bytes();
    let s = spec_encode_data(msg_id, payload);
    let size = (payload.len() + 2) as u16;
    assert(s.len() == 5 + payload.len());
    assert(s.subrange(0, 2) =~= spec_u16_to_le_bytes(size));
    assert(s[2] == TAG_DATA);
    assert(s.subrange(3, 5) =~= spec_u16_to_le_bytes(msg_id));
    assert(le16_at(s, 0) == size);
    assert(le16_at(s, 3) == msg_id);
    assert(s.subrange(5, 3 + size as int) =~= payload);
}

/// A record that declares a size smaller than its tag's fixed prefix is
/// rejected — as `InvalidLength` once the prefix fields were present, or as
/// `TruncatedInput` when even those are missing — and the trailing-field
/// length never underflows into a huge read.
pub proof fn lemma_short_declared_size_rejected(s: Seq<u8>, pos: int)
    requires
        0 <= pos,
        pos + 3 <= s.len(),
        le16_at(s, pos) < spec_fixed_prefix_width(s[pos + 2]),
    ensures
        spec_message(s, pos) matches Err(e) && (e == DecodeError::InvalidLength || e
            == DecodeError::TruncatedInput),
{
}

/// A size-driven record whose declared body runs past the end of the
/// buffer is rejected — as `TruncatedInput`, or as `InvalidLength` when the
/// declared size also underruns the fixed prefix — and nothing past the
/// buffer is ever read.
pub proof fn lemma_oversized_body_rejected(s: Seq<u8>, pos: int)
    requires
        0 <= pos,
        pos + 3 <= s.len(),
        spec_tag_sized(s[pos + 2]),
        pos + 3 + le16_at(s, pos) > s.len(),
    ensures
        spec_message(s, pos) matches Err(e) && (e == DecodeError::TruncatedInput || e
            == DecodeError::InvalidLength),
{
}

/// Decoding a record reads only the bytes the record occupies: if the same
/// bytes stand at another position of another buffer, they decode to the
/// same record there.
#[verifier::rlimit(100)]
#[verifier::spinoff_prover]
pub proof fn lemma_message_relocate(s1: Seq<u8>, p1: int, s2: Seq<u8>, p2: int, m: SpecMessage, end: int)
    requires
        0 <= p1,
        0 <= p2,
        spec_message(s1, p1) == Ok::<(SpecMessage, int), DecodeError>((m, end)),
        p2 + (end - p1) <= s2.len(),
        s2.subrange(p2, p2 + (end - p1)) == s1.subrange(p1, end),
    ensures
        spec_message(s2, p2) == Ok::<(SpecMessage, int), DecodeError>((m, p2 + (end - p1))),
{
    lemma_message_bounds(s1, p1);
    let w = end - p1;
    assert forall|i: int| p1 <= i < end implies #[trigger] s1[i] == s2[i - p1 + p2] by {
        assert(s1.subrange(p1, end)[i - p1] == s1[i]);
        assert(s2.subrange(p2, p2 + w)[i - p1] == s2[p2 + (i - p1)]);
    }
    let t = s1[p1 + 2];
    let msg_size = le16_at(s1, p1) as int;
    let q1 = p1 + 3;
    let q2 = p2 + 3;
    assert(s2.subrange(p2, p2 + 2) =~= s1.subrange(p1, p1 + 2));
    assert(s2[p2 + 2] == t);
    if t == TAG_FORMAT {
        assert(s2.subrange(q2, q2 + msg_size) =~= s1.subrange(q1, q1 + msg_size));
    } else if t == TAG_INFO || t == TAG_PARAMETER {
        let key_len = s1[q1] as int;
        assert(s2[q2] == s1[q1]);
        assert(s2.subrange(q2 + 1, q2 + 1 + key_len) =~= s1.subrange(q1 + 1, q1 + 1 + key_len));
        assert(s2.subrange(q2 + 1 + key_len, q2 + msg_size) =~= s1.subrange(
            q1 + 1 + key_len,
            q1 + msg_size,
        ));
    } else if t == TAG_INFO_MULTIPLE || t == TAG_PARAMETER_DEFAULT {
        let key_len = s1[q1 + 1] as int;
        assert(s2[q2] == s1[q1]);
        assert(s2[q2 + 1] == s1[q1 + 1]);
        assert(s2.subrange(q2 + 2, q2 + 2 + key_len) =~= s1.subrange(q1 + 2, q1 + 2 + key_len));
        assert(s2.subrange(q2 + 2 + key_len, q2 + msg_size) =~= s1.subrange(
            q1 + 2 + key_len,
            q1 + msg_size,
        ));
    } else if t == TAG_ADD_LOGGED {
        assert(s2[q2] == s1[q1]);
        assert(s2.subrange(q2 + 1, q2 + 3) =~= s1.subrange(q1 + 1, q1 + 3));
        assert(s2.subrange(q2 + 3, q2 + msg_size) =~= s1.subrange(q1 + 3, q1 + msg_size));
    } else if t == TAG_REMOVE_LOGGED || t == TAG_DROPOUT {
        assert(s2.subrange(q2, q2 + 2) =~= s1.subrange(q1, q1 + 2));
    } else if t == TAG_DATA {
        assert(s2.subrange(q2, q2 + 2) =~= s1.subrange(q1, q1 + 2));
        assert(s2.subrange(q2 + 2, q2 + msg_size) =~= s1.subrange(q1 + 2, q1 + msg_size));
    } else if t == TAG_LOGGING {
        assert(s2[q2] == s1[q1]);
        assert(s2.subrange(q2 + 1, q2 + 9) =~= s1.subrange(q1 + 1, q1 + 9));
        assert(s2.subrange(q2 + 9, q2 + msg_size) =~= s1.subrange(q1 + 9, q1 + msg_size));
    } else if t == TAG_LOGGING_TAGGED {
        assert(s2[q2] == s1[q1]);
        assert(s2.subrange(q2 + 1, q2 + 3) =~= s1.subrange(q1 + 1, q1 + 3));
        assert(s2.subrange(q2 + 3, q2 + 11) =~= s1.subrange(q1 + 3, q1 + 11));
        assert(s2.subrange(q2 + 11, q2 + msg_size) =~= s1.subrange(q1 + 11, q1 + msg_size));
    } else if t == TAG_SYNC {
        assert(s2[q2] == s1[q1]);
    }
}

/// A byte sequence that is exactly one well-formed record: it decodes from
/// its start and the decode consumes every byte of it.
pub open spec fn spec_record_complete(b: Seq<u8>) -> bool {
    spec_message(b, 0) matches Ok((m, end)) && end == b.len()
}

/// The record a complete record encoding decodes to.
pub open spec fn spec_record_value(b: Seq<u8>) -> SpecMessage
    recommends
        spec_record_complete(b),
{
    spec_message(b, 0)->Ok_0.0
}

/// Record-stream round trip: a buffer tail that is the concatenation of N
/// complete record encodings decodes to exactly those N records, in the
/// same order.
pub proof fn lemma_records_decode_in_order(s: Seq<u8>, pos: int, chunks: Seq<Seq<u8>>)
    requires
        0 <= pos <= s.len(),
        forall|i: int| 0 <= i < chunks.len() ==> spec_record_complete(#[trigger] chunks[i]),
        s.subrange(pos, s.len() as int) == chunks.flatten(),
    ensures
        spec_messages(s, pos) matches Ok(ms) && ms.len() == chunks.len() && (forall|i: int|
            0 <= i < chunks.len() ==> ms[i] == spec_record_value(#[trigger] chunks[i])),
    decreases chunks.len(),
{
    if chunks.len() == 0 {
        assert(s.subrange(pos, s.len() as int).len() == 0);
    } else {
        let b0 = chunks[0];
        let rest = chunks.drop_first();
        assert(chunks.flatten() == b0 + rest.flatten());
        let (m0, e0) = spec_message(b0, 0)->Ok_0;
        lemma_message_bounds(b0, 0);
        let w = b0.len() as int;
        assert((b0 + rest.flatten()).len() == w + rest.flatten().len());
        assert forall|j: int| 0 <= j < w implies s.subrange(pos, pos + w)[j] == b0[j] by {
            assert(s.subrange(pos, s.len() as int)[j] == s[pos + j]);
            assert(s.subrange(pos, pos + w)[j] == s[pos + j]);
            assert((b0 + rest.flatten())[j] == b0[j]);
        }
        assert(s.subrange(pos, pos + w) =~= b0);
        assert(b0.subrange(0, w) =~= b0);
        lemma_message_relocate(b0, 0, s, pos, m0, e0);
        assert forall|j: int| 0 <= j < rest.flatten().len() implies s.subrange(
            pos + w,
            s.len() as int,
        )[j] == rest.flatten()[j] by {
            assert(s.subrange(pos, s.len() as int)[w + j] == s[pos + w + j]);
            assert(s.subrange(pos + w, s.len() as int)[j] == s[pos + w + j]);
            assert((b0 + rest.flatten())[w + j] == rest.flatten()[j]);
        }
        assert(s.subrange(pos + w, s.len() as int) =~= rest.flatten());
        assert forall|i: int| 0 <= i < rest.len() implies spec_record_complete(
            #[trigger] rest[i],
        ) by {
            assert(rest[i] == chunks[i + 1]);
        }
        lemma_records_decode_in_order(s, pos + w, rest);
        let ms_rest = spec_messages(s, pos + w)->Ok_0;
        assert(spec_messages(s, pos) == Ok::<Seq<SpecMessage>, DecodeError>(seq![m0] + ms_rest));
        let ms = seq![m0] + ms_rest;
        assert forall|i: int| 0 <= i < chunks.len() implies ms[i] == spec_record_value(
            #[trigger] chunks[i],
        ) by {
            if i == 0 {
                assert(ms[0] == m0);
            } else {
                assert(ms[i] == ms_rest[i - 1]);
                assert(rest[i - 1] == chunks[i]);
            }
        }
    }
}

/// The 22 bytes of a flag-bits record carrying the given bitmasks and
/// appended offsets, with its declared size of 19.
pub open spec fn spec_encode_flag_bits(
    compat: Seq<u8>,
    incompat: Seq<u8>,
    offsets: Seq<u8>,
) -> Seq<u8>
    recommends
        compat.len() == 8,
        incompat.len() == 8,
        offsets.len() == 3,
{
    spec_u16_to_le_bytes(19u16) + seq![TAG_FLAG_BITS] + compat + incompat + offsets
}

/// A well-formed flag-bits record decodes to exactly the bitmasks and
/// offsets it encodes, wherever it stands in a buffer.
#[verifier::rlimit(100)]
#[verifier::spinoff_prover]
pub proof fn lemma_flag_bits_round_trip(
    compat: Seq<u8>,
    incompat: Seq<u8>,
    offsets: Seq<u8>,
    s: Seq<u8>,
    pos: int,
)
    requires
        compat.len() == 8,
        incompat.len() == 8,
        offsets.len() == 3,
        0 <= pos,
        pos + 22 <= s.len(),
        s.subrange(pos, pos + 22) == spec_encode_flag_bits(compat, incompat, offsets),
    ensures
        spec_flag_bits(s, pos) == Ok::<(SpecFlagBits, int), DecodeError>(
            (
                SpecFlagBits {
                    header: MessageHeader { msg_size: 19, msg_type: TAG_FLAG_BITS },
                    compat_flags: compat,
                    incompat_flags: incompat,
                    appended_offsets: offsets,
                },
                pos + 22,
            ),
        ),
{
    lemma_auto_spec_u16_to_from_le_bytes();
    let enc = spec_encode_flag_bits(compat, incompat, offsets);
    assert(enc.len() == 22);
    assert forall|i: int| pos <= i < pos + 22 implies #[trigger] s[i] == enc[i - pos] by {
        assert(s.subrange(pos, pos + 22)[i - pos] == s[i]);
    }
    assert(s.subrange(pos, pos + 2) =~= spec_u16_to_le_bytes(19u16));
    assert(le16_at(s, pos) == 19);
    assert(s[pos + 2] == TAG_FLAG_BITS);
    assert(s.subrange(pos + 3, pos + 11) =~= compat);
    assert(s.subrange(pos + 11, pos + 19) =~= incompat);
    assert(s.subrange(pos + 19, pos + 22) =~= offsets);
}

/// Whole-file round trip: a header, a flag-bits record, and N complete
/// record encodings decode to exactly that header, those flag bits, and
/// those N records in their original order.
pub proof fn lemma_file_decodes_in_order(
    version: u8,
    timestamp: u64,
    compat: Seq<u8>,
    incompat: Seq<u8>,
    offsets: Seq<u8>,
    chunks: Seq<Seq<u8>>,
)
    requires
        compat.len() == 8,
        incompat.len() == 8,
        offsets.len() == 3,
        forall|i: int| 0 <= i < chunks.len() ==> spec_record_complete(#[trigger] chunks[i]),
    ensures
        ({
            let s = spec_encode_header(version, timestamp) + spec_encode_flag_bits(
                compat,
                incompat,
                offsets,
            ) + chunks.flatten();
            spec_ulog(s) matches Ok(su) && su.header == (Header { version, timestamp })
                && su.flag_bits == (SpecFlagBits {
                header: MessageHeader { msg_size: 19, msg_type: TAG_FLAG_BITS },
                compat_flags: compat,
                incompat_flags: incompat,
                appended_offsets: offsets,
            }) && su.messages.len() == chunks.len() && (forall|i: int|
                0 <= i < chunks.len() ==> su.messages[i] == spec_record_value(
                    #[trigger] chunks[i],
                ))
        }),
{
    lemma_auto_spec_u16_to_from_le_bytes();
    lemma_auto_spec_u64_to_from_le_bytes();
    let hdr = spec_encode_header(version, timestamp);
    let flag = spec_encode_flag_bits(compat, incompat, offsets);
    let s = hdr + flag + chunks.flatten();
    assert(hdr.len() == 16);
    assert(flag.len() == 22);
    assert(s =~= hdr + (flag + chunks.flatten()));
    lemma_header_round_trip(version, timestamp, flag + chunks.flatten());
    assert(spec_header(s, 0) == Ok::<(Header, int), DecodeError>(
        (Header { version, timestamp }, 16),
    ));
    assert(s.subrange(16, 38) =~= flag);
    lemma_flag_bits_round_trip(compat, incompat, offsets, s, 16);
    assert(s.subrange(38, s.len() as int) =~= chunks.flatten());
    lemma_records_decode_in_order(s, 38, chunks);
}

} // verus!

