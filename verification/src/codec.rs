//! Wire encodings.
//!
//! Frames go to viewers as a fixed binary framing: camera id and
//! timestamp as little-endian 64-bit words, then the image bytes behind
//! a 32-bit length.  Control messages go to peers as JSON text, in the
//! exact canonical shape the rest of the fleet expects
//! (`{"SettingChanged":{...}}`, `"Restart"`, `{"Added":{"camera_id":N}}`
//! and so on), built here byte by byte; the outer program only turns
//! the bytes into a text message.

use vstd::prelude::*;

use crate::text::dec_bytes;
use crate::text::dec_bytes_signed;
use crate::text::i64_to_dec_bytes;
use crate::text::string_bytes;
use crate::types::CameraListChange;
use crate::types::CameraMessage;
use crate::types::CameraSettingNoMeta;
use crate::types::ImageContainer;
use vstd::string::StrSliceExecFns;
use vstd::string::StringSliceAdditionalSpecFns;
use vstd::utf8::encode_utf8;
use vstd::utf8::is_ascii_chars;

verus! {

/// A 64-bit word as eight little-endian bytes.
pub open spec fn le8(x: u64) -> Seq<u8> {
    seq![
        (x & 0xff) as u8,
        ((x >> 8) & 0xff) as u8,
        ((x >> 16) & 0xff) as u8,
        ((x >> 24) & 0xff) as u8,
        ((x >> 32) & 0xff) as u8,
        ((x >> 40) & 0xff) as u8,
        ((x >> 48) & 0xff) as u8,
        ((x >> 56) & 0xff) as u8,
    ]
}

/// The word eight little-endian bytes stand for.
pub open spec fn le8_val(s: Seq<u8>) -> u64
    recommends
        s.len() == 8,
{
    ((s[0] as u64) | ((s[1] as u64) << 8) | ((s[2] as u64) << 16) | ((s[3] as u64) << 24) | (
    (s[4] as u64) << 32) | ((s[5] as u64) << 40) | ((s[6] as u64) << 48) | ((s[7] as u64) << 56))
        as u64
}

/// A 32-bit word as four little-endian bytes.
pub open spec fn le4(x: u32) -> Seq<u8> {
    seq![(x & 0xff) as u8, ((x >> 8) & 0xff) as u8, ((x >> 16) & 0xff) as u8, ((x >> 24) & 0xff) as u8]
}

/// The word four little-endian bytes stand for.
pub open spec fn le4_val(s: Seq<u8>) -> u32
    recommends
        s.len() == 4,
{
    ((s[0] as u32) | ((s[1] as u32) << 8) | ((s[2] as u32) << 16) | ((s[3] as u32) << 24)) as u32
}

/// Eight little-endian bytes round-trip through their word.
proof fn lemma_le8_bytes_val(s: Seq<u8>)
    requires
        s.len() == 8,
    ensures
        le8(le8_val(s)) == s,
{
    let b0 = s[0];
    let b1 = s[1];
    let b2 = s[2];
    let b3 = s[3];
    let b4 = s[4];
    let b5 = s[5];
    let b6 = s[6];
    let b7 = s[7];
    let x = le8_val(s);
    assert({
        let y = (b0 as u64) | ((b1 as u64) << 8) | ((b2 as u64) << 16) | ((b3 as u64) << 24) | (
        (b4 as u64) << 32) | ((b5 as u64) << 40) | ((b6 as u64) << 48) | ((b7 as u64) << 56);
        (y & 0xff) as u8 == b0 && ((y >> 8) & 0xff) as u8 == b1 && ((y >> 16) & 0xff) as u8 == b2
            && ((y >> 24) & 0xff) as u8 == b3 && ((y >> 32) & 0xff) as u8 == b4 && ((y >> 40)
            & 0xff) as u8 == b5 && ((y >> 48) & 0xff) as u8 == b6 && ((y >> 56) & 0xff) as u8 == b7
    }) by (bit_vector);
    assert(le8(x) =~= s);
}

/// A word round-trips through its eight little-endian bytes.
proof fn lemma_le8_val_bytes(x: u64)
    ensures
        le8_val(le8(x)) == x,
{
    assert({
        let b0 = (x & 0xff) as u8;
        let b1 = ((x >> 8) & 0xff) as u8;
        let b2 = ((x >> 16) & 0xff) as u8;
        let b3 = ((x >> 24) & 0xff) as u8;
        let b4 = ((x >> 32) & 0xff) as u8;
        let b5 = ((x >> 40) & 0xff) as u8;
        let b6 = ((x >> 48) & 0xff) as u8;
        let b7 = ((x >> 56) & 0xff) as u8;
        ((b0 as u64) | ((b1 as u64) << 8) | ((b2 as u64) << 16) | ((b3 as u64) << 24) | ((
        b4 as u64) << 32) | ((b5 as u64) << 40) | ((b6 as u64) << 48) | ((b7 as u64) << 56)) as u64
            == x
    }) by (bit_vector);
}

/// Four little-endian bytes round-trip through their word.
proof fn lemma_le4_bytes_val(s: Seq<u8>)
    requires
        s.len() == 4,
    ensures
        le4(le4_val(s)) == s,
{
    let b0 = s[0];
    let b1 = s[1];
    let b2 = s[2];
    let b3 = s[3];
    assert({
        let y = (b0 as u32) | ((b1 as u32) << 8) | ((b2 as u32) << 16) | ((b3 as u32) << 24);
        (y & 0xff) as u8 == b0 && ((y >> 8) & 0xff) as u8 == b1 && ((y >> 16) & 0xff) as u8 == b2
            && ((y >> 24) & 0xff) as u8 == b3
    }) by (bit_vector);
    assert(le4(le4_val(s)) =~= s);
}

/// A word round-trips through its four little-endian bytes.
proof fn lemma_le4_val_bytes(x: u32)
    ensures
        le4_val(le4(x)) == x,
{
    assert({
        let b0 = (x & 0xff) as u8;
        let b1 = ((x >> 8) & 0xff) as u8;
        let b2 = ((x >> 16) & 0xff) as u8;
        let b3 = ((x >> 24) & 0xff) as u8;
        ((b0 as u32) | ((b1 as u32) << 8) | ((b2 as u32) << 16) | ((b3 as u32) << 24)) as u32 == x
    }) by (bit_vector);
}

/// The binary framing of one frame: camera id, timestamp, then the
/// image bytes behind their length.
pub open spec fn spec_frame_bytes(camera_id: i64, timestamp: i64, img: Seq<u8>) -> Seq<u8> {
    le8(camera_id as u64) + le8(timestamp as u64) + le4(img.len() as u32) + img
}

/// A byte string is the framing of some frame: long enough, both words
/// in the id and timestamp range, and the length prefix accounting for
/// the rest.
pub open spec fn spec_valid_frame_bytes(s: Seq<u8>) -> bool {
    &&& s.len() >= 20
    &&& le8_val(s.subrange(0, 8)) <= i64::MAX
    &&& le8_val(s.subrange(8, 16)) <= i64::MAX
    &&& s.len() == 20 + le4_val(s.subrange(16, 20))
}

/// Encodes one frame for a viewer peer, per `spec_frame_bytes`.
pub fn encode_frame(f: &ImageContainer) -> (r: Vec<u8>)
    requires
        0 <= f.camera_id,
        0 <= f.timestamp,
        f.image_bytes@.len() <= u32::MAX,
    ensures
        r@ == spec_frame_bytes(f.camera_id, f.timestamp, f.image_bytes@),
        spec_valid_frame_bytes(r@),
{
    let mut out: Vec<u8> = Vec::new();
    let cid = f.camera_id as u64;
    let ts = f.timestamp as u64;
    let n = f.image_bytes.len() as u32;
    out.push((cid & 0xff) as u8);
    out.push(((cid >> 8) & 0xff) as u8);
    out.push(((cid >> 16) & 0xff) as u8);
    out.push(((cid >> 24) & 0xff) as u8);
    out.push(((cid >> 32) & 0xff) as u8);
    out.push(((cid >> 40) & 0xff) as u8);
    out.push(((cid >> 48) & 0xff) as u8);
    out.push(((cid >> 56) & 0xff) as u8);
    out.push((ts & 0xff) as u8);
    out.push(((ts >> 8) & 0xff) as u8);
    out.push(((ts >> 16) & 0xff) as u8);
    out.push(((ts >> 24) & 0xff) as u8);
    out.push(((ts >> 32) & 0xff) as u8);
    out.push(((ts >> 40) & 0xff) as u8);
    out.push(((ts >> 48) & 0xff) as u8);
    out.push(((ts >> 56) & 0xff) as u8);
    out.push((n & 0xff) as u8);
    out.push(((n >> 8) & 0xff) as u8);
    out.push(((n >> 16) & 0xff) as u8);
    out.push(((n >> 24) & 0xff) as u8);
    out.extend_from_slice(f.image_bytes.as_slice());
    proof {
        assert(out@ =~= spec_frame_bytes(f.camera_id, f.timestamp, f.image_bytes@));
        let s = out@;
        assert(s.subrange(0, 8) =~= le8(cid));
        assert(s.subrange(8, 16) =~= le8(ts));
        assert(s.subrange(16, 20) =~= le4(n));
        lemma_le8_val_bytes(cid);
        lemma_le8_val_bytes(ts);
        lemma_le4_val_bytes(n);
    }
    out
}

/// Decodes a viewer-frame framing.  Exactly the valid framings decode,
/// and decoding returns the frame the bytes encode.
pub fn decode_frame(bytes: &[u8]) -> (r: Option<ImageContainer>)
    ensures
        r is Some <==> spec_valid_frame_bytes(bytes@),
        r matches Some(f) ==> 0 <= f.camera_id && 0 <= f.timestamp && bytes@ == spec_frame_bytes(
            f.camera_id,
            f.timestamp,
            f.image_bytes@,
        ),
{
    if bytes.len() < 20 {
        return None;
    }
    let cid = read_le8(bytes, 0);
    let ts = read_le8(bytes, 8);
    let n = read_le4(bytes, 16);
    proof {
        assert(bytes@.subrange(0, 8) =~= Seq::new(8, |i: int| bytes@[0 + i]));
        assert(bytes@.subrange(8, 16) =~= Seq::new(8, |i: int| bytes@[8 + i]));
        assert(bytes@.subrange(16, 20) =~= Seq::new(4, |i: int| bytes@[16 + i]));
    }
    if cid > 0x7fff_ffff_ffff_ffff {
        return None;
    }
    if ts > 0x7fff_ffff_ffff_ffff {
        return None;
    }
    if bytes.len() - 20 != n as usize || (bytes.len() - 20) as u64 != n as u64 {
        return None;
    }
    let mut img: Vec<u8> = Vec::new();
    let total = bytes.len();
    let mut i: usize = 20;
    while i < total
        invariant
            20 <= i <= total == bytes@.len(),
            img@ == bytes@.subrange(20, i as int),
        decreases total - i,
    {
        img.push(bytes[i]);
        proof {
            assert(img@ =~= bytes@.subrange(20, i + 1));
        }
        i = i + 1;
    }
    let f = ImageContainer { camera_id: cid as i64, timestamp: ts as i64, image_bytes: img };
    proof {
        lemma_le8_bytes_val(bytes@.subrange(0, 8));
        lemma_le8_bytes_val(bytes@.subrange(8, 16));
        lemma_le4_bytes_val(bytes@.subrange(16, 20));
        assert(bytes@ =~= bytes@.subrange(0, 8) + bytes@.subrange(8, 16) + bytes@.subrange(16, 20)
            + bytes@.subrange(20, total as int));
    }
    Some(f)
}

/// Reads a little-endian 64-bit word.
fn read_le8(bytes: &[u8], at: usize) -> (r: u64)
    requires
        at + 8 <= bytes@.len(),
    ensures
        r == le8_val(Seq::new(8, |i: int| bytes@[at + i])),
{
    let b0 = bytes[at] as u64;
    let b1 = bytes[at + 1] as u64;
    let b2 = bytes[at + 2] as u64;
    let b3 = bytes[at + 3] as u64;
    let b4 = bytes[at + 4] as u64;
    let b5 = bytes[at + 5] as u64;
    let b6 = bytes[at + 6] as u64;
    let b7 = bytes[at + 7] as u64;
    (b0 | (b1 << 8) | (b2 << 16) | (b3 << 24) | (b4 << 32) | (b5 << 40) | (b6 << 48) | (b7 << 56))
        as u64
}

/// Reads a little-endian 32-bit word.
fn read_le4(bytes: &[u8], at: usize) -> (r: u32)
    requires
        at + 4 <= bytes@.len(),
    ensures
        r == le4_val(Seq::new(4, |i: int| bytes@[at + i])),
{
    let b0 = bytes[at] as u32;
    let b1 = bytes[at + 1] as u32;
    let b2 = bytes[at + 2] as u32;
    let b3 = bytes[at + 3] as u32;
    (b0 | (b1 << 8) | (b2 << 16) | (b3 << 24)) as u32
}

/// A frame round-trips through its framing: the framing is valid, and
/// its fields decode back out.
pub proof fn lemma_frame_codec_round_trip(camera_id: i64, timestamp: i64, img: Seq<u8>)
    requires
        0 <= camera_id,
        0 <= timestamp,
        img.len() <= u32::MAX,
    ensures
        spec_valid_frame_bytes(spec_frame_bytes(camera_id, timestamp, img)),
        le8_val(spec_frame_bytes(camera_id, timestamp, img).subrange(0, 8)) == camera_id as u64,
        le8_val(spec_frame_bytes(camera_id, timestamp, img).subrange(8, 16)) == timestamp as u64,
        spec_frame_bytes(camera_id, timestamp, img).subrange(
            20,
            spec_frame_bytes(camera_id, timestamp, img).len() as int,
        ) == img,
{
    let s = spec_frame_bytes(camera_id, timestamp, img);
    assert(s.subrange(0, 8) =~= le8(camera_id as u64));
    assert(s.subrange(8, 16) =~= le8(timestamp as u64));
    assert(s.subrange(16, 20) =~= le4(img.len() as u32));
    assert(s.subrange(20, s.len() as int) =~= img);
    lemma_le8_val_bytes(camera_id as u64);
    lemma_le8_val_bytes(timestamp as u64);
    lemma_le4_val_bytes(img.len() as u32);
}

/// serde's escape for one byte of a JSON string: quote and backslash
/// get a backslash, control bytes get their short escape or `\u00XX`,
/// and everything else (multi-byte UTF-8 included) passes through.
pub open spec fn spec_escape_byte(b: u8) -> Seq<u8> {
    if b == 34 {
        encode_utf8("\\\""@)
    } else if b == 92 {
        encode_utf8("\\\\"@)
    } else if b == 8 {
        encode_utf8("\\b"@)
    } else if b == 9 {
        encode_utf8("\\t"@)
    } else if b == 10 {
        encode_utf8("\\n"@)
    } else if b == 12 {
        encode_utf8("\\f"@)
    } else if b == 13 {
        encode_utf8("\\r"@)
    } else if b < 32 {
        encode_utf8("\\u00"@) + seq![hex_digit_byte(b as int / 16), hex_digit_byte(b as int % 16)]
    } else {
        seq![b]
    }
}

/// The byte for one lowercase hexadecimal digit.
pub open spec fn hex_digit_byte(d: int) -> u8 {
    if d < 10 {
        (48 + d) as u8
    } else {
        (87 + d) as u8
    }
}

/// A whole byte string escaped for a JSON string body.
pub open spec fn spec_escape_bytes(s: Seq<u8>) -> Seq<u8>
    decreases s.len(),
{
    if s.len() == 0 {
        Seq::empty()
    } else {
        spec_escape_bytes(s.drop_last()) + spec_escape_byte(s.last())
    }
}

/// A byte string as a JSON string token: quoted and escaped.
pub open spec fn spec_json_string(s: Seq<u8>) -> Seq<u8> {
    seq![34u8] + spec_escape_bytes(s) + seq![34u8]
}

/// The canonical JSON of a setting sent to firmware, over the UTF-8
/// bytes of its resolution name.
pub open spec fn spec_setting_json(flashlight_enabled: bool, resolution: Seq<u8>, framerate: i64) -> Seq<u8> {
    encode_utf8("{\"flashlight_enabled\":"@) + (if flashlight_enabled {
        encode_utf8("true"@)
    } else {
        encode_utf8("false"@)
    }) + encode_utf8(",\"resolution\":"@) + spec_json_string(resolution) + encode_utf8(
        ",\"framerate\":"@,
    ) + dec_bytes_signed(framerate as int) + encode_utf8("}"@)
}

/// The canonical JSON of a setting-change message, over the UTF-8
/// bytes of the resolution name.
pub open spec fn spec_setting_message_json(flashlight_enabled: bool, resolution: Seq<u8>, framerate: i64) -> Seq<u8> {
    encode_utf8("{\"SettingChanged\":"@) + spec_setting_json(
        flashlight_enabled,
        resolution,
        framerate,
    ) + encode_utf8("}"@)
}

/// The canonical JSON of a camera message, as serde renders the enum:
/// an object keyed by the variant for `SettingChanged`, a bare string
/// for `Restart`.
pub open spec fn spec_camera_message_json(m: CameraMessage) -> Seq<u8> {
    match m {
        CameraMessage::SettingChanged(s) => spec_setting_message_json(
            s.flashlight_enabled,
            encode_utf8(s.resolution@),
            s.framerate,
        ),
        CameraMessage::Restart => encode_utf8("\"Restart\""@),
    }
}

/// A resolution byte the strict decoder reads back: printable ASCII
/// that passes through escaping unchanged.
pub open spec fn plain_byte(b: u8) -> bool {
    32 <= b < 127 && b != 34 && b != 92
}

/// Every byte of the resolution is plain (true of every resolution the
/// hub accepts).
pub open spec fn plain_resolution(s: Seq<u8>) -> bool {
    forall|i: int| 0 <= i < s.len() ==> plain_byte(#[trigger] s[i])
}

/// Plain bytes escape to themselves.
proof fn lemma_plain_escape_identity(s: Seq<u8>)
    requires
        plain_resolution(s),
    ensures
        spec_escape_bytes(s) == s,
    decreases s.len(),
{
    if s.len() > 0 {
        assert(plain_resolution(s.drop_last())) by {
            assert(forall|i: int|
                0 <= i < s.len() - 1 ==> s.drop_last()[i] == #[trigger] s[i]);
        };
        lemma_plain_escape_identity(s.drop_last());
        assert(plain_byte(s.last()));
        assert(spec_escape_byte(s.last()) =~= seq![s.last()]);
        assert(spec_escape_bytes(s) =~= s.drop_last() + seq![s.last()]);
        assert(s.drop_last() + seq![s.last()] =~= s);
    }
}

/// The concrete bytes of the short literals the decoder branches on.
proof fn lemma_json_literal_bytes()
    ensures
        encode_utf8("true"@).len() == 4,
        encode_utf8("true"@)[0] == 116u8,
        encode_utf8("false"@).len() == 5,
        encode_utf8("false"@)[0] == 102u8,
        encode_utf8("}}"@) =~= seq![125u8, 125u8],
        encode_utf8("\",\"framerate\":"@).len() == 14,
        encode_utf8("\",\"framerate\":"@)[0] == 34u8,
{
    reveal_strlit("true");
    reveal_strlit("false");
    reveal_strlit("}}");
    reveal_strlit("\",\"framerate\":");
    assert(is_ascii_chars("true"@));
    assert(is_ascii_chars("false"@));
    assert(is_ascii_chars("}}"@));
    assert(is_ascii_chars("\",\"framerate\":"@));
    vstd::utf8::is_ascii_chars_encode_utf8("true"@);
    vstd::utf8::is_ascii_chars_encode_utf8("false"@);
    vstd::utf8::is_ascii_chars_encode_utf8("}}"@);
    vstd::utf8::is_ascii_chars_encode_utf8("\",\"framerate\":"@);
    assert("true"@[0] == 't');
    assert("false"@[0] == 'f');
    assert("}}"@[0] == '}' && "}}"@[1] == '}');
    assert("\",\"framerate\":"@[0] == '\"');
}

/// The canonical JSON of a camera-list delta.
pub open spec fn spec_list_change_json(c: CameraListChange) -> Seq<u8> {
    match c {
        CameraListChange::Added { camera_id } => encode_utf8("{\"Added\":{\"camera_id\":"@)
            + dec_bytes_signed(camera_id as int) + encode_utf8("}}"@),
        CameraListChange::Removed { camera_id } => encode_utf8("{\"Removed\":{\"camera_id\":"@)
            + dec_bytes_signed(camera_id as int) + encode_utf8("}}"@),
        CameraListChange::Updated { camera_id } => encode_utf8("{\"Updated\":{\"camera_id\":"@)
            + dec_bytes_signed(camera_id as int) + encode_utf8("}}"@),
    }
}

/// Escapes a byte string for a JSON string body, per
/// `spec_escape_bytes`.
fn escape_bytes(s: &[u8]) -> (r: Vec<u8>)
    ensures
        r@ == spec_escape_bytes(s@),
{
    let mut out: Vec<u8> = Vec::new();
    let n = s.len();
    let mut i: usize = 0;
    while i < n
        invariant
            0 <= i <= n == s@.len(),
            out@ == spec_escape_bytes(s@.subrange(0, i as int)),
        decreases n - i,
    {
        let ghost prefix = s@.subrange(0, i as int);
        let ghost extended = s@.subrange(0, i + 1);
        proof {
            assert(extended.drop_last() =~= prefix);
            assert(extended.last() == s@[i as int]);
        }
        let b = s[i];
        if b == 34 {
            let mut seg = string_bytes("\\\"");
            out.append(&mut seg);
        } else if b == 92 {
            let mut seg = string_bytes("\\\\");
            out.append(&mut seg);
        } else if b == 8 {
            let mut seg = string_bytes("\\b");
            out.append(&mut seg);
        } else if b == 9 {
            let mut seg = string_bytes("\\t");
            out.append(&mut seg);
        } else if b == 10 {
            let mut seg = string_bytes("\\n");
            out.append(&mut seg);
        } else if b == 12 {
            let mut seg = string_bytes("\\f");
            out.append(&mut seg);
        } else if b == 13 {
            let mut seg = string_bytes("\\r");
            out.append(&mut seg);
        } else if b < 32 {
            let mut seg = string_bytes("\\u00");
            out.append(&mut seg);
            let hi = b / 16;
            let lo = b % 16;
            out.push(if hi < 10 { 48 + hi } else { 87 + hi });
            out.push(if lo < 10 { 48 + lo } else { 87 + lo });
        } else {
            out.push(b);
        }
        proof {
            assert(out@ =~= spec_escape_bytes(prefix) + spec_escape_byte(s@[i as int]));
        }
        i = i + 1;
    }
    proof {
        assert(s@.subrange(0, n as int) =~= s@);
    }
    out
}

/// Renders a setting for firmware as canonical JSON bytes, per
/// `spec_setting_json`.
pub fn setting_json(s: &CameraSettingNoMeta) -> (r: Vec<u8>)
    ensures
        r@ == spec_setting_json(s.flashlight_enabled, encode_utf8(s.resolution@), s.framerate),
{
    let mut out = string_bytes("{\"flashlight_enabled\":");
    let mut flag = if s.flashlight_enabled {
        string_bytes("true")
    } else {
        string_bytes("false")
    };
    out.append(&mut flag);
    let mut seg = string_bytes(",\"resolution\":");
    out.append(&mut seg);
    out.push(34);
    let res_bytes = s.resolution.as_str().as_bytes_vec();
    let mut escaped = escape_bytes(res_bytes.as_slice());
    out.append(&mut escaped);
    out.push(34);
    let mut seg2 = string_bytes(",\"framerate\":");
    out.append(&mut seg2);
    let mut rate = i64_to_dec_bytes(s.framerate);
    out.append(&mut rate);
    let mut close = string_bytes("}");
    out.append(&mut close);
    proof {
        assert(out@ =~= spec_setting_json(
            s.flashlight_enabled,
            encode_utf8(s.resolution@),
            s.framerate,
        ));
    }
    out
}

/// Renders a camera message as canonical JSON bytes, per
/// `spec_camera_message_json`: what a camera session's control listener
/// writes to its peer.
pub fn camera_message_json(m: &CameraMessage) -> (r: Vec<u8>)
    ensures
        r@ == spec_camera_message_json(*m),
{
    match m {
        CameraMessage::SettingChanged(s) => {
            let mut out = string_bytes("{\"SettingChanged\":");
            let mut body = setting_json(s);
            out.append(&mut body);
            let mut close = string_bytes("}");
            out.append(&mut close);
            proof {
                assert(out@ =~= spec_camera_message_json(*m));
            }
            out
        },
        CameraMessage::Restart => string_bytes("\"Restart\""),
    }
}

/// Renders a camera-list delta as canonical JSON bytes, per
/// `spec_list_change_json`: what a viewer session's control listener
/// relays to its peer.
pub fn list_change_json(c: &CameraListChange) -> (r: Vec<u8>)
    ensures
        r@ == spec_list_change_json(*c),
{
    let (mut out, camera_id): (Vec<u8>, i64) = match c {
        CameraListChange::Added { camera_id } => (
            string_bytes("{\"Added\":{\"camera_id\":"),
            *camera_id,
        ),
        CameraListChange::Removed { camera_id } => (
            string_bytes("{\"Removed\":{\"camera_id\":"),
            *camera_id,
        ),
        CameraListChange::Updated { camera_id } => (
            string_bytes("{\"Updated\":{\"camera_id\":"),
            *camera_id,
        ),
    };
    let mut digits = i64_to_dec_bytes(camera_id);
    out.append(&mut digits);
    let mut close = string_bytes("}}");
    out.append(&mut close);
    proof {
        assert(out@ =~= spec_list_change_json(*c));
    }
    out
}

/// True when two byte strings hold the same bytes.
pub fn bytes_eq(a: &[u8], b: &[u8]) -> (r: bool)
    ensures
        r == (a@ == b@),
{
    if a.len() != b.len() {
        return false;
    }
    let n = a.len();
    let mut i: usize = 0;
    while i < n
        invariant
            0 <= i <= n == a@.len() == b@.len(),
            forall|j: int| 0 <= j < i ==> a@[j] == #[trigger] b@[j],
        decreases n - i,
    {
        if a[i] != b[i] {
            return false;
        }
        i = i + 1;
    }
    proof {
        assert(a@ =~= b@);
    }
    true
}

/// Whether the bytes from `at` start with the literal's UTF-8 bytes.
fn starts_with_lit(bytes: &[u8], at: usize, lit: &str) -> (r: Option<usize>)
    requires
        at <= bytes@.len(),
    ensures
        r is Some <==> at + encode_utf8(lit@).len() <= bytes@.len() && bytes@.subrange(
            at as int,
            at + encode_utf8(lit@).len(),
        ) == encode_utf8(lit@),
        r matches Some(j) ==> j == at + encode_utf8(lit@).len(),
{
    let seg = string_bytes(lit);
    let n = seg.len();
    if n > bytes.len() - at {
        return None;
    }
    let mut i: usize = 0;
    while i < n
        invariant
            0 <= i <= n == seg@.len(),
            seg@ == encode_utf8(lit@),
            at + n <= bytes@.len(),
            bytes@.len() <= usize::MAX,
            forall|j: int| 0 <= j < i ==> bytes@[at + j] == #[trigger] seg@[j],
        decreases n - i,
    {
        if bytes[at + i] != seg[i] {
            proof {
                assert(bytes@.subrange(at as int, at + n) != seg@) by {
                    assert(bytes@.subrange(at as int, at + n)[i as int] == bytes@[at + i]);
                };
            }
            return None;
        }
        i = i + 1;
    }
    proof {
        assert(bytes@.subrange(at as int, at + n) =~= seg@);
    }
    Some(at + n)
}

/// An ASCII string from ASCII bytes.  Relies on String::from_utf8,
/// which accepts any all-ASCII byte string and decodes each byte to its
/// character.
#[verifier::external_body]
fn ascii_bytes_to_string(v: &Vec<u8>) -> (r: String)
    requires
        forall|i: int| 0 <= i < v@.len() ==> v@[i] < 128,
    ensures
        r@ == Seq::new(v@.len(), |i: int| v@[i] as char),
        encode_utf8(r@) == v@,
{
    String::from_utf8(v.clone()).expect("ASCII bytes are valid UTF-8")
}

/// UTF-8 encoding distributes over concatenation.
proof fn lemma_encode_utf8_concat(a: Seq<char>, b: Seq<char>)
    ensures
        encode_utf8(a + b) == encode_utf8(a) + encode_utf8(b),
    decreases a.len(),
{
    if a.len() == 0 {
        assert(a + b =~= b);
        assert(encode_utf8(a) =~= Seq::<u8>::empty());
        assert(encode_utf8(a) + encode_utf8(b) =~= encode_utf8(b));
    } else {
        let whole = a + b;
        assert(whole.len() > 0);
        assert(whole[0] == a[0]);
        assert(whole.drop_first() =~= a.drop_first() + b);
        lemma_encode_utf8_concat(a.drop_first(), b);
        assert(encode_utf8(whole) == vstd::utf8::encode_scalar(whole[0] as u32) + encode_utf8(
            whole.drop_first(),
        ));
        assert(vstd::utf8::encode_scalar(a[0] as u32) + (encode_utf8(a.drop_first()) + encode_utf8(
            b,
        )) =~= (vstd::utf8::encode_scalar(a[0] as u32) + encode_utf8(a.drop_first()))
            + encode_utf8(b));
    }
}

/// For a plain resolution, the canonical setting message falls into
/// exactly the segments the strict decoder reads: the long key prefix,
/// the flag, the quoted resolution verbatim, the framerate digits, and
/// the closing braces.
#[verifier::rlimit(100)]
#[verifier::spinoff_prover]
proof fn lemma_setting_message_segments(flag: bool, res: Seq<u8>, rate: i64)
    requires
        plain_resolution(res),
    ensures
        spec_setting_message_json(flag, res, rate) == encode_utf8(
            "{\"SettingChanged\":{\"flashlight_enabled\":"@,
        ) + (if flag {
            encode_utf8("true"@)
        } else {
            encode_utf8("false"@)
        }) + encode_utf8(",\"resolution\":\""@) + res + encode_utf8("\",\"framerate\":"@)
            + dec_bytes_signed(rate as int) + encode_utf8("}}"@),
{
    lemma_plain_escape_identity(res);
    reveal_strlit("{\"SettingChanged\":");
    reveal_strlit("{\"flashlight_enabled\":");
    reveal_strlit("{\"SettingChanged\":{\"flashlight_enabled\":");
    reveal_strlit(",\"resolution\":");
    reveal_strlit(",\"resolution\":\"");
    reveal_strlit("\"");
    reveal_strlit("\",\"framerate\":");
    reveal_strlit(",\"framerate\":");
    reveal_strlit("}");
    reveal_strlit("}}");
    assert("{\"SettingChanged\":"@ + "{\"flashlight_enabled\":"@
        =~= "{\"SettingChanged\":{\"flashlight_enabled\":"@);
    assert(",\"resolution\":"@ + "\""@ =~= ",\"resolution\":\""@);
    assert("\""@ + ",\"framerate\":"@ =~= "\",\"framerate\":"@);
    assert("}"@ + "}"@ =~= "}}"@);
    lemma_encode_utf8_concat("{\"SettingChanged\":"@, "{\"flashlight_enabled\":"@);
    lemma_encode_utf8_concat(",\"resolution\":"@, "\""@);
    lemma_encode_utf8_concat("\""@, ",\"framerate\":"@);
    lemma_encode_utf8_concat("}"@, "}"@);
    assert(is_ascii_chars("\""@));
    vstd::utf8::is_ascii_chars_encode_utf8("\""@);
    assert(encode_utf8("\""@) =~= seq![34u8]);
    assert(spec_setting_message_json(flag, res, rate) =~= encode_utf8(
        "{\"SettingChanged\":{\"flashlight_enabled\":"@,
    ) + (if flag {
        encode_utf8("true"@)
    } else {
        encode_utf8("false"@)
    }) + encode_utf8(",\"resolution\":\""@) + res + encode_utf8("\",\"framerate\":"@)
        + dec_bytes_signed(rate as int) + encode_utf8("}}"@));
}

/// The flag's spelling.
spec fn flag_bytes(f: bool) -> Seq<u8> {
    if f {
        encode_utf8("true"@)
    } else {
        encode_utf8("false"@)
    }
}

/// Where the flag starts in a canonical setting message.
spec fn off_flag() -> int {
    encode_utf8("{\"SettingChanged\":{\"flashlight_enabled\":"@).len() as int
}

/// Where the resolution bytes start in a canonical setting message.
spec fn off_res(f: bool) -> int {
    off_flag() + flag_bytes(f).len() + encode_utf8(",\"resolution\":\""@).len()
}

/// Where a canonical setting message places each piece the strict
/// decoder reads: the key prefix, the flag spelling, the resolution
/// verbatim between its quotes, the framerate digits, and the closing
/// braces at the very end.
#[verifier::rlimit(100)]
#[verifier::spinoff_prover]
proof fn lemma_hypothesis_layout(bytes: Seq<u8>, f: bool, res: Seq<u8>, rate: i64)
    requires
        plain_resolution(res),
        bytes == spec_setting_message_json(f, res, rate),
    ensures
        ({
            let l3 = encode_utf8("\",\"framerate\":"@);
            let sg = dec_bytes_signed(rate as int);
            let dig0 = off_res(f) + res.len() + l3.len() + (if rate < 0 { 1int } else { 0int });
            let d = dec_bytes(magnitude_of(rate));
            &&& bytes.len() == off_res(f) + res.len() + l3.len() + sg.len() + 2
            &&& bytes.subrange(0, off_flag()) == encode_utf8(
                "{\"SettingChanged\":{\"flashlight_enabled\":"@,
            )
            &&& bytes.subrange(off_flag(), off_flag() + flag_bytes(f).len()) == flag_bytes(f)
            &&& bytes.subrange(off_flag() + flag_bytes(f).len(), off_res(f)) == encode_utf8(
                ",\"resolution\":\""@,
            )
            &&& bytes.subrange(off_res(f), off_res(f) + res.len()) == res
            &&& (forall|k: int| 0 <= k < res.len() ==> bytes[off_res(f) + k] == #[trigger] res[k])
            &&& bytes[off_res(f) + res.len()] == 34
            &&& bytes.subrange(off_res(f) + res.len(), off_res(f) + res.len() + l3.len()) == l3
            &&& (rate < 0 ==> bytes[off_res(f) + res.len() + l3.len()] == 45)
            &&& sg.len() == d.len() + (if rate < 0 { 1int } else { 0int })
            &&& (forall|k: int| 0 <= k < d.len() ==> bytes[dig0 + k] == #[trigger] d[k])
            &&& (forall|k: int| 0 <= k < d.len() ==> crate::text::is_dec_digit(#[trigger] d[k]))
            &&& d.len() >= 1
            &&& bytes[dig0 + d.len()] == 125
            &&& bytes.subrange(dig0 + d.len(), dig0 + d.len() + 2) == encode_utf8("}}"@)
            &&& dig0 + d.len() + 2 == bytes.len()
        }),
{
    lemma_setting_message_segments(f, res, rate);
    lemma_json_literal_bytes();
    let l1 = encode_utf8("{\"SettingChanged\":{\"flashlight_enabled\":"@);
    let l2 = encode_utf8(",\"resolution\":\""@);
    let l3 = encode_utf8("\",\"framerate\":"@);
    let l4 = encode_utf8("}}"@);
    let sg = dec_bytes_signed(rate as int);
    let d = dec_bytes(magnitude_of(rate));
    crate::text::lemma_dec_bytes_digits(magnitude_of(rate));
    assert(bytes =~= l1 + flag_bytes(f) + l2 + res + l3 + sg + l4);
    if rate < 0 {
        assert(sg =~= seq![45u8] + d);
    } else {
        assert(sg =~= d);
    }
    assert(bytes.subrange(0, off_flag()) =~= l1);
    assert(bytes.subrange(off_flag(), off_flag() + flag_bytes(f).len()) =~= flag_bytes(f));
    assert(bytes.subrange(off_flag() + flag_bytes(f).len(), off_res(f)) =~= l2);
    assert(bytes.subrange(off_res(f), off_res(f) + res.len()) =~= res);
    assert(bytes.subrange(off_res(f) + res.len(), off_res(f) + res.len() + l3.len()) =~= l3);
    assert(bytes[off_res(f) + res.len()] == l3[0]);
    let dig0 = off_res(f) + res.len() + l3.len() + (if rate < 0 { 1int } else { 0int });
    assert(forall|k: int| 0 <= k < d.len() ==> bytes[dig0 + k] == #[trigger] d[k]) by {
        assert(bytes.subrange(dig0, dig0 + d.len()) =~= d);
    };
    assert(bytes.subrange(dig0 + d.len(), dig0 + d.len() + 2) =~= l4);
    assert(bytes[dig0 + d.len()] == l4[0]);
}

/// Decodes a camera message from JSON text bytes, strictly: exactly the
/// canonical encodings decode (for setting changes, those whose
/// resolution is printable ASCII without quote or backslash, which is
/// every resolution the hub accepts), and what is accepted decodes to
/// the message the bytes encode: the decoded message re-encodes to the
/// input.
#[verifier::rlimit(100)]
#[verifier::spinoff_prover]
pub fn decode_camera_message(bytes: &[u8]) -> (r: Option<CameraMessage>)
    ensures
        r matches Some(m) ==> bytes@ == spec_camera_message_json(m),
        bytes@ == spec_camera_message_json(CameraMessage::Restart) ==> r is Some,
        forall|flag: bool, res: Seq<u8>, rate: i64|
            plain_resolution(res) && bytes@ == #[trigger] spec_setting_message_json(
                flag,
                res,
                rate,
            ) ==> r is Some,
{
    let restart = string_bytes("\"Restart\"");
    if bytes_eq(bytes, restart.as_slice()) {
        return Some(CameraMessage::Restart);
    }
    let total = bytes.len();
    let p0 = match starts_with_lit(bytes, 0, "{\"SettingChanged\":{\"flashlight_enabled\":") {
        Some(p) => p,
        None => {
            proof {
                assert forall|flag: bool, res: Seq<u8>, rate: i64|
                    plain_resolution(res) && bytes@ == #[trigger] spec_setting_message_json(
                        flag,
                        res,
                        rate,
                    ) implies false by {
                    lemma_hypothesis_layout(bytes@, flag, res, rate);
                };
            }
            return None;
        },
    };
    let (flag, p1): (bool, usize) = match starts_with_lit(bytes, p0, "true") {
        Some(p) => (true, p),
        None => {
            match starts_with_lit(bytes, p0, "false") {
                Some(p) => (false, p),
                None => {
                    proof {
                        assert forall|flag: bool, res: Seq<u8>, rate: i64|
                            plain_resolution(res) && bytes@
                                == #[trigger] spec_setting_message_json(flag, res, rate)
                            implies false by {
                            lemma_hypothesis_layout(bytes@, flag, res, rate);
                        };
                    }
                    return None;
                },
            }
        },
    };
    proof {
        // Under the hypothesis, the parsed flag is the encoded one: the
        // two spellings differ in their first byte.
        assert forall|f2: bool, res: Seq<u8>, rate: i64|
            plain_resolution(res) && bytes@ == #[trigger] spec_setting_message_json(f2, res, rate)
            implies f2 == flag by {
            lemma_hypothesis_layout(bytes@, f2, res, rate);
            lemma_json_literal_bytes();
            if f2 != flag {
                assert(bytes@[p0 as int] == flag_bytes(f2)[0]) by {
                    assert(bytes@.subrange(off_flag(), off_flag() + flag_bytes(f2).len())[0]
                        == bytes@[off_flag()]);
                };
                if flag {
                    assert(bytes@.subrange(p0 as int, p0 + 4)[0] == bytes@[p0 as int]);
                } else {
                    assert(bytes@.subrange(p0 as int, p0 + 5)[0] == bytes@[p0 as int]);
                }
            }
        };
    }
    let p2 = match starts_with_lit(bytes, p1, ",\"resolution\":\"") {
        Some(p) => p,
        None => {
            proof {
                assert forall|f2: bool, res: Seq<u8>, rate: i64|
                    plain_resolution(res) && bytes@ == #[trigger] spec_setting_message_json(
                        f2,
                        res,
                        rate,
                    ) implies false by {
                    lemma_hypothesis_layout(bytes@, f2, res, rate);
                    assert(f2 == flag);
                };
            }
            return None;
        },
    };
    let mut res_bytes: Vec<u8> = Vec::new();
    let mut plain_ok: bool = true;
    let mut p: usize = p2;
    while p < total && bytes[p] != 34
        invariant
            p2 <= p <= total == bytes@.len(),
            forall|j: int| p2 <= j < p ==> #[trigger] bytes@[j] != 34,
            res_bytes@ == bytes@.subrange(p2 as int, p as int),
            plain_ok == plain_resolution(res_bytes@),
        decreases total - p,
    {
        let b = bytes[p];
        if b < 32 || b >= 127 || b == 92 {
            plain_ok = false;
        }
        let ghost before = res_bytes@;
        res_bytes.push(b);
        proof {
            assert(res_bytes@ =~= bytes@.subrange(p2 as int, p + 1));
            assert(forall|k: int| 0 <= k < before.len() ==> res_bytes@[k] == #[trigger] before[k]);
            assert(res_bytes@.last() == b);
        }
        p = p + 1;
    }
    if p == total || !plain_ok {
        proof {
            assert forall|f2: bool, res: Seq<u8>, rate: i64|
                plain_resolution(res) && bytes@ == #[trigger] spec_setting_message_json(
                    f2,
                    res,
                    rate,
                ) implies false by {
                lemma_hypothesis_layout(bytes@, f2, res, rate);
                assert(f2 == flag);
                assert(p2 == off_res(flag));
                assert(p == p2 + res.len()) by {
                    if p < p2 + res.len() {
                        assert(bytes@[p as int] == res[p - p2]);
                        assert(plain_byte(res[p - p2]));
                    }
                };
                assert(res_bytes@ =~= res);
            };
        }
        return None;
    }
    proof {
        // Under the hypothesis, the scan stopped at the closing quote
        // and collected exactly the resolution bytes.
        assert forall|f2: bool, res: Seq<u8>, rate: i64|
            plain_resolution(res) && bytes@ == #[trigger] spec_setting_message_json(f2, res, rate)
            implies p == p2 + res.len() && res_bytes@ == res by {
            lemma_hypothesis_layout(bytes@, f2, res, rate);
            assert(f2 == flag);
            assert(p2 == off_res(flag));
            assert(p == p2 + res.len()) by {
                if p < p2 + res.len() {
                    assert(bytes@[p as int] == res[p - p2]);
                    assert(plain_byte(res[p - p2]));
                }
            };
            assert(res_bytes@ =~= res);
        };
    }
    let p3 = match starts_with_lit(bytes, p, "\",\"framerate\":") {
        Some(q) => q,
        None => {
            proof {
                assert forall|f2: bool, res: Seq<u8>, rate: i64|
                    plain_resolution(res) && bytes@ == #[trigger] spec_setting_message_json(
                        f2,
                        res,
                        rate,
                    ) implies false by {
                    lemma_hypothesis_layout(bytes@, f2, res, rate);
                    assert(f2 == flag && p == off_res(flag) + res.len());
                };
            }
            return None;
        },
    };
    let negative: bool = p3 < total && bytes[p3] == 45;
    let d0: usize = if negative {
        p3 + 1
    } else {
        p3
    };
    proof {
        // Under the hypothesis, the sign the decoder saw is the sign of
        // the framerate, and the digit region starts at d0.
        assert forall|f2: bool, res: Seq<u8>, rate: i64|
            plain_resolution(res) && bytes@ == #[trigger] spec_setting_message_json(f2, res, rate)
            implies negative == (rate < 0) && d0 == p3 + (if rate < 0 {
            1int
        } else {
            0int
        }) by {
            lemma_hypothesis_layout(bytes@, f2, res, rate);
            assert(f2 == flag);
            assert(p == p2 + res.len() && res_bytes@ == res);
            if rate >= 0 {
                let d = dec_bytes(magnitude_of(rate));
                assert(bytes@[p3 as int] == d[0]);
                assert(crate::text::is_dec_digit(d[0]));
            }
        };
    }
    let mut digits: Vec<u8> = Vec::new();
    let mut q: usize = d0;
    while q < total && bytes[q] >= 48 && bytes[q] <= 57
        invariant
            d0 <= q <= total == bytes@.len(),
            digits@ == bytes@.subrange(d0 as int, q as int),
            forall|j: int| d0 <= j < q ==> crate::text::is_dec_digit(#[trigger] bytes@[j]),
        decreases total - q,
    {
        digits.push(bytes[q]);
        proof {
            assert(digits@ =~= bytes@.subrange(d0 as int, q + 1));
        }
        q = q + 1;
    }
    proof {
        // Under the hypothesis, the digit scan collected exactly the
        // decimal rendering of the framerate's magnitude.
        assert forall|f2: bool, res: Seq<u8>, rate: i64|
            plain_resolution(res) && bytes@ == #[trigger] spec_setting_message_json(f2, res, rate)
            implies q == d0 + dec_bytes(magnitude_of(rate)).len() && digits@ == dec_bytes(
            magnitude_of(rate),
        ) by {
            lemma_hypothesis_layout(bytes@, f2, res, rate);
            assert(f2 == flag);
            assert(p == p2 + res.len() && res_bytes@ == res);
            assert(negative == (rate < 0));
            let d = dec_bytes(magnitude_of(rate));
            assert(q == d0 + d.len()) by {
                if q < d0 + d.len() {
                    assert(bytes@[q as int] == d[q - d0]);
                } else {
                    assert(bytes@[d0 + d.len()] == 125);
                }
            };
            assert(digits@ =~= d);
        };
    }
    if digits.len() == 0 {
        proof {
            assert forall|f2: bool, res: Seq<u8>, rate: i64|
                plain_resolution(res) && bytes@ == #[trigger] spec_setting_message_json(
                    f2,
                    res,
                    rate,
                ) implies false by {
                lemma_hypothesis_layout(bytes@, f2, res, rate);
            };
        }
        return None;
    }
    let bound: u64 = if negative {
        9223372036854775808
    } else {
        9223372036854775807
    };
    let magnitude = match crate::text::parse_uint(digits.as_slice(), bound) {
        Some(v) => v,
        None => {
            proof {
                assert forall|f2: bool, res: Seq<u8>, rate: i64|
                    plain_resolution(res) && bytes@ == #[trigger] spec_setting_message_json(
                        f2,
                        res,
                        rate,
                    ) implies false by {
                    lemma_hypothesis_layout(bytes@, f2, res, rate);
                    let m = magnitude_of(rate);
                    crate::text::lemma_dec_bytes_value(m);
                    assert(crate::text::unsigned_body(digits@) =~= digits@);
                    assert(crate::text::parses_as_uint(digits@, bound as int));
                };
            }
            return None;
        },
    };
    let rate: i64 = if negative {
        if magnitude == 9223372036854775808 {
            i64::MIN
        } else {
            -(magnitude as i64)
        }
    } else {
        magnitude as i64
    };
    let end_ok: bool = match starts_with_lit(bytes, q, "}}") {
        Some(end) => end == total,
        None => false,
    };
    if !end_ok {
        proof {
            assert forall|f2: bool, res: Seq<u8>, rate2: i64|
                plain_resolution(res) && bytes@ == #[trigger] spec_setting_message_json(
                    f2,
                    res,
                    rate2,
                ) implies false by {
                lemma_hypothesis_layout(bytes@, f2, res, rate2);
                assert(f2 == flag);
                assert(q == off_res(flag) + res.len() + encode_utf8("\",\"framerate\":"@).len()
                    + dec_bytes_signed(rate2 as int).len());
            };
        }
        return None;
    }
    let resolution = ascii_bytes_to_string(&res_bytes);
    let m = CameraMessage::SettingChanged(
        CameraSettingNoMeta { flashlight_enabled: flag, resolution, framerate: rate },
    );
    let enc = camera_message_json(&m);
    if bytes_eq(bytes, enc.as_slice()) {
        Some(m)
    } else {
        proof {
            // Under the hypothesis the re-encoding is the input itself,
            // so this branch cannot be reached from a canonical message.
            assert forall|f2: bool, res: Seq<u8>, rate2: i64|
                plain_resolution(res) && bytes@ == #[trigger] spec_setting_message_json(
                    f2,
                    res,
                    rate2,
                ) implies false by {
                lemma_hypothesis_layout(bytes@, f2, res, rate2);
                assert(f2 == flag);
                assert(res_bytes@ == res);
                let mg = magnitude_of(rate2);
                crate::text::lemma_dec_bytes_value(mg);
                assert(crate::text::unsigned_body(digits@) =~= digits@);
                assert(magnitude == mg);
                assert(rate == rate2);
                assert(enc@ == spec_setting_message_json(flag, encode_utf8(
                    match m {
                        CameraMessage::SettingChanged(s) => s.resolution@,
                        CameraMessage::Restart => Seq::<char>::empty(),
                    },
                ), rate));
                assert(enc@ == bytes@);
            };
        }
        None
    }
}

/// The magnitude of a signed framerate, as its decimal rendering shows
/// it.
pub open spec fn magnitude_of(rate: i64) -> nat {
    if rate >= 0 {
        rate as nat
    } else {
        (-(rate as int)) as nat
    }
}

} // verus!
