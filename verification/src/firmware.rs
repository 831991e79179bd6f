//! The camera firmware's decision logic.
//!
//! The firmware stores its Wi-Fi credentials, the hub's address and its
//! camera settings as small strings, validates what the setup form
//! hands it, and reacts to the hub's control messages.  All of that
//! deciding is here; pins, flash and sockets stay with the device code.

use vstd::prelude::*;

use crate::text::copy_range;
use crate::text::dec_chars_signed;
use crate::text::dot_at;
use crate::text::spec_valid_ipv4;
use crate::text::validate_ipv4;
use crate::text::is_ascii_ws;
use crate::text::parse_uint;
use crate::text::parses_as_uint;
use crate::text::spec_trim;
use crate::text::string_bytes;
use crate::text::trim_bytes;
use crate::text::unsigned_body;
use crate::text::digits_value;
use crate::types::CameraMessage;
use crate::types::CameraSettingNoMeta;
use vstd::string::StringSliceAdditionalSpecFns;
use vstd::utf8::encode_utf8;

verus! {

/// What the setup form carries: network credentials and, optionally,
/// the hub's address.
pub struct SetupFormData {
    pub ssid: String,
    pub pass: String,
    pub oko: String,
}

/// Why a setup form is rejected.
#[derive(Clone, Copy, Debug, PartialEq, Eq, Structural)]
pub enum SetupError {
    /// The trimmed SSID is not 1 to 32 bytes long.
    SsidLength,
    /// The trimmed password is not 8 to 63 bytes long.
    PassLength,
    /// The hub address is not `a.b.c.d:port`.
    OkoAddress,
}

/// The trimmed hub address is acceptable: empty (the hub can introduce
/// itself later over service discovery), or `a.b.c.d:port` within 9 to
/// 21 bytes, where each octet parses as a byte, the port parses as a
/// 16-bit integer and is not zero, and everything is printable ASCII.
pub open spec fn spec_valid_oko_ip(s: Seq<u8>) -> bool {
    let t = spec_trim(s);
    ||| t.len() == 0
    ||| {
        &&& forall|i: int| 0 <= i < t.len() ==> (#[trigger] t[i]) < 128 && !is_ascii_ws(t[i])
        &&& 9 <= t.len() <= 21
        &&& exists|c: int|
            {
                &&& 0 <= c < t.len()
                &&& #[trigger] t[c] == 58
                &&& (forall|j: int| 0 <= j < t.len() && j != c ==> #[trigger] t[j] != 58)
                &&& spec_valid_ipv4(t.subrange(0, c))
                &&& parses_as_uint(t.subrange(c + 1, t.len() as int), 65535)
                &&& digits_value(unsigned_body(t.subrange(c + 1, t.len() as int))) >= 1
            }
    }
}

/// Validates the hub address a form hands the firmware, per
/// `spec_valid_oko_ip` over the string's bytes.
pub fn validate_oko_ip(oko_str: &str) -> (r: Result<(), SetupError>)
    ensures
        r is Ok <==> spec_valid_oko_ip(oko_str.spec_bytes()),
        r matches Err(e) ==> e == SetupError::OkoAddress,
{
    let bytes = crate::text::string_bytes(oko_str);
    let t = trim_bytes(bytes.as_slice());
    if t.len() == 0 {
        return Ok(());
    }
    let n = t.len();
    // Every byte printable ASCII.
    let mut i: usize = 0;
    while i < n
        invariant
            0 <= i <= n == t@.len(),
            t@ == spec_trim(oko_str.spec_bytes()),
            forall|j: int| 0 <= j < i ==> (#[trigger] t@[j]) < 128 && !is_ascii_ws(t@[j]),
        decreases n - i,
    {
        let b = t[i];
        if b >= 128 || b == 32 || b == 9 || b == 10 || b == 13 {
            return Err(SetupError::OkoAddress);
        }
        i = i + 1;
    }
    if n < 9 || n > 21 {
        return Err(SetupError::OkoAddress);
    }
    // Exactly one colon.
    let mut colon: usize = n;
    let mut k: usize = 0;
    while k < n
        invariant
            0 <= k <= n == t@.len(),
            t@ == spec_trim(oko_str.spec_bytes()),
            colon <= n,
            colon == n ==> forall|j: int| 0 <= j < k ==> #[trigger] t@[j] != 58,
            colon < n ==> colon < k && t@[colon as int] == 58 && (forall|j: int|
                0 <= j < k && j != colon ==> #[trigger] t@[j] != 58),
        decreases n - k,
    {
        if t[k] == 58 {
            if colon < n {
                // A second colon: not an address.
                proof {
                    assert(forall|c: int|
                        0 <= c < t@.len() && #[trigger] t@[c] == 58 ==> !(forall|j: int|
                            0 <= j < t@.len() && j != c ==> #[trigger] t@[j] != 58)) by {
                        assert forall|c: int|
                            0 <= c < t@.len() && #[trigger] t@[c] == 58 implies !(forall|j: int|
                            0 <= j < t@.len() && j != c ==> #[trigger] t@[j] != 58) by {
                            if c == colon {
                                assert(t@[k as int] == 58);
                            } else {
                                assert(t@[colon as int] == 58);
                            }
                        };
                    };
                }
                return Err(SetupError::OkoAddress);
            }
            colon = k;
        }
        k = k + 1;
    }
    if colon == n {
        return Err(SetupError::OkoAddress);
    }
    // The port after the colon: a 16-bit integer, not zero.
    let port_part = copy_range(t.as_slice(), colon + 1, n);
    match parse_uint(port_part.as_slice(), 65535) {
        Some(v) => {
            if v < 1 {
                return Err(SetupError::OkoAddress);
            }
        },
        None => {
            return Err(SetupError::OkoAddress);
        },
    }
    // The dotted quad before the colon.
    let ip = copy_range(t.as_slice(), 0, colon);
    if validate_ipv4(ip.as_slice()) {
        Ok(())
    } else {
        Err(SetupError::OkoAddress)
    }
}

/// Validates the whole setup form: trimmed SSID of 1 to 32 bytes,
/// trimmed password of 8 to 63 bytes, and an acceptable hub address.
pub fn validate_form_data(form: &SetupFormData) -> (r: Result<(), SetupError>)
    ensures
        r is Ok <==> {
            &&& 1 <= spec_trim(encode_utf8(form.ssid@)).len() <= 32
            &&& 8 <= spec_trim(encode_utf8(form.pass@)).len() <= 63
            &&& spec_valid_oko_ip(encode_utf8(form.oko@))
        },
        r == Err::<(), SetupError>(SetupError::SsidLength) <==> !(1 <= spec_trim(
            encode_utf8(form.ssid@),
        ).len() <= 32),
        r == Err::<(), SetupError>(SetupError::PassLength) <==> (1 <= spec_trim(
            encode_utf8(form.ssid@),
        ).len() <= 32 && !(8 <= spec_trim(encode_utf8(form.pass@)).len() <= 63)),
{
    let ssid_bytes = string_bytes(form.ssid.as_str());
    let ssid = trim_bytes(ssid_bytes.as_slice());
    if ssid.len() < 1 || ssid.len() > 32 {
        return Err(SetupError::SsidLength);
    }
    let pass_bytes = string_bytes(form.pass.as_str());
    let pass = trim_bytes(pass_bytes.as_slice());
    if pass.len() < 8 || pass.len() > 63 {
        return Err(SetupError::PassLength);
    }
    validate_oko_ip(form.oko.as_str())
}

/// What the firmware does with one control message from the hub.
pub enum FirmwareAction {
    /// Drive the flashlight pin, then persist the new setting.
    ApplyAndSave(CameraSettingNoMeta),
    /// Reboot the device.
    Restart,
}

/// Decides one control message: a setting change is applied and saved,
/// a restart reboots.  (Messages that do not parse are dropped before
/// this step.)
pub fn firmware_event_step(m: CameraMessage) -> (a: FirmwareAction)
    ensures
        m matches CameraMessage::SettingChanged(s) ==> (a matches FirmwareAction::ApplyAndSave(t)
            && t == s),
        m is Restart ==> a is Restart,
{
    match m {
        CameraMessage::SettingChanged(s) => FirmwareAction::ApplyAndSave(s),
        CameraMessage::Restart => FirmwareAction::Restart,
    }
}

/// Rebuilds the camera settings from the three stored strings, as the
/// firmware boots: a flashlight flag that must read exactly `true`, a
/// framerate that falls back to 1, and a resolution that falls back to
/// SVGA unless it reads exactly SVGA or VGA.  Values are stored and
/// read back trimmed.
pub fn parse_camera_settings(flashlight: &str, framerate: &str, resolution: &str) -> (r:
    CameraSettingNoMeta)
    ensures
        r.flashlight_enabled == (spec_trim(flashlight.spec_bytes()) == encode_utf8("true"@)),
        r.framerate == spec_stored_framerate(spec_trim(framerate.spec_bytes())),
        r.resolution@ == (if spec_trim(resolution.spec_bytes()) == encode_utf8("SVGA"@) {
            "SVGA"@
        } else if spec_trim(resolution.spec_bytes()) == encode_utf8("VGA"@) {
            "VGA"@
        } else {
            "SVGA"@
        }),
{
    let fl_bytes = string_bytes(flashlight);
    let fl = trim_bytes(fl_bytes.as_slice());
    let lit_true = string_bytes("true");
    let flashlight_enabled = crate::codec::bytes_eq(fl.as_slice(), lit_true.as_slice());

    let fr_bytes = string_bytes(framerate);
    let fr = trim_bytes(fr_bytes.as_slice());
    let rate = parse_stored_framerate(fr.as_slice());

    let res_bytes = string_bytes(resolution);
    let res = trim_bytes(res_bytes.as_slice());
    let lit_svga = string_bytes("SVGA");
    let lit_vga = string_bytes("VGA");
    let resolution_out: String = if crate::codec::bytes_eq(res.as_slice(), lit_svga.as_slice()) {
        "SVGA".to_owned()
    } else if crate::codec::bytes_eq(res.as_slice(), lit_vga.as_slice()) {
        "VGA".to_owned()
    } else {
        "SVGA".to_owned()
    };
    CameraSettingNoMeta { flashlight_enabled, resolution: resolution_out, framerate: rate }
}

/// The framerate a stored string stands for: its integer when it parses
/// as a signed 64-bit decimal, and 1 when it does not.
pub open spec fn spec_stored_framerate(t: Seq<u8>) -> i64 {
    if t.len() > 0 && t[0] == 45 {
        if parses_as_uint(t.subrange(1, t.len() as int), 0x8000000000000000) {
            let v = digits_value(unsigned_body(t.subrange(1, t.len() as int)));
            if v == 0x8000000000000000 {
                i64::MIN
            } else {
                (-v) as i64
            }
        } else {
            1
        }
    } else {
        if parses_as_uint(t, 0x7fffffffffffffff) {
            digits_value(unsigned_body(t)) as i64
        } else {
            1
        }
    }
}

/// Parses a stored framerate, per `spec_stored_framerate`.
fn parse_stored_framerate(t: &[u8]) -> (r: i64)
    ensures
        r == spec_stored_framerate(t@),
{
    if t.len() > 0 && t[0] == 45 {
        let rest = copy_range(t, 1, t.len());
        match parse_uint(rest.as_slice(), 0x8000000000000000) {
            Some(v) => {
                if v == 0x8000000000000000 {
                    i64::MIN
                } else {
                    -(v as i64)
                }
            },
            None => 1,
        }
    } else {
        match parse_uint(t, 0x7fffffffffffffff) {
            Some(v) => v as i64,
            None => 1,
        }
    }
}

/// How long the firmware waits between frame captures: a second split
/// by the framerate, which is clamped to at least one frame per second.
pub fn capture_interval_ms(framerate: i64) -> (r: u64)
    ensures
        r == 1000u64 / (if framerate < 1 {
            1u64
        } else {
            framerate as u64
        }),
{
    let per_second: u64 = if framerate < 1 {
        1u64
    } else {
        framerate as u64
    };
    1000 / per_second
}

/// Renders the settings for the firmware's store: the strings
/// `parse_camera_settings` reads back.
pub fn encode_camera_settings(s: &CameraSettingNoMeta) -> (r: (String, String, String))
    ensures
        r.0@ == (if s.flashlight_enabled {
            "true"@
        } else {
            "false"@
        }),
        r.1@ == dec_chars_signed(s.framerate as int),
        r.2@ == s.resolution@,
{
    let flag: String = if s.flashlight_enabled {
        "true".to_owned()
    } else {
        "false".to_owned()
    };
    let rate = crate::text::i64_to_string(s.framerate);
    (flag, rate, s.resolution.clone())
}

} // verus!
