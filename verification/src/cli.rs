//! The command-line front-end's decisions about server responses; the HTTP
//! calls and the terminal output around them stay outside the core.

use vstd::prelude::*;
use vstd::string::*;

use crate::outside::{base64_decoding, decode_base64};
use crate::strutil::str_eq;

verus! {

/// Whether an optional response field holds exactly this text.
pub open spec fn opt_field_is(o: Option<String>, lit: Seq<char>) -> bool {
    match o {
        Some(s) => s@ == lit,
        None => false,
    }
}

/// Whether a response reports success.
pub fn status_is_ok(status: &String) -> (r: bool)
    ensures
        r == (status@ == "ok"@),
{
    str_eq(status.as_str(), "ok")
}

/// What the camera command's caller should do with the response.
#[derive(Debug)]
pub enum SnapOutcome {
    /// The person at the device refused the photo.
    Declined,
    /// The device failed with some other error.
    DeviceError { message: String },
    /// The command went out as a push: a snapshot needs the live socket.
    RequiresSocket,
    /// The response carried no image data.
    NoImage,
    /// The image field was not valid base64.
    DecodeFailed,
    /// The decoded photo, ready to write out.
    Image { bytes: Vec<u8> },
}

/// Reads a command response for a camera snapshot: device-side errors
/// first (with the user's refusal told apart), then the push-fallback
/// marker — a snapshot cannot come back out-of-band — then the image data.
pub fn snap_outcome(
    status: Option<String>,
    error_code: Option<String>,
    error: Option<String>,
    delivered_via: Option<String>,
    image_b64: Option<String>,
) -> (r: SnapOutcome)
    ensures
        opt_field_is(status, "error"@) && opt_field_is(error_code, "USER_DECLINED"@) ==> (
        r is Declined),
        opt_field_is(status, "error"@) && !opt_field_is(error_code, "USER_DECLINED"@) ==> (
        r matches SnapOutcome::DeviceError { message } && message@ == (match error {
            Some(e) => e@,
            None => "Unknown error"@,
        })),
        !opt_field_is(status, "error"@) && opt_field_is(delivered_via, "apns"@) ==> (
        r is RequiresSocket),
        !opt_field_is(status, "error"@) && !opt_field_is(delivered_via, "apns"@) ==> (match
            image_b64 {
            None => r is NoImage,
            Some(b) => (match base64_decoding(b@) {
                Some(bytes) => r matches SnapOutcome::Image { bytes: v } && v@ == bytes,
                None => r is DecodeFailed,
            }),
        }),
{
    let is_error = match status {
        Some(ref s) => str_eq(s.as_str(), "error"),
        None => false,
    };
    if is_error {
        let declined = match error_code {
            Some(ref c) => str_eq(c.as_str(), "USER_DECLINED"),
            None => false,
        };
        if declined {
            SnapOutcome::Declined
        } else {
            let message = match error {
                Some(e) => e,
                None => String::from_str("Unknown error"),
            };
            SnapOutcome::DeviceError { message }
        }
    } else {
        let via_push = match delivered_via {
            Some(ref v) => str_eq(v.as_str(), "apns"),
            None => false,
        };
        if via_push {
            SnapOutcome::RequiresSocket
        } else {
            match image_b64 {
                None => SnapOutcome::NoImage,
                Some(b) => {
                    match decode_base64(b.as_str()) {
                        Some(bytes) => SnapOutcome::Image { bytes },
                        None => SnapOutcome::DecodeFailed,
                    }
                },
            }
        }
    }
}

} // verus!
