//! The decisions behind the plugin's C entry points: the ABI version it
//! reports, what registration answers the loader, and the return code
//! and slot count of the per-instance callbacks.  The entry points
//! themselves (raw pointers, panics caught at the FFI boundary) live
//! with the host glue.

use vstd::prelude::*;
use crate::registry::{FeedError, RegistryError};
use crate::text::owned;

verus! {

pub const WAVECRUX_DECODER_ABI_MAJOR: u32 = 1;

/// Minor 1 added the optional plugin name / description entry points;
/// the host gates on the major version only.
pub const WAVECRUX_DECODER_ABI_MINOR: u32 = 1;

pub const WC_DECODER_OK: i32 = 0;
pub const WC_DECODER_ERR: i32 = 1;
pub const WC_DECODER_NEED_MORE_SLOTS: i32 = 2;

/// The ABI version: major in the high 16 bits, minor in the low 16.
pub fn wavecrux_decoder_abi_version() -> (v: u32)
    ensures
        v == WAVECRUX_DECODER_ABI_MAJOR * 0x10000 + WAVECRUX_DECODER_ABI_MINOR,
        v == 0x0001_0001,
{
    let v = (WAVECRUX_DECODER_ABI_MAJOR << 16u32) | WAVECRUX_DECODER_ABI_MINOR;
    assert((1u32 << 16u32) | 1u32 == 0x0001_0001u32) by (bit_vector);
    v
}

/// The plugin's own user-facing name.
pub fn wavecrux_decoder_plugin_name() -> (s: String)
    ensures
        s@ == "WaveCrux SigRok Bridge"@,
{
    owned("WaveCrux SigRok Bridge")
}

/// The plugin's one-line description, carrying the GPL notice.
pub fn wavecrux_decoder_plugin_description() -> (s: String)
    ensures
        s@ == "libsigrokdecode protocol decoders, via subprocess bridge (GPLv3+)."@,
{
    owned("libsigrokdecode protocol decoders, via subprocess bridge (GPLv3+).")
}

/// What registration answers the loader: the return code, the value
/// written to its count (if any), and whether the decoder definitions are
/// copied into its slots.
pub struct RegisterOutcome {
    pub code: i32,
    pub count: Option<usize>,
    pub write_defs: bool,
}

/// Registration given how many decoders the registry produced (or why it
/// failed) and how many slots the loader provided:
///
///   * too few slots: ask for more, announcing the number needed;
///   * enough slots: copy the definitions and report their number;
///   * no subprocess: succeed with no decoders, so that the plugin simply
///     contributes nothing;
///   * any other failure: an error, the count untouched.
pub fn register_outcome(populated: Result<usize, RegistryError>, provided: usize) -> (o: RegisterOutcome)
    ensures
        match populated {
            Ok(n) => if n > provided {
                o == (RegisterOutcome { code: WC_DECODER_NEED_MORE_SLOTS, count: Some(n), write_defs: false })
            } else {
                o == (RegisterOutcome { code: WC_DECODER_OK, count: Some(n), write_defs: true })
            },
            Err(RegistryError::SubprocessUnavailable(_)) =>
                o == (RegisterOutcome { code: WC_DECODER_OK, count: Some(0usize), write_defs: false }),
            Err(_) => o == (RegisterOutcome { code: WC_DECODER_ERR, count: None, write_defs: false }),
        },
{
    match populated {
        Ok(n) => {
            if n > provided {
                RegisterOutcome { code: WC_DECODER_NEED_MORE_SLOTS, count: Some(n), write_defs: false }
            } else {
                RegisterOutcome { code: WC_DECODER_OK, count: Some(n), write_defs: true }
            }
        },
        Err(RegistryError::SubprocessUnavailable(_)) => RegisterOutcome { code: WC_DECODER_OK, count: Some(0), write_defs: false },
        Err(_) => RegisterOutcome { code: WC_DECODER_ERR, count: None, write_defs: false },
    }
}

/// A feed or flush callback's return code and the count it writes, given
/// how many transactions the instance handed over (or why it could not):
/// the transactions are written and counted; too few slots ask for more;
/// any other failure is an error with the count untouched.
pub fn callback_outcome(result: Result<usize, FeedError>) -> (o: (i32, Option<usize>))
    ensures
        match result {
            Ok(n) => o == (WC_DECODER_OK, Some(n)),
            Err(FeedError::NeedsMoreSlots(n)) => o == (WC_DECODER_NEED_MORE_SLOTS, Some(n)),
            Err(_) => o == (WC_DECODER_ERR, None::<usize>),
        },
{
    match result {
        Ok(n) => (WC_DECODER_OK, Some(n)),
        Err(FeedError::NeedsMoreSlots(n)) => (WC_DECODER_NEED_MORE_SLOTS, Some(n)),
        Err(_) => (WC_DECODER_ERR, None),
    }
}

} // verus!
