//! Firmware-identification endpoint at `GET /api/info`.
//!
//! The endpoint has the device asked for its identification and returns the parsed
//! block. It exists primarily so a host can verify whether the attached ESP is
//! actually running `esp-csi-cli-rs`, and which build of it.

use vstd::prelude::*;

use crate::models::{ApiResponse, DeviceInfo, InfoText};
use crate::state::{DeviceHandle, StateText};
use crate::text;

verus! {

/// The body of the answer: the identification, or what went wrong.
#[derive(Debug)]
pub enum InfoResult {
    Info(DeviceInfo),
    Failed(ApiResponse),
}

/// What an [`InfoResult`] says.
#[verifier::ext_equal]
pub enum InfoResultText {
    Info(InfoText),
    Failed { success: bool, message: Seq<char> },
}

impl View for InfoResult {
    type V = InfoResultText;

    open spec fn view(&self) -> InfoResultText {
        match *self {
            InfoResult::Info(i) => InfoResultText::Info(i@),
            InfoResult::Failed(e) => InfoResultText::Failed { success: e.success, message: e.message@ },
        }
    }
}

/// A failure in words.
pub open spec fn info_failure(message: Seq<char>) -> InfoResultText {
    InfoResultText::Failed { success: false, message }
}

fn info_fail(message: String) -> (r: InfoResult)
    ensures
        r@ == info_failure(message@),
{
    InfoResult::Failed(ApiResponse { success: false, message })
}

/// Why a device is not asked for its identification, where it is not.
pub open spec fn info_refusal(s: StateText) -> Option<(u16, InfoResultText)> {
    if !s.serial_connected {
        Some((503u16, info_failure("ESP32 disconnected; serial command unavailable"@)))
    } else if s.collection_running {
        Some((503u16, info_failure("Collection is running; stop it first to query info"@)))
    } else {
        None
    }
}

/// An optional answer.
pub open spec fn answer_view(r: Option<(u16, InfoResult)>) -> Option<(u16, InfoResultText)> {
    match r {
        Some((status, body)) => Some((status, body@)),
        None => None,
    }
}

/// `GET /api/info`: an answer where the device cannot be asked; else the serial task
/// is to be asked for an identification exchange, and [`info_outcome`] answers.
///
/// Status codes:
/// - `200`: valid `esp-csi-cli-rs` info block returned.
/// - `503`: ESP32 disconnected, or a collection is running (the firmware CLI is
///   locked while collecting; `q`/`Q` is the only accepted byte until the run ends).
/// - `504`: the device did not produce an info block within the timeout. Most
///   commonly this means the firmware is not `esp-csi-cli-rs` (or it's a build that
///   predates the `info` command).
/// - `502`: the device responded with garbled output that could not be parsed.
pub fn get_info(dev: &DeviceHandle) -> (r: Option<(u16, InfoResult)>)
    ensures
        answer_view(r) == info_refusal(dev@.state),
{
    if !dev.state.serial_connected {
        return Some((503, info_fail("ESP32 disconnected; serial command unavailable".to_owned())));
    }
    if dev.state.collection_running {
        return Some(
            (503, info_fail("Collection is running; stop it first to query info".to_owned())),
        );
    }
    None
}

/// What became of the request to the serial task.
#[derive(Debug)]
pub enum InfoOutcome {
    /// The serial task is gone.
    NotQueued,
    /// It answered.
    Answered(Result<DeviceInfo, String>),
    /// It did not answer in time, or not at all.
    TimedOut,
}

/// The status of a failed exchange. A collection that started meanwhile locks the
/// CLI; timeouts and a missing magic prefix mean that the firmware is not there;
/// what else goes wrong is the fault of the link or of the block.
pub open spec fn failure_status(message: Seq<char>) -> u16 {
    if message == "collection is running; CLI is locked until stop"@ {
        503
    } else if text::holds(message, "timed out"@) || text::holds(message, "not esp-csi-cli-rs"@)
        || text::holds(message, "magic prefix"@) {
        504
    } else {
        502
    }
}

/// The answer after the serial task was asked.
pub open spec fn info_answer(outcome: InfoOutcome) -> (u16, InfoResultText) {
    match outcome {
        InfoOutcome::NotQueued => (503u16, info_failure("Serial task is shutting down"@)),
        InfoOutcome::Answered(Ok(info)) => (200u16, InfoResultText::Info(info@)),
        InfoOutcome::Answered(Err(m)) => (failure_status(m@), info_failure(m@)),
        InfoOutcome::TimedOut => (504u16, info_failure("info request timed out"@)),
    }
}

/// The answer after the serial task was asked.
pub fn info_outcome(outcome: InfoOutcome) -> (r: (u16, InfoResult))
    ensures
        (r.0, r.1@) == info_answer(outcome),
{
    match outcome {
        InfoOutcome::NotQueued => (503, info_fail("Serial task is shutting down".to_owned())),
        InfoOutcome::Answered(Ok(info)) => (200, InfoResult::Info(info)),
        InfoOutcome::Answered(Err(m)) => {
            let status: u16 = if text::same(
                m.as_str(),
                "collection is running; CLI is locked until stop",
            ) {
                503
            } else if text::has_text(m.as_str(), "timed out") || text::has_text(
                m.as_str(),
                "not esp-csi-cli-rs",
            ) || text::has_text(m.as_str(), "magic prefix") {
                504
            } else {
                502
            };
            (status, info_fail(m))
        },
        InfoOutcome::TimedOut => (504, info_fail("info request timed out".to_owned())),
    }
}

// ── Laws ──────────────────────────────────────────────────────────────────

/// A device is asked for its identification exactly where it is connected and does not
/// collect; else the answer is `503` and says which of the two it is.
pub proof fn law_who_is_asked(s: StateText)
    ensures
        info_refusal(s) is None <==> s.serial_connected && !s.collection_running,
        !s.serial_connected ==> info_refusal(s) == Some(
            (
                503u16,
                InfoResultText::Failed {
                    success: false,
                    message: "ESP32 disconnected; serial command unavailable"@,
                },
            ),
        ),
        s.serial_connected && s.collection_running ==> info_refusal(s) == Some(
            (
                503u16,
                InfoResultText::Failed {
                    success: false,
                    message: "Collection is running; stop it first to query info"@,
                },
            ),
        ),
{
}

/// Whether `part` is a stretch of `s`.
pub open spec fn stretch(s: Seq<char>, part: Seq<char>) -> bool {
    exists|i: int|
        0 <= i && i + part.len() <= s.len() && #[trigger] s.subrange(i, i + part.len()) == part
}

/// An identification comes back as it is, with `200`. A failure comes back with its own
/// words: `503` where a collection has locked the CLI or the serial task is gone, `504`
/// where nothing came in time or what came is not the firmware, `502` for anything else.
pub proof fn law_answers_of_identification(outcome: InfoOutcome)
    ensures
        outcome matches InfoOutcome::Answered(Ok(i)) ==> info_answer(outcome) == (
            200u16,
            InfoResultText::Info(i@),
        ),
        outcome is NotQueued ==> info_answer(outcome) == (
            503u16,
            (InfoResultText::Failed { success: false, message: "Serial task is shutting down"@ }),
        ),
        outcome is TimedOut ==> info_answer(outcome) == (
            504u16,
            (InfoResultText::Failed { success: false, message: "info request timed out"@ }),
        ),
        outcome matches InfoOutcome::Answered(Err(m)) ==> {
            &&& info_answer(outcome).1 == (InfoResultText::Failed { success: false, message: m@ })
            &&& m@ == "collection is running; CLI is locked until stop"@ ==> info_answer(outcome).0
                == 503
            &&& m@ != "collection is running; CLI is locked until stop"@ ==> info_answer(outcome).0
                == if stretch(m@, "timed out"@) || stretch(m@, "not esp-csi-cli-rs"@) || stretch(
                m@,
                "magic prefix"@,
            ) {
                504u16
            } else {
                502u16
            }
        },
{
    if let InfoOutcome::Answered(Err(m)) = outcome {
        text::law_holding(m@, "timed out"@);
        text::law_holding(m@, "not esp-csi-cli-rs"@);
        text::law_holding(m@, "magic prefix"@);
    }
}

/// An answer shows its status and its body.
pub proof fn law_answers_show_their_fields(status: u16, r: InfoResult)
    ensures
        answer_view(None) is None,
        answer_view(Some((status, r))) == Some((status, r@)),
        r matches InfoResult::Info(i) ==> r@ == InfoResultText::Info(i@),
        r matches InfoResult::Failed(e) ==> r@ == (InfoResultText::Failed {
            success: e.success,
            message: e.message@,
        }),
{
}

} // verus!
