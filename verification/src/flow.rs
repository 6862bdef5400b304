//! The decisions of a capture request: the screenshot portal is asked
//! first, the session's command-line tools only when no portal answers, and
//! a request the user dismissed ends quietly, neither reported as a failure
//! nor retried another way.

use vstd::prelude::*;

verus! {

/// How a screenshot portal request ended.
pub enum PortalOutcome {
    /// The portal wrote a capture, identified by its URI.
    Captured(String),
    /// The user dismissed the portal's selection UI.
    Cancelled,
    /// No portal implementation answered on the session bus.
    Unavailable,
    /// A portal answered but reported a failure.
    Failed(String),
}

/// How a command-line fallback capture ended.
pub enum FallbackOutcome {
    /// A tool wrote a capture, identified by its URI.
    Captured(String),
    /// The user dismissed a tool's selection UI.
    Cancelled,
    /// No tool produced an image; the message says why.
    Failed(String),
}

/// What the capture flow does next.
pub enum CaptureAction {
    /// Hand the capture at `uri` to the save or preview stage;
    /// `temporary` when it lives in a private directory to clean up.
    Deliver { uri: String, temporary: bool },
    /// Run the command-line fallback tools.
    TryFallback,
    /// End the request without a capture and without an error.
    Stop,
    /// End the request, reporting that the portal failed with the message.
    ReportPortalError(String),
    /// End the request, reporting that no tool could capture.
    ReportFallbackError(String),
}

/// The next step after the portal request.
pub fn after_portal(outcome: PortalOutcome) -> (action: CaptureAction)
    ensures
        match outcome {
            PortalOutcome::Captured(uri) => action matches CaptureAction::Deliver { uri: u, temporary }
                && u@ == uri@ && !temporary,
            PortalOutcome::Cancelled => action is Stop,
            PortalOutcome::Unavailable => action is TryFallback,
            PortalOutcome::Failed(msg) => action matches CaptureAction::ReportPortalError(m) && m@ == msg@,
        },
{
    match outcome {
        PortalOutcome::Captured(uri) => CaptureAction::Deliver { uri, temporary: false },
        PortalOutcome::Cancelled => CaptureAction::Stop,
        PortalOutcome::Unavailable => CaptureAction::TryFallback,
        PortalOutcome::Failed(msg) => CaptureAction::ReportPortalError(msg),
    }
}

/// The next step after the command-line fallback; the flow never falls back
/// twice.
pub fn after_fallback(outcome: FallbackOutcome) -> (action: CaptureAction)
    ensures
        match outcome {
            FallbackOutcome::Captured(uri) => action matches CaptureAction::Deliver { uri: u, temporary }
                && u@ == uri@ && temporary,
            FallbackOutcome::Cancelled => action is Stop,
            FallbackOutcome::Failed(msg) => action matches CaptureAction::ReportFallbackError(m) && m@
                == msg@,
        },
        !(action is TryFallback),
{
    match outcome {
        FallbackOutcome::Captured(uri) => CaptureAction::Deliver { uri, temporary: true },
        FallbackOutcome::Cancelled => CaptureAction::Stop,
        FallbackOutcome::Failed(msg) => CaptureAction::ReportFallbackError(msg),
    }
}

} // verus!
