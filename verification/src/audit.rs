//! Audit vocabulary for monitoring: event kinds, skipped strategy runs and control summaries.

use crate::events::ControlEvent;
use vstd::prelude::*;

verus! {

/// Final audit marker returned at shutdown.
#[derive(Clone, Copy, Debug, Default)]
pub struct ShutdownAudit;

/// Summary of a control command.
#[derive(Clone, Copy, Debug, PartialEq, Eq, Structural)]
pub enum ControlEventSummary {
    /// Operator pause.
    Pause,
    /// Operator resume.
    Resume,
    /// Cancel all working orders.
    CancelAll,
    /// Flatten positions.
    Flatten,
    /// Disable algorithmic trading.
    DisableTrading,
    /// Re-enable algorithmic trading.
    EnableTrading,
}

/// The summary of a control command: the variant of the same name.
pub open spec fn summary_of(c: ControlEvent) -> ControlEventSummary {
    match c {
        ControlEvent::Pause => ControlEventSummary::Pause,
        ControlEvent::Resume => ControlEventSummary::Resume,
        ControlEvent::CancelAll => ControlEventSummary::CancelAll,
        ControlEvent::Flatten => ControlEventSummary::Flatten,
        ControlEvent::DisableTrading => ControlEventSummary::DisableTrading,
        ControlEvent::EnableTrading => ControlEventSummary::EnableTrading,
    }
}

impl<'a> From<&'a ControlEvent> for ControlEventSummary {
    fn from(c: &'a ControlEvent) -> (r: Self) {
        match c {
            ControlEvent::Pause => ControlEventSummary::Pause,
            ControlEvent::Resume => ControlEventSummary::Resume,
            ControlEvent::CancelAll => ControlEventSummary::CancelAll,
            ControlEvent::Flatten => ControlEventSummary::Flatten,
            ControlEvent::DisableTrading => ControlEventSummary::DisableTrading,
            ControlEvent::EnableTrading => ControlEventSummary::EnableTrading,
        }
    }
}

impl<'a> vstd::std_specs::convert::FromSpecImpl<&'a ControlEvent> for ControlEventSummary {
    open spec fn obeys_from_spec() -> bool {
        true
    }

    open spec fn from_spec(v: &'a ControlEvent) -> Self {
        summary_of(*v)
    }
}

/// Coarse event kind for audits.
#[derive(Clone, Copy, Debug, PartialEq, Eq, Structural)]
pub enum EngineAuditEventKind {
    /// Public market data.
    Market,
    /// Account or execution feedback.
    Account,
    /// Control-plane event.
    Control,
    /// Timer tick.
    Timer,
}

/// Why the strategy hook was not run for a tick.
#[derive(Clone, Copy, Debug, PartialEq, Eq, Structural)]
pub enum StrategySkipReason {
    /// Operator pause.
    Paused,
    /// Algorithmic trading off.
    TradingDisabled,
}

} // verus!
