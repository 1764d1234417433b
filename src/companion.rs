//! Messages exchanged with a control-surface server.
use vstd::prelude::*;

verus! {

/// An action sent to the control-surface server.
#[derive(Debug, Clone, PartialEq)]
pub enum CompanionAction {
    /// Change the layout.
    SetLayout { layout: String },
    /// Route an input to an output.
    Route { input: String, output: String },
    /// Remove the route of an output.
    Unroute { output: String },
    /// Refresh the list of sources.
    RefreshSources,
    /// Press a button.
    PressButton { page: u8, bank: u8 },
    /// Set a button's text.
    SetButtonText { page: u8, bank: u8, text: String },
    /// Set a button's color.
    SetButtonColor { page: u8, bank: u8, color: String },
}

/// State reported back by the control-surface server.
#[derive(Debug, Clone, PartialEq)]
pub struct CompanionFeedback {
    /// The current layout, if any.
    pub layout: Option<String>,
    /// The active routes.
    pub routes: Vec<CompanionRoute>,
    /// The available sources.
    pub sources: Vec<String>,
}

/// A route as the control-surface server reports it.
#[derive(Debug, Clone, PartialEq)]
pub struct CompanionRoute {
    pub input: String,
    pub output: String,
}

} // verus!
