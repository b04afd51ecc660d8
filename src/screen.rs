use vstd::prelude::*;

use crate::gui::Popup;

verus! {

/// The top-level screens.
#[derive(Clone, Copy, Debug, PartialEq, Eq, Structural)]
pub enum ScreenType {
    Menu,
    Battle,
    ShuttingDown,
}

/// Whether an input consumer claimed an event.
#[derive(Clone, Copy, Debug, PartialEq, Eq, Structural)]
pub enum EventStatus {
    Handled,
    NotHandled,
}

/// A request that a consumer issues while handling an event; requests are
/// carried out after the dispatch pass, in the order in which they were issued.
#[derive(Debug)]
pub enum ScreenCommand {
    ChangeScreen(ScreenType),
    PopPopup,
    PushPopup(Popup),
}

} // verus!
