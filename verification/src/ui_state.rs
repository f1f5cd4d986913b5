//! Plain state of the surrounding user interface: the active tab and the
//! menu bar's session fields.  Drawing them belongs to the presentation
//! layer outside the library.

use vstd::prelude::*;

verus! {

/// The tab the editor window shows.
#[derive(PartialEq, Eq, Structural, Clone, Copy, Debug)]
pub enum Tab {
    Editor,
    Export,
    Settings,
    Help,
}

/// The tab selection state.
pub struct Tabs {
    pub current_tab: Tab,
}

impl Tabs {
    /// Start on the editor tab.
    pub fn new() -> (r: Tabs)
        ensures
            r.current_tab == Tab::Editor,
    {
        Tabs { current_tab: Tab::Editor }
    }

    /// Switch to the given tab.
    pub fn set_tab(&mut self, tab: Tab)
        ensures
            final(self).current_tab == tab,
    {
        self.current_tab = tab;
    }

    /// The tab currently shown.
    pub fn get_current_tab(&self) -> (r: &Tab)
        ensures
            *r == self.current_tab,
    {
        &self.current_tab
    }
}

/// The session fields the menu bar shows: the workflow id and whether the
/// graph holds unsaved changes.
pub struct MenuBar {
    pub workflow_id: String,
    pub dirty: bool,
}

impl MenuBar {
    /// Create the menu bar state.
    pub fn new(workflow_id: String, dirty: bool) -> (r: MenuBar)
        ensures
            r.workflow_id@ == workflow_id@,
            r.dirty == dirty,
    {
        MenuBar { workflow_id, dirty }
    }
}

} // verus!
