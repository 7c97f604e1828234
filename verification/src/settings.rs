//! Settings overlay state: which sidebar tab is shown and where closing
//! the overlay returns to.

use vstd::prelude::*;

verus! {

/// Where to return when the settings overlay closes.
#[derive(Clone, Copy, Debug, PartialEq, Eq, Structural)]
pub enum SettingsReturn {
    Menu,
    Pause,
}

impl Default for SettingsReturn {
    fn default() -> (r: SettingsReturn)
        ensures
            r == SettingsReturn::Menu,
    {
        SettingsReturn::Menu
    }
}

/// Overlay session for settings, independent of the current screen so the
/// pause menu can open settings without leaving the game.
#[derive(Clone, Copy, Debug, PartialEq, Eq, Structural)]
pub struct SettingsSession {
    pub open: bool,
    pub return_to: SettingsReturn,
}

impl Default for SettingsSession {
    fn default() -> (r: SettingsSession)
        ensures
            !r.open,
            r.return_to == SettingsReturn::Menu,
    {
        SettingsSession { open: false, return_to: SettingsReturn::Menu }
    }
}

impl SettingsSession {
    /// Opens the overlay, remembering where to return.
    pub fn open_from(&mut self, return_to: SettingsReturn)
        ensures
            final(self).open,
            final(self).return_to == return_to,
    {
        self.open = true;
        self.return_to = return_to;
    }

    /// Closes the overlay; the return target is kept.
    pub fn close(&mut self)
        ensures
            !final(self).open,
            final(self).return_to == old(self).return_to,
    {
        self.open = false;
    }
}

/// One of the panels shown in the settings sidebar, in sidebar order.
#[derive(Clone, Copy, Debug, PartialEq, Eq, Structural, Hash)]
pub enum SettingsTab {
    General,
    Graphics,
    Gameplay,
    Keybinds,
}

impl Default for SettingsTab {
    fn default() -> (r: SettingsTab)
        ensures
            r == SettingsTab::General,
    {
        SettingsTab::General
    }
}

impl SettingsTab {
    /// All tabs in sidebar order.
    pub const ALL: [SettingsTab; 4] = [
        SettingsTab::General,
        SettingsTab::Graphics,
        SettingsTab::Gameplay,
        SettingsTab::Keybinds,
    ];

    /// Sidebar label shown to the player.
    pub open spec fn label_text(self) -> Seq<char> {
        match self {
            SettingsTab::General => "General"@,
            SettingsTab::Graphics => "Graphics"@,
            SettingsTab::Gameplay => "Gameplay"@,
            SettingsTab::Keybinds => "Keybinds"@,
        }
    }

    /// Sidebar label shown to the player.
    pub fn label(self) -> (r: &'static str)
        ensures
            r@ == self.label_text(),
    {
        match self {
            SettingsTab::General => "General",
            SettingsTab::Graphics => "Graphics",
            SettingsTab::Gameplay => "Gameplay",
            SettingsTab::Keybinds => "Keybinds",
        }
    }
}

/// Root of one settings panel; shown only while its tab is active.
#[derive(Clone, Copy, Debug, PartialEq, Eq, Structural)]
pub enum SettingsPanel {
    General,
    Graphics,
    Gameplay,
    Keybinds,
}

impl SettingsPanel {
    /// The tab that shows this panel.
    pub open spec fn tab(self) -> SettingsTab {
        match self {
            SettingsPanel::General => SettingsTab::General,
            SettingsPanel::Graphics => SettingsTab::Graphics,
            SettingsPanel::Gameplay => SettingsTab::Gameplay,
            SettingsPanel::Keybinds => SettingsTab::Keybinds,
        }
    }

    /// Whether this panel belongs to `tab`.
    pub fn matches(self, tab: SettingsTab) -> (r: bool)
        ensures
            r == (self.tab() == tab),
    {
        match (self, tab) {
            (SettingsPanel::General, SettingsTab::General) => true,
            (SettingsPanel::Graphics, SettingsTab::Graphics) => true,
            (SettingsPanel::Gameplay, SettingsTab::Gameplay) => true,
            (SettingsPanel::Keybinds, SettingsTab::Keybinds) => true,
            _ => false,
        }
    }
}

/// Every tab shows exactly one panel, and every panel belongs to exactly one tab.
pub proof fn lemma_one_panel_per_tab(tab: SettingsTab)
    ensures
        exists|panel: SettingsPanel| #[trigger] panel.tab() == tab,
        forall|a: SettingsPanel, b: SettingsPanel| a.tab() == tab && b.tab() == tab ==> a == b,
{
    let panel = match tab {
        SettingsTab::General => SettingsPanel::General,
        SettingsTab::Graphics => SettingsPanel::Graphics,
        SettingsTab::Gameplay => SettingsPanel::Gameplay,
        SettingsTab::Keybinds => SettingsPanel::Keybinds,
    };
    assert(panel.tab() == tab);
}

} // verus!
