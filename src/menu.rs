//! The state that the overlay's menu reads: whether it is shown, and which of
//! its tabs is open.
use vstd::prelude::*;

verus! {

/// The tabs of the menu.
#[derive(Clone, Copy, Debug, PartialEq, Eq, Structural)]
pub enum Tab {
    Visuals,
    Misc,
}

/// Settings of the miscellaneous tab; it has none yet.
#[derive(Clone, Copy, Debug, PartialEq, Eq, Structural)]
pub struct MiscSettings {}

impl Default for MiscSettings {
    fn default() -> (r: MiscSettings)
        ensures
            r == (MiscSettings {}),
    {
        MiscSettings {}
    }
}

/// Whether the menu is shown. It starts shown.
pub struct MenuState {
    visible: bool,
}

impl MenuState {
    pub closed spec fn shown(&self) -> bool {
        self.visible
    }

    pub fn new() -> (r: MenuState)
        ensures
            r.shown(),
    {
        MenuState { visible: true }
    }
}

/// Shows a hidden menu, hides a shown one.
pub fn toggle_menu(menu: &mut MenuState)
    ensures
        final(menu).shown() == !old(menu).shown(),
{
    menu.visible = !menu.visible;
}

pub fn is_menu_visible(menu: &MenuState) -> (r: bool)
    ensures
        r == menu.shown(),
{
    menu.visible
}

} // verus!
