//! Native app menu actions: File (New/Open), View (Easy/Expert/Archive) and Mode (Splats/Dots/Discs).

use vstd::prelude::*;

use crate::text::str_is;

verus! {

broadcast use vstd::string::group_string_axioms;

#[derive(Debug, Clone, Copy, PartialEq, Eq, Structural)]
pub enum MenuAction {
    ViewEasy,
    ViewExpert,
    ViewArchive,
    Settings,
    FileNew,
    FileOpen,
    ModeSplats,
    ModeDots,
    ModeDiscs,
}

/// The menu item id of each action.
pub open spec fn action_id(a: MenuAction) -> Seq<char> {
    match a {
        MenuAction::ViewEasy => "view-easy"@,
        MenuAction::ViewExpert => "view-expert"@,
        MenuAction::ViewArchive => "view-archive"@,
        MenuAction::Settings => "view-settings"@,
        MenuAction::FileNew => "file-new"@,
        MenuAction::FileOpen => "file-open"@,
        MenuAction::ModeSplats => "mode-splats"@,
        MenuAction::ModeDots => "mode-dots"@,
        MenuAction::ModeDiscs => "mode-discs"@,
    }
}

/// The frontend event (name, payload) each action emits; `Settings` carries no payload.
pub open spec fn action_event(a: MenuAction) -> (Seq<char>, Option<Seq<char>>) {
    match a {
        MenuAction::ViewEasy => ("menu-view"@, Some("easy"@)),
        MenuAction::ViewExpert => ("menu-view"@, Some("expert"@)),
        MenuAction::ViewArchive => ("menu-view"@, Some("archive"@)),
        MenuAction::Settings => ("menu-settings"@, None),
        MenuAction::FileNew => ("menu-project"@, Some("new"@)),
        MenuAction::FileOpen => ("menu-project"@, Some("open"@)),
        MenuAction::ModeSplats => ("menu-mode"@, Some("splats"@)),
        MenuAction::ModeDots => ("menu-mode"@, Some("dots"@)),
        MenuAction::ModeDiscs => ("menu-mode"@, Some("discs"@)),
    }
}

/// Maps a menu item id to a frontend action.
pub fn menu_action(id: &str) -> (r: Option<MenuAction>)
    ensures
        r matches Some(a) ==> action_id(a) == id@,
        r is None ==> forall|a: MenuAction| #[trigger] action_id(a) != id@,
{
    if str_is(id, "view-easy") {
        Some(MenuAction::ViewEasy)
    } else if str_is(id, "view-expert") {
        Some(MenuAction::ViewExpert)
    } else if str_is(id, "view-archive") {
        Some(MenuAction::ViewArchive)
    } else if str_is(id, "view-settings") {
        Some(MenuAction::Settings)
    } else if str_is(id, "file-new") {
        Some(MenuAction::FileNew)
    } else if str_is(id, "file-open") {
        Some(MenuAction::FileOpen)
    } else if str_is(id, "mode-splats") {
        Some(MenuAction::ModeSplats)
    } else if str_is(id, "mode-dots") {
        Some(MenuAction::ModeDots)
    } else if str_is(id, "mode-discs") {
        Some(MenuAction::ModeDiscs)
    } else {
        None
    }
}

impl MenuAction {
    /// Event name and payload the webview receives for this action.
    pub fn event(self) -> (r: (&'static str, Option<&'static str>))
        ensures
            r.0@ == action_event(self).0,
            r.1 is Some <==> action_event(self).1 is Some,
            r.1 matches Some(p) ==> action_event(self).1 == Some(p@),
    {
        match self {
            MenuAction::ViewEasy => ("menu-view", Some("easy")),
            MenuAction::ViewExpert => ("menu-view", Some("expert")),
            MenuAction::ViewArchive => ("menu-view", Some("archive")),
            MenuAction::Settings => ("menu-settings", None),
            MenuAction::FileNew => ("menu-project", Some("new")),
            MenuAction::FileOpen => ("menu-project", Some("open")),
            MenuAction::ModeSplats => ("menu-mode", Some("splats")),
            MenuAction::ModeDots => ("menu-mode", Some("dots")),
            MenuAction::ModeDiscs => ("menu-mode", Some("discs")),
        }
    }
}

/// Every action's own id maps back to it.
pub proof fn law_menu_ids_round_trip(a: MenuAction)
    ensures
        forall|b: MenuAction| #[trigger] action_id(b) == action_id(a) ==> b == a,
{
    assert forall|b: MenuAction| #[trigger] action_id(b) == action_id(a) implies b == a by {
        reveal_strlit("view-easy");
        reveal_strlit("view-expert");
        reveal_strlit("view-archive");
        reveal_strlit("view-settings");
        reveal_strlit("file-new");
        reveal_strlit("file-open");
        reveal_strlit("mode-splats");
        reveal_strlit("mode-dots");
        reveal_strlit("mode-discs");
        assert(action_id(b).len() == action_id(a).len());
        assert(action_id(b)[0] == action_id(a)[0]);
    }
}

} // verus!
