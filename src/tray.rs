use vstd::prelude::*;

use crate::notifier::Event;
use crate::registry::SourceEntry;

verus! {

pub const MENU_ID_EXIT: usize = 1001;

pub const MENU_ID_CLEAR_KNOWN: usize = 1002;

pub const MENU_ID_SEPARATOR: usize = 1003;

/// The id of the first source item; the others follow in registry order.
pub const MENU_ID_FIRST_SOURCE: usize = 1004;

#[derive(Clone, Copy, Debug, PartialEq, Eq, Structural)]
pub enum MenuItemKind {
    /// A source, checked when its notifications are shown.
    Source { checked: bool },
    Separator,
    /// A plain command such as "Clear known" or "Exit".
    Command,
}

/// One line of the tray menu.
pub struct MenuItem {
    pub id: usize,
    pub label: String,
    pub kind: MenuItemKind,
}

pub struct MenuItemView {
    pub id: usize,
    pub label: Seq<char>,
    pub kind: MenuItemKind,
}

impl View for MenuItem {
    type V = MenuItemView;

    open spec fn view(&self) -> MenuItemView {
        MenuItemView { id: self.id, label: self.label@, kind: self.kind }
    }
}

pub open spec fn source_item(i: int, e: (Seq<char>, bool)) -> MenuItemView {
    MenuItemView {
        id: (MENU_ID_FIRST_SOURCE + i) as usize,
        label: e.0,
        kind: MenuItemKind::Source { checked: e.1 },
    }
}

/// The menu for `entries`: one checkable item per source in order, then a
/// separator, "Clear known" and "Exit".
pub open spec fn menu_spec(entries: Seq<(Seq<char>, bool)>) -> Seq<MenuItemView> {
    Seq::new(entries.len(), |i: int| source_item(i, entries[i])) + seq![
        MenuItemView { id: MENU_ID_SEPARATOR, label: Seq::empty(), kind: MenuItemKind::Separator },
        MenuItemView {
            id: MENU_ID_CLEAR_KNOWN,
            label: "Clear known"@,
            kind: MenuItemKind::Command,
        },
        MenuItemView { id: MENU_ID_EXIT, label: "Exit"@, kind: MenuItemKind::Command },
    ]
}

pub open spec fn menu_views(items: Seq<MenuItem>) -> Seq<MenuItemView> {
    items.map_values(|m: MenuItem| m@)
}

/// The tray menu, regenerated from the registry's entries.
pub fn menu_items(entries: &Vec<SourceEntry>) -> (r: Vec<MenuItem>)
    requires
        entries.len() <= usize::MAX - MENU_ID_FIRST_SOURCE,
    ensures
        menu_views(r@) == menu_spec(entries@.map_values(|e: SourceEntry| e@)),
{
    let ghost ev = entries@.map_values(|e: SourceEntry| e@);
    let mut items: Vec<MenuItem> = Vec::new();
    let mut i: usize = 0;
    while i < entries.len()
        invariant
            i <= entries.len() <= usize::MAX - MENU_ID_FIRST_SOURCE,
            ev == entries@.map_values(|e: SourceEntry| e@),
            items@.len() == i,
            menu_views(items@) == Seq::new(i as nat, |k: int| source_item(k, ev[k])),
        decreases entries.len() - i,
    {
        let ghost before = items@;
        let e = &entries[i];
        items.push(
            MenuItem {
                id: MENU_ID_FIRST_SOURCE + i,
                label: e.source_id.clone(),
                kind: MenuItemKind::Source { checked: e.enabled },
            },
        );
        assert(ev[i as int] == e@);
        assert(items@[i as int]@ == source_item(i as int, ev[i as int]));
        assert(menu_views(items@) =~= menu_views(before).push(source_item(i as int, ev[i as int])));
        assert(menu_views(items@) =~= Seq::new((i + 1) as nat, |k: int| source_item(k, ev[k])));
        i += 1;
    }
    items.push(MenuItem { id: MENU_ID_SEPARATOR, label: String::new(), kind: MenuItemKind::Separator });
    items.push(
        MenuItem {
            id: MENU_ID_CLEAR_KNOWN,
            label: String::from_str("Clear known"),
            kind: MenuItemKind::Command,
        },
    );
    items.push(
        MenuItem { id: MENU_ID_EXIT, label: String::from_str("Exit"), kind: MenuItemKind::Command },
    );
    assert(menu_views(items@) =~= menu_spec(ev));
    items
}

/// The event a click on the menu item `id` sends, if any.
pub open spec fn command_for_menu_id_spec(id: usize) -> Option<Event> {
    if id == MENU_ID_EXIT {
        Some(Event::Quit)
    } else if id == MENU_ID_CLEAR_KNOWN {
        Some(Event::ClearKnown)
    } else if id >= MENU_ID_FIRST_SOURCE {
        Some(Event::ToggleSource((id - MENU_ID_FIRST_SOURCE) as usize))
    } else {
        None
    }
}

/// The event a click on the menu item `id` sends: exit, clear, or the toggle
/// of the source at that position; nothing for any other id.
pub fn command_for_menu_id(id: usize) -> (r: Option<Event>)
    ensures
        r == command_for_menu_id_spec(id),
{
    if id == MENU_ID_EXIT {
        Some(Event::Quit)
    } else if id == MENU_ID_CLEAR_KNOWN {
        Some(Event::ClearKnown)
    } else if id >= MENU_ID_FIRST_SOURCE {
        Some(Event::ToggleSource(id - MENU_ID_FIRST_SOURCE))
    } else {
        None
    }
}

} // verus!
