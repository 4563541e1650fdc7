//! Popup menus: a named tree of menu entries and the request a widget
//! raises to have one opened at a position.

use vstd::prelude::*;

verus! {

/// One menu: its id, its display name, and its entries, which are menus
/// themselves.
pub struct PopupMenu {
    pub id: usize,
    pub name: String,
    pub items: Vec<PopupMenu>,
}

impl PopupMenu {
    /// An empty menu with the given id and name.
    pub fn new(id: usize, name: &str) -> (r: PopupMenu)
        ensures
            r.id == id,
            r.name@ == name@,
            r.items@.len() == 0,
    {
        PopupMenu { id, name: name.to_owned(), items: Vec::new() }
    }

    /// Append a plain entry.
    pub fn with_item(self, id: usize, name: &str) -> (r: PopupMenu)
        ensures
            r.id == self.id,
            r.name == self.name,
            r.items@.len() == self.items@.len() + 1,
            r.items@.subrange(0, self.items@.len() as int) == self.items@,
            r.items@.last().id == id,
            r.items@.last().name@ == name@,
            r.items@.last().items@.len() == 0,
    {
        let mut items = self.items;
        items.push(PopupMenu::new(id, name));
        proof {
            assert(items@.subrange(0, self.items@.len() as int) =~= self.items@);
        }
        PopupMenu { items, ..self }
    }

    /// Append a sub menu.
    pub fn with_sub_menu(self, sub_menu: PopupMenu) -> (r: PopupMenu)
        ensures
            r.id == self.id,
            r.name == self.name,
            r.items@ == self.items@.push(sub_menu),
    {
        let mut items = self.items;
        items.push(sub_menu);
        PopupMenu { items, ..self }
    }

    /// Whether the menu has any entries.
    pub fn has_sub_menu_items(&self) -> (r: bool)
        ensures
            r == (self.items@.len() > 0),
    {
        self.items.len() > 0
    }
}

/// A widget shown for an open menu. A placeholder in this toolkit: it
/// keeps the menu's activation state but draws nothing yet.
pub struct PopupMenuWidget {
    pub active: bool,
    pub children: Vec<PopupMenuWidget>,
}

impl PopupMenuWidget {
    /// The widget for a freshly opened menu.
    pub fn new(request: PopupMenu) -> (r: PopupMenuWidget)
        ensures
            r.active,
            r.children@.len() == 0,
    {
        let _ = request;
        PopupMenuWidget { active: true, children: Vec::new() }
    }
}

/// A request to open a popup menu. The application resolves the chosen
/// entry through the menu and sub-menu ids it is handed back.
pub struct PopupRequest<State> {
    pub menu: PopupMenu,
    pub marker: core::marker::PhantomData<State>,
}

impl<State> PopupRequest<State> {
    pub fn new(menu: PopupMenu) -> (r: PopupRequest<State>)
        ensures
            r.menu == menu,
    {
        PopupRequest { menu, marker: core::marker::PhantomData }
    }
}

} // verus!
