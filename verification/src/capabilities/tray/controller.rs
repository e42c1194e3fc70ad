//! [`TrayController`]: the `mantle.tray` write-action dispatcher and state owner.

use vstd::prelude::*;

use super::item::TrayItem;
use crate::text;

verus! {

/// What a name on the bus starts with when it is an item's, claimed before the item registers. Both
/// the KDE and the Chromium spelling; the trailing `-` leaves out the watcher and names that merely
/// share the prefix.
pub open spec fn names_item(name: Seq<char>) -> bool {
    text::starts_with(name, "org.kde.StatusNotifierItem-"@) || text::starts_with(
        name,
        "org.freedesktop.StatusNotifierItem-"@,
    )
}

/// Whether `name` is an item's well-known name.
pub fn is_item_bus_name(name: &str) -> (is_one: bool)
    ensures
        is_one == names_item(name@),
{
    text::str_starts_with(name, "org.kde.StatusNotifierItem-") || text::str_starts_with(
        name,
        "org.freedesktop.StatusNotifierItem-",
    )
}

/// The names on a bus that are items'.
pub open spec fn items_among(names: Seq<Seq<char>>) -> Seq<Seq<char>>
    decreases names.len(),
{
    if names.len() == 0 {
        Seq::empty()
    } else if names_item(names.last()) {
        items_among(names.drop_last()).push(names.last())
    } else {
        items_among(names.drop_last())
    }
}

/// The items already on the bus when this host starts. An item is expected to register again when a
/// host does, but not every one does.
pub fn adoptable(names: &Vec<String>) -> (items: Vec<String>)
    ensures
        text::strings(items@) == items_among(text::strings(names@)),
{
    let ghost views = text::strings(names@);
    let mut items: Vec<String> = Vec::new();
    let mut i: usize = 0;
    assert(views.subrange(0, 0) =~= Seq::<Seq<char>>::empty());
    assert(text::strings(items@) =~= Seq::<Seq<char>>::empty());
    while i < names.len()
        invariant
            i <= names@.len(),
            views == text::strings(names@),
            text::strings(items@) == items_among(views.subrange(0, i as int)),
        decreases names@.len() - i,
    {
        let ghost before = items@;
        assert(views.subrange(0, i + 1).drop_last() =~= views.subrange(0, i as int));
        assert(views.subrange(0, i + 1).last() == names@[i as int]@);
        if is_item_bus_name(names[i].as_str()) {
            items.push(names[i].clone());
            assert(text::strings(items@) =~= text::strings(before).push(names@[i as int]@));
        }
        i += 1;
    }
    assert(views.subrange(0, i as int) =~= views);
    items
}

/// Object paths an item that never named one might be exporting at, tried in order until one answers.
/// Adoption has no registration argument to read, so the default is a guess, and the wrong one for
/// every Chromium application.
pub open spec fn adoption_paths(default_path: Seq<char>) -> Seq<Seq<char>> {
    seq![default_path, "/StatusNotifierItem/1"@, "/org/chromium/StatusNotifierItem/1"@]
}

/// What to do about an item to adopt.
#[derive(Debug, PartialEq, Eq)]
pub enum AdoptionStep {
    /// Register it at this path.
    Try(String),
    /// No path answered: what each said.
    GiveUp(String),
}

/// The next step for an item whose paths so far gave these refusals.
pub fn adoption_step(default_path: &str, refusals: &Vec<&str>) -> (step: AdoptionStep)
    requires
        refusals@.len() <= 3,
    ensures
        if refusals@.len() < 3 {
            step matches AdoptionStep::Try(path) && path@ == adoption_paths(default_path@)[refusals@.len() as int]
        } else {
            step matches AdoptionStep::GiveUp(message) && message@ == text::join(text::texts(refusals@), "; "@)
        },
{
    let n: usize = refusals.len();
    if n == 0 {
        AdoptionStep::Try(default_path.to_owned())
    } else if n == 1 {
        AdoptionStep::Try("/StatusNotifierItem/1".to_owned())
    } else if n == 2 {
        AdoptionStep::Try("/org/chromium/StatusNotifierItem/1".to_owned())
    } else {
        AdoptionStep::GiveUp(text::join_strs(refusals, "; "))
    }
}

/// A registered item: what is known of it, and whether it has a menu to ask.
#[derive(Debug)]
pub struct ItemEntry<M> {
    pub last_known: TrayItem<M>,
    pub has_menu: bool,
}

/// What the item is asked.
#[derive(Debug, PartialEq, Eq)]
pub enum TrayCall {
    /// No item has the id, or it cannot take the call.
    Nothing,
    Activate { x: i32, y: i32 },
    SecondaryActivate { x: i32, y: i32 },
    Scroll { delta: i32, orientation: String },
    /// A `"clicked"` event for a menu entry.
    MenuEvent { menu_item_id: i32 },
    /// That a submenu is about to show, its cue to fill it.
    AboutToShow { submenu_id: i32 },
}

/// The tray's items.
#[derive(Debug)]
pub struct TrayController<M> {
    registry: Vec<ItemEntry<M>>,
}

/// The first item, from one on, that has an id.
pub open spec fn place_from<M>(registry: Seq<ItemEntry<M>>, id: Seq<char>, from: int) -> Option<int>
    decreases registry.len() - from,
{
    if from < 0 || from >= registry.len() {
        None
    } else if registry[from].last_known.id@ == id {
        Some(from)
    } else {
        place_from(registry, id, from + 1)
    }
}

impl<M> TrayController<M> {
    pub closed spec fn spec_registry(self) -> Seq<ItemEntry<M>> {
        self.registry@
    }

    pub open spec fn place(self, id: Seq<char>) -> Option<int> {
        place_from(self.spec_registry(), id, 0)
    }

    /// No items: a live controller that has none, or one whose bus could not be had.
    pub fn inert() -> (controller: Self)
        ensures
            controller.spec_registry().len() == 0,
    {
        TrayController { registry: Vec::new() }
    }

    fn find(&self, id: &str) -> (at: Option<usize>)
        ensures
            match at {
                Some(i) => i < self.registry@.len() && self.place(id@) == Some(i as int),
                None => self.place(id@) is None,
            },
    {
        let mut i: usize = 0;
        while i < self.registry.len()
            invariant
                i <= self.registry@.len(),
                place_from(self.registry@, id@, i as int) == place_from(self.registry@, id@, 0),
            decreases self.registry@.len() - i,
        {
            if text::same(self.registry[i].last_known.id.as_str(), id) {
                return Some(i);
            }
            i += 1;
        }
        None
    }

    /// Registers an item, over an earlier one of the same id.
    pub fn register(&mut self, entry: ItemEntry<M>)
        ensures
            final(self).spec_registry() == (match old(self).place(entry.last_known.id@) {
                Some(at) => old(self).spec_registry().update(at, entry),
                None => old(self).spec_registry().push(entry),
            }),
    {
        match self.find(entry.last_known.id.as_str()) {
            Some(at) => {
                let ghost before = self.registry@;
                self.registry.remove(at);
                self.registry.insert(at, entry);
                assert(self.registry@ =~= before.update(at as int, entry));
            },
            None => {
                self.registry.push(entry);
            },
        }
    }

    /// The items, in the order they registered.
    pub fn build_state(&self) -> (items: &Vec<ItemEntry<M>>)
        ensures
            items@ == self.spec_registry(),
    {
        &self.registry
    }

    /// `tray:activate(id, x, y)`. An item that is a menu is not activated, by its own account, here
    /// instead of in every config.
    pub fn activate(&self, id: &str, x: i32, y: i32) -> (call: TrayCall)
        ensures
            call == (match self.place(id@) {
                Some(at) => if self.spec_registry()[at].last_known.item_is_menu {
                    TrayCall::Nothing
                } else {
                    TrayCall::Activate { x, y }
                },
                None => TrayCall::Nothing,
            }),
    {
        match self.find(id) {
            Some(at) => if self.registry[at].last_known.item_is_menu {
                TrayCall::Nothing
            } else {
                TrayCall::Activate { x, y }
            },
            None => TrayCall::Nothing,
        }
    }

    /// `tray:secondary_activate(id, x, y)`: middle-click. Being a menu constrains primary clicks only.
    pub fn secondary_activate(&self, id: &str, x: i32, y: i32) -> (call: TrayCall)
        ensures
            call == (match self.place(id@) {
                Some(_) => TrayCall::SecondaryActivate { x, y },
                None => TrayCall::Nothing,
            }),
    {
        match self.find(id) {
            Some(_) => TrayCall::SecondaryActivate { x, y },
            None => TrayCall::Nothing,
        }
    }

    /// `tray:scroll(id, delta, orientation)`. The application interprets the orientation, including
    /// values beyond the two named ones.
    pub fn scroll(&self, id: &str, delta: i32, orientation: &str) -> (call: TrayCall)
        ensures
            match self.place(id@) {
                Some(_) => call matches TrayCall::Scroll { delta: d, orientation: o } && d == delta && o@
                    == orientation@,
                None => call is Nothing,
            },
    {
        match self.find(id) {
            Some(_) => TrayCall::Scroll { delta, orientation: orientation.to_owned() },
            None => TrayCall::Nothing,
        }
    }

    /// `tray:activate_menu_item(id, menu_item_id)`: a click on a menu entry, of an item that has a
    /// menu.
    pub fn activate_menu_item(&self, id: &str, menu_item_id: i32) -> (call: TrayCall)
        ensures
            call == (match self.place(id@) {
                Some(at) => if self.spec_registry()[at].has_menu {
                    TrayCall::MenuEvent { menu_item_id }
                } else {
                    TrayCall::Nothing
                },
                None => TrayCall::Nothing,
            }),
    {
        match self.find(id) {
            Some(at) => if self.registry[at].has_menu {
                TrayCall::MenuEvent { menu_item_id }
            } else {
                TrayCall::Nothing
            },
            None => TrayCall::Nothing,
        }
    }

    /// `tray:menu_will_show(id, submenu_id)`: asks the menu to fill the submenu; [`refetches`] says
    /// whether the whole menu is read again.
    pub fn menu_will_show(&self, id: &str, submenu_id: i32) -> (call: TrayCall)
        ensures
            call == (match self.place(id@) {
                Some(at) => if self.spec_registry()[at].has_menu {
                    TrayCall::AboutToShow { submenu_id }
                } else {
                    TrayCall::Nothing
                },
                None => TrayCall::Nothing,
            }),
    {
        match self.find(id) {
            Some(at) => if self.registry[at].has_menu {
                TrayCall::AboutToShow { submenu_id }
            } else {
                TrayCall::Nothing
            },
            None => TrayCall::Nothing,
        }
    }

    /// A menu was read again; whether it is pushed. An item that left meanwhile keeps none, and the
    /// push still goes out.
    pub fn menu_fetched(&mut self, id: &str, menu: Result<Vec<M>, String>) -> (push: bool)
        ensures
            push == (menu is Ok),
            match (menu, old(self).place(id@)) {
                (Ok(items), Some(at)) => final(self).spec_registry() == old(self).spec_registry().update(
                    at,
                    ItemEntry {
                        last_known: TrayItem { menu: Some(items), ..old(self).spec_registry()[at].last_known },
                        ..old(self).spec_registry()[at]
                    },
                ),
                _ => final(self).spec_registry() == old(self).spec_registry(),
            },
    {
        let items = match menu {
            Ok(items) => items,
            Err(_) => return false,
        };
        if let Some(at) = self.find(id) {
            let ghost before = self.registry@;
            let mut entry = self.registry.remove(at);
            entry.last_known.menu = Some(items);
            self.registry.insert(at, entry);
            assert(self.registry@ =~= before.update(at as int, entry));
        }
        true
    }
}

/// Whether a menu is read again after `AboutToShow` answered: unless the item says that nothing
/// changed. An error still reads it, since some items never implement the call.
pub fn refetches(answer: &Result<bool, String>) -> (again: bool)
    ensures
        again == (*answer != Ok::<bool, String>(false)),
{
    match answer {
        Ok(changed) => *changed,
        Err(_) => true,
    }
}

// ---- laws ----

/// Those adopted are the names of items, by either spelling and with something behind it, all of them
/// and in their order. Returns where they stand.
pub proof fn every_item_is_adopted(names: Seq<Seq<char>>) -> (at: Seq<int>)
    ensures
        at.len() == items_among(names).len(),
        forall|i: int| 0 <= i < at.len() ==> 0 <= #[trigger] at[i] < names.len() && (text::starts_with(names[at[i]], "org.kde.StatusNotifierItem-"@) || text::starts_with(names[at[i]], "org.freedesktop.StatusNotifierItem-"@)),
        forall|i: int| 0 <= i < at.len() ==> (items_among(names)[i] == names[#[trigger] at[i]]),
        forall|i: int, j: int| 0 <= i < j < at.len() ==> #[trigger] at[i] < #[trigger] at[j],
        forall|p: int| 0 <= p < names.len() && (text::starts_with((#[trigger] names[p]), "org.kde.StatusNotifierItem-"@) || text::starts_with((#[trigger] names[p]), "org.freedesktop.StatusNotifierItem-"@)) ==> at.contains(p),
    decreases names.len(),
{
    if names.len() == 0 {
        Seq::empty()
    } else {
        let shorter = names.drop_last();
        let n = names.len() - 1;
        let before = every_item_is_adopted(names.drop_last());
        assert forall|p: int| 0 <= p < n implies shorter[p] == #[trigger] names[p] by {}
        if text::starts_with(names.last(), "org.kde.StatusNotifierItem-"@) || text::starts_with(names.last(), "org.freedesktop.StatusNotifierItem-"@) {
            let at = before.push(n);
            assert forall|p: int| 0 <= p < names.len() && (text::starts_with((#[trigger] names[p]), "org.kde.StatusNotifierItem-"@) || text::starts_with((#[trigger] names[p]), "org.freedesktop.StatusNotifierItem-"@)) implies at.contains(p) by {
                if p < n {
                    assert(shorter[p] == names[p]);
                    let k = choose|k: int| 0 <= k < before.len() && before[k] == p;
                    assert(at[k] == p);
                } else {
                    assert(at[before.len() as int] == p);
                }
            }
            at
        } else {
            assert forall|p: int| 0 <= p < names.len() && (text::starts_with((#[trigger] names[p]), "org.kde.StatusNotifierItem-"@) || text::starts_with((#[trigger] names[p]), "org.freedesktop.StatusNotifierItem-"@)) implies before.contains(
                p,
            ) by {
                assert(p < n);
                assert(shorter[p] == names[p]);
            }
            before
        }
    }
}

/// An item is tried at its default path first, and then where Ayatana's and Chromium's stand.
pub proof fn three_paths_are_tried(default_path: Seq<char>)
    ensures
        adoption_paths(default_path).len() == 3,
        adoption_paths(default_path)[0] == default_path,
        adoption_paths(default_path)[1] == "/StatusNotifierItem/1"@,
        adoption_paths(default_path)[2] == "/org/chromium/StatusNotifierItem/1"@,
{
}

/// An item is found at the first place that holds its id, and nowhere where none does.
pub proof fn an_item_is_found_by_its_id<M>(registry: Seq<ItemEntry<M>>, id: Seq<char>, from: int)
    requires
        0 <= from <= registry.len(),
    ensures
        match place_from(registry, id, from) {
            Some(at) => from <= at < registry.len() && registry[at].last_known.id@ == id && forall|j: int|
                from <= j < at ==> (#[trigger] registry[j]).last_known.id@ != id,
            None => forall|j: int| from <= j < registry.len() ==> (#[trigger] registry[j]).last_known.id@ != id,
        },
    decreases registry.len() - from,
{
    if from < registry.len() && registry[from].last_known.id@ != id {
        an_item_is_found_by_its_id(registry, id, from + 1);
    }
}

/// An item's place is looked for among all.
pub proof fn an_item_is_looked_for_among_all<M>(controller: TrayController<M>, id: Seq<char>, i: int)
    ensures
        controller.place(id) is None <==> forall|j: int|
            0 <= j < controller.spec_registry().len() ==> (#[trigger] controller.spec_registry()[j]).last_known.id@ != id,
        controller.place(id) matches Some(at) ==> 0 <= at < controller.spec_registry().len()
            && controller.spec_registry()[at].last_known.id@ == id,
        0 <= i < controller.spec_registry().len() && controller.spec_registry()[i].last_known.id@ == id && (forall|j: int|
            0 <= j < i ==> (#[trigger] controller.spec_registry()[j]).last_known.id@ != id) ==> controller.place(id)
            == Some(i),
{
    an_item_is_found_by_its_id(controller.spec_registry(), id, 0);
}

} // verus!
