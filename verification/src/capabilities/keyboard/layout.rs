//! Keyboard layout integration for `mantle.keyboard`. The compositor's reader writes the layout
//! through a [`LayoutSink`]; `switch_layout` goes through a [`CompositorLink`]. Without a supported
//! compositor, the layout is empty with count `0`.

use vstd::prelude::*;

use super::KeyboardState;
use crate::json::{self, Json};
use crate::table::{self, Table};
use crate::text;

verus! {

/// How a layout switch reaches the compositor.
#[derive(Debug, PartialEq, Eq)]
pub enum LayoutSwitch {
    /// A niri action with the layout's index.
    Niri(u8),
    /// A command on Hyprland's socket.
    Hyprland { socket: String, command: String },
    /// The compositor cannot name such an index.
    Ignored,
}

/// A compositor that can switch layouts; its state returns through the compositor's reader.
pub trait CompositorLink {
    spec fn switches(&self, index: nat, switch: LayoutSwitch) -> bool;

    fn switch_layout(&self, index: usize) -> (switch: LayoutSwitch)
        ensures
            self.switches(index as nat, switch),
    ;
}

#[derive(Debug, Clone, Copy, PartialEq, Eq, Structural)]
pub struct NiriLink;

impl CompositorLink for NiriLink {
    /// An index fits a byte or is refused: truncating one would switch to another layout.
    open spec fn switches(&self, index: nat, switch: LayoutSwitch) -> bool {
        if index <= u8::MAX {
            switch == LayoutSwitch::Niri(index as u8)
        } else {
            switch is Ignored
        }
    }

    fn switch_layout(&self, index: usize) -> (switch: LayoutSwitch) {
        if index <= 255 {
            LayoutSwitch::Niri(index as u8)
        } else {
            LayoutSwitch::Ignored
        }
    }
}

/// `switchxkblayout main <index>` over Hyprland's command socket.
#[derive(Debug, PartialEq, Eq)]
pub struct HyprlandLink {
    command_path: String,
}

impl HyprlandLink {
    pub closed spec fn spec_command_path(self) -> Seq<char> {
        self.command_path@
    }

    pub fn new(command_path: String) -> (link: Self)
        ensures
            link.spec_command_path() == command_path@,
    {
        HyprlandLink { command_path }
    }
}

impl CompositorLink for HyprlandLink {
    /// `main` is also Hyprland's device target for the keyboard being typed on, so no device name is
    /// tracked.
    open spec fn switches(&self, index: nat, switch: LayoutSwitch) -> bool {
        switch matches LayoutSwitch::Hyprland { socket, command } && socket@ == self.spec_command_path() && command@
            == "switchxkblayout main "@ + text::decimal(index)
    }

    fn switch_layout(&self, index: usize) -> (switch: LayoutSwitch) {
        let n = text::decimal_of(index as u64);
        LayoutSwitch::Hyprland {
            socket: self.command_path.clone(),
            command: "switchxkblayout main ".to_owned().concat(n.as_str()),
        }
    }
}

// ---- Hyprland's devices ----

/// Needed fields of a keyboard that Hyprland lists; the comma-separated `layout` only supplies the
/// count. `main` is the keyboard being typed on.
#[derive(Debug, PartialEq, Eq)]
pub struct HyprlandKeyboard {
    pub active_keymap: String,
    pub layout: String,
    pub active_layout_index: u32,
    pub main: bool,
}

/// What a [`HyprlandKeyboard`] says.
pub struct KeyboardEntry {
    pub active_keymap: Seq<char>,
    pub layout: Seq<char>,
    pub active_layout_index: u32,
    pub main: bool,
}

impl View for HyprlandKeyboard {
    type V = KeyboardEntry;

    open spec fn view(&self) -> KeyboardEntry {
        KeyboardEntry {
            active_keymap: self.active_keymap@,
            layout: self.layout@,
            active_layout_index: self.active_layout_index,
            main: self.main,
        }
    }
}

pub open spec fn entry_view(keyboard: Option<HyprlandKeyboard>) -> Option<KeyboardEntry> {
    match keyboard {
        Some(keyboard) => Some(keyboard@),
        None => None,
    }
}

pub open spec fn level_view(level: Option<Json>) -> Option<json::JsonView> {
    match level {
        Some(level) => Some(level@),
        None => None,
    }
}

/// The layout index a value gives: `0` for one that is absent, null or out of range, so that one bad
/// value does not cost the whole layout.
pub open spec fn index_in(level: Option<json::JsonView>) -> u32 {
    match level {
        Some(json::JsonView::Number(number)) => match text::parse_unsigned(number, u32::MAX as nat) {
            Some(index) => index as u32,
            None => 0,
        },
        _ => 0,
    }
}

fn layout_index(level: &Option<Json>) -> (index: u32)
    ensures
        index == index_in(level_view(*level)),
{
    match level {
        Some(Json::Number(number)) => match text::str_parse_u32(number.as_str()) {
            Some(index) => index,
            None => 0,
        },
        _ => 0,
    }
}

/// A keyboard from the levels of its four fields, `None` for one that is absent. The keymap and the
/// layout have to be texts, and `main`, where it is there, a flag.
pub open spec fn keyboard_of(
    keymap: Option<json::JsonView>,
    layout: Option<json::JsonView>,
    index: Option<json::JsonView>,
    main: Option<Option<json::JsonView>>,
) -> Option<KeyboardEntry> {
    match (keymap, layout, main) {
        (
            Some(json::JsonView::Text(active_keymap)),
            Some(json::JsonView::Text(layout)),
            None,
        ) => Some(
            KeyboardEntry { active_keymap, layout, active_layout_index: index_in(index), main: false },
        ),
        (
            Some(json::JsonView::Text(active_keymap)),
            Some(json::JsonView::Text(layout)),
            Some(Some(json::JsonView::Bool(main))),
        ) => Some(KeyboardEntry { active_keymap, layout, active_layout_index: index_in(index), main }),
        _ => None,
    }
}

pub open spec fn main_view(main: Option<Option<Json>>) -> Option<Option<json::JsonView>> {
    match main {
        Some(level) => Some(level_view(level)),
        None => None,
    }
}

/// A keyboard from the levels of its four fields.
pub fn keyboard_from(
    keymap: Option<Json>,
    layout: Option<Json>,
    index: Option<Json>,
    main: Option<Option<Json>>,
) -> (keyboard: Option<HyprlandKeyboard>)
    ensures
        entry_view(keyboard) == keyboard_of(
            level_view(keymap),
            level_view(layout),
            level_view(index),
            main_view(main),
        ),
{
    let active_layout_index = layout_index(&index);
    let main = match main {
        None => false,
        Some(Some(Json::Bool(main))) => main,
        Some(_) => return None,
    };
    match (keymap, layout) {
        (Some(Json::Text(active_keymap)), Some(Json::Text(layout))) => Some(
            HyprlandKeyboard { active_keymap, layout, active_layout_index, main },
        ),
        _ => None,
    }
}

/// The level of a value that may be absent.
pub open spec fn level_at(value: Option<Seq<char>>) -> Option<json::JsonView> {
    match value {
        Some(value) => json::json_level(value),
        None => None,
    }
}

pub open spec fn main_at(value: Option<Seq<char>>) -> Option<Option<json::JsonView>> {
    match value {
        Some(value) => Some(json::json_level(value)),
        None => None,
    }
}

/// The fields of a keyboard's entry: by name in an object, by place in a list of two to four.
pub struct EntryFields {
    pub keymap: Option<Seq<char>>,
    pub layout: Option<Seq<char>>,
    pub index: Option<Seq<char>>,
    pub main: Option<Seq<char>>,
}

pub open spec fn at_key(values: Map<Seq<char>, Seq<char>>, key: Seq<char>) -> Option<Seq<char>> {
    if values.contains_key(key) {
        Some(values[key])
    } else {
        None
    }
}

pub open spec fn at_place(items: Seq<Seq<char>>, place: int) -> Option<Seq<char>> {
    if place < items.len() {
        Some(items[place])
    } else {
        None
    }
}

pub open spec fn fields_in(level: Option<json::JsonView>) -> Option<EntryFields> {
    match level {
        Some(json::JsonView::Table(entries)) => {
            let values = table::map_of(entries);
            Some(
                EntryFields {
                    keymap: at_key(values, "active_keymap"@),
                    layout: at_key(values, "layout"@),
                    index: at_key(values, "active_layout_index"@),
                    main: at_key(values, "main"@),
                },
            )
        },
        Some(json::JsonView::List(items)) => if items.len() <= 4 {
            Some(
                EntryFields {
                    keymap: at_place(items, 0),
                    layout: at_place(items, 1),
                    index: at_place(items, 2),
                    main: at_place(items, 3),
                },
            )
        } else {
            None
        },
        _ => None,
    }
}

/// The keyboard an entry of Hyprland's list is.
pub open spec fn keyboard_in(entry: Seq<char>) -> Option<KeyboardEntry> {
    match fields_in(json::json_level(entry)) {
        Some(fields) => keyboard_of(
            level_at(fields.keymap),
            level_at(fields.layout),
            level_at(fields.index),
            main_at(fields.main),
        ),
        None => None,
    }
}

fn read_at(value: Option<&str>) -> (level: Option<Json>)
    ensures
        level_view(level) == level_at(text::optional_str(value)),
{
    match value {
        Some(value) => json::read_json(value),
        None => None,
    }
}

fn read_main(value: Option<&str>) -> (level: Option<Option<Json>>)
    ensures
        main_view(level) == main_at(text::optional_str(value)),
{
    match value {
        Some(value) => Some(json::read_json(value)),
        None => None,
    }
}

fn item_at<'a>(items: &'a Vec<String>, place: usize) -> (value: Option<&'a str>)
    ensures
        text::optional_str(value) == at_place(text::strings(items@), place as int),
{
    if place < items.len() {
        Some(items[place].as_str())
    } else {
        None
    }
}

fn parse_keyboard(entry: &str) -> (keyboard: Option<HyprlandKeyboard>)
    ensures
        entry_view(keyboard) == keyboard_in(entry@),
{
    match json::read_json(entry) {
        Some(Json::Table(entries)) => {
            let values = Table::of(&entries);
            keyboard_from(
                read_at(values.get("active_keymap")),
                read_at(values.get("layout")),
                read_at(values.get("active_layout_index")),
                read_main(values.get("main")),
            )
        },
        Some(Json::List(items)) => {
            assert(text::strings(items@).len() == items@.len());
            if items.len() > 4 {
                None
            } else {
                keyboard_from(
                    read_at(item_at(&items, 0)),
                    read_at(item_at(&items, 1)),
                    read_at(item_at(&items, 2)),
                    read_main(item_at(&items, 3)),
                )
            }
        },
        _ => None,
    }
}

/// A keyboard that names a layout. Hyprland says `"none"` or `"error"` of a device no layout was
/// resolved for, which a virtual keyboard is while it is the main one.
pub open spec fn is_resolved(keyboard: KeyboardEntry) -> bool {
    keyboard.active_keymap != "none"@ && keyboard.active_keymap != "error"@
}

/// The usable keyboards of a list.
pub open spec fn keyboards_in(entries: Seq<Seq<char>>) -> Seq<KeyboardEntry>
    decreases entries.len(),
{
    if entries.len() == 0 {
        Seq::empty()
    } else {
        match keyboard_in(entries.last()) {
            Some(keyboard) if is_resolved(keyboard) => keyboards_in(entries.drop_last()).push(keyboard),
            _ => keyboards_in(entries.drop_last()),
        }
    }
}

/// The first main keyboard, from one on.
pub open spec fn main_from(keyboards: Seq<KeyboardEntry>, from: int) -> Option<int>
    decreases keyboards.len() - from,
{
    if from < 0 || from >= keyboards.len() {
        None
    } else if keyboards[from].main {
        Some(from)
    } else {
        main_from(keyboards, from + 1)
    }
}

/// The keyboard to report: the main one, or the first.
pub open spec fn chosen(keyboards: Seq<KeyboardEntry>) -> Option<KeyboardEntry> {
    match main_from(keyboards, 0) {
        Some(at) => Some(keyboards[at]),
        None => if keyboards.len() > 0 {
            Some(keyboards[0])
        } else {
            None
        },
    }
}

pub open spec fn keyboard_views(list: Seq<HyprlandKeyboard>) -> Seq<KeyboardEntry> {
    Seq::new(list.len(), |i: int| list[i]@)
}

fn choose_keyboard(keyboards: Vec<HyprlandKeyboard>) -> (keyboard: Option<HyprlandKeyboard>)
    ensures
        entry_view(keyboard) == chosen(keyboard_views(keyboards@)),
{
    let ghost views = keyboard_views(keyboards@);
    let mut keyboards = keyboards;
    let mut i: usize = 0;
    let mut at: usize = 0;
    let mut found = false;
    while i < keyboards.len() && !found
        invariant
            i <= keyboards@.len(),
            views == keyboard_views(keyboards@),
            found ==> at < keyboards@.len() && main_from(views, 0) == Some(at as int),
            !found ==> main_from(views, i as int) == main_from(views, 0),
        decreases
            keyboards@.len() - i + (if found {
                0int
            } else {
                1int
            }),
    {
        assert(views[i as int] == keyboards@[i as int]@);
        if keyboards[i].main {
            found = true;
            at = i;
        } else {
            i += 1;
        }
    }
    if keyboards.len() == 0 {
        return None;
    }
    let place = if found {
        at
    } else {
        0usize
    };
    assert(views[place as int] == keyboards@[place as int]@);
    Some(keyboards.remove(place))
}

/// The items of a reply's `keyboards`.
pub open spec fn entries_in(level: Option<json::JsonView>) -> Option<Seq<Seq<char>>> {
    match level {
        Some(json::JsonView::Table(entries)) => match level_at(at_key(table::map_of(entries), "keyboards"@)) {
            Some(json::JsonView::List(items)) => Some(items),
            _ => None,
        },
        _ => None,
    }
}

fn keyboard_entries(level: Option<Json>) -> (items: Option<Vec<String>>)
    ensures
        entries_in(level_view(level)) == (match items {
            Some(items) => Some(text::strings(items@)),
            None => None,
        }),
{
    match level {
        Some(Json::Table(entries)) => {
            let values = Table::of(&entries);
            match read_at(values.get("keyboards")) {
                Some(Json::List(items)) => Some(items),
                _ => None,
            }
        },
        _ => None,
    }
}

/// Reads Hyprland's list of devices.
pub fn parse_hyprland_devices(reply: &str) -> (keyboard: Option<HyprlandKeyboard>)
    ensures
        entry_view(keyboard) == (match entries_in(json::json_level(reply@)) {
            Some(entries) => chosen(keyboards_in(entries)),
            None => None,
        }),
{
    let items = match keyboard_entries(json::read_json(reply)) {
        Some(items) => items,
        None => return None,
    };
    let ghost views = text::strings(items@);
    let mut keyboards: Vec<HyprlandKeyboard> = Vec::new();
    let mut i: usize = 0;
    assert(views.subrange(0, 0) =~= Seq::<Seq<char>>::empty());
    assert(keyboard_views(keyboards@) =~= Seq::<KeyboardEntry>::empty());
    while i < items.len()
        invariant
            i <= items@.len(),
            views == text::strings(items@),
            keyboard_views(keyboards@) == keyboards_in(views.subrange(0, i as int)),
        decreases items@.len() - i,
    {
        let ghost before = keyboards@;
        assert(views.subrange(0, i + 1).drop_last() =~= views.subrange(0, i as int));
        assert(views.subrange(0, i + 1).last() == items@[i as int]@);
        if let Some(keyboard) = parse_keyboard(items[i].as_str()) {
            if !text::same(keyboard.active_keymap.as_str(), "none") && !text::same(
                keyboard.active_keymap.as_str(),
                "error",
            ) {
                let ghost seen = keyboard@;
                keyboards.push(keyboard);
                assert(keyboard_views(keyboards@) =~= keyboard_views(before).push(seen));
            }
        }
        i += 1;
    }
    assert(views.subrange(0, i as int) =~= views);
    choose_keyboard(keyboards)
}

// ---- the sink ----

/// A layout event of niri's.
#[derive(Debug, PartialEq, Eq)]
pub enum NiriEvent {
    LayoutsChanged { names: Vec<String>, current_idx: u8 },
    LayoutSwitched { idx: u8 },
    /// Any other event.
    Other,
}

/// `keyboard`'s state as the compositor's reader sees it. The reader writes the layout from its first
/// event, and signals once `keyboard` has started.
#[derive(Debug)]
pub struct LayoutSink {
    pub state: KeyboardState,
    /// `keyboard` listens.
    pub listening: bool,
}

/// How many layouts a comma-separated list configures.
pub open spec fn layout_count(pieces: Seq<Seq<char>>) -> nat
    decreases pieces.len(),
{
    if pieces.len() == 0 {
        0
    } else {
        layout_count(pieces.drop_last()) + (if pieces.last().len() > 0 {
            1nat
        } else {
            0nat
        })
    }
}

fn count_layouts(layout: &str) -> (count: usize)
    ensures
        count == layout_count(text::split(layout@, ","@)),
{
    proof {
        reveal_strlit(",");
    }
    let pieces = text::str_split(layout, ",");
    let ghost views = text::texts(pieces@);
    let mut count: usize = 0;
    let mut i: usize = 0;
    assert(views.subrange(0, 0) =~= Seq::<Seq<char>>::empty());
    while i < pieces.len()
        invariant
            i <= pieces@.len(),
            count <= i,
            views == text::texts(pieces@),
            count == layout_count(views.subrange(0, i as int)),
        decreases pieces@.len() - i,
    {
        assert(views.subrange(0, i + 1).drop_last() =~= views.subrange(0, i as int));
        assert(views.subrange(0, i + 1).last() == pieces@[i as int]@);
        if !pieces[i].is_empty() {
            count += 1;
        }
        i += 1;
    }
    assert(views.subrange(0, i as int) =~= views);
    count
}

/// The state with a layout written into it.
pub open spec fn wrote(
    before: LayoutSink,
    after: LayoutSink,
    active_layout: Seq<char>,
    active_layout_index: u32,
    layout_count: u32,
) -> bool {
    &&& after.state.active_layout@ == active_layout
    &&& after == (LayoutSink {
        state: KeyboardState {
            active_layout: after.state.active_layout,
            active_layout_index,
            layout_count,
            ..before.state
        },
        ..before
    })
}

impl LayoutSink {
    fn write(&mut self, active_layout: String, active_layout_index: u32, layout_count: u32) -> (signal: bool)
        ensures
            wrote(*old(self), *final(self), active_layout@, active_layout_index, layout_count),
            signal == old(self).listening,
    {
        self.state.active_layout = active_layout;
        self.state.active_layout_index = active_layout_index;
        self.state.layout_count = layout_count;
        self.listening
    }

    /// Applies a layout event; `None` for any other, otherwise whether it is signalled. `names`
    /// carries the list from a change of the layouts to the switches after it.
    pub fn apply_niri(&mut self, names: &mut Vec<String>, event: NiriEvent) -> (signal: Option<bool>)
        ensures
            match event {
                NiriEvent::Other => signal is None && *final(self) == *old(self) && final(names)@ == old(names)@,
                NiriEvent::LayoutsChanged { names: listed, current_idx } => signal == Some(old(self).listening)
                    && final(names)@ == listed@ && wrote(
                    *old(self),
                    *final(self),
                    name_at(listed@, current_idx),
                    current_idx as u32,
                    listed@.len() as u32,
                ),
                NiriEvent::LayoutSwitched { idx } => signal == Some(old(self).listening) && final(names)@ == old(names)@ && wrote(
                    *old(self),
                    *final(self),
                    name_at(old(names)@, idx),
                    idx as u32,
                    old(names)@.len() as u32,
                ),
            },
    {
        let idx = match event {
            NiriEvent::Other => return None,
            NiriEvent::LayoutsChanged { names: listed, current_idx } => {
                *names = listed;
                current_idx
            },
            NiriEvent::LayoutSwitched { idx } => idx,
        };
        let name = if (idx as usize) < names.len() {
            names[idx as usize].clone()
        } else {
            String::new()
        };
        let count: u32 = #[verifier::truncate]
        (names.len() as u32);
        Some(self.write(name, idx as u32, count))
    }

    /// Applies Hyprland's list of devices, read on its layout event and once at the reader's start;
    /// whether it is signalled. `None` leaves the layout as it was: the request failed, or its reply
    /// held no usable keyboard.
    pub fn read_hyprland(&mut self, reply: &Result<String, String>) -> (signal: Option<bool>)
        ensures
            match reply {
                Err(_) => signal is None && *final(self) == *old(self),
                Ok(reply) => match entries_in(json::json_level(reply@)) {
                    None => signal is None && *final(self) == *old(self),
                    Some(entries) => match chosen(keyboards_in(entries)) {
                        None => signal is None && *final(self) == *old(self),
                        Some(keyboard) => signal == Some(old(self).listening) && wrote(
                            *old(self),
                            *final(self),
                            keyboard.active_keymap,
                            keyboard.active_layout_index,
                            layout_count(text::split(keyboard.layout, ","@)) as u32,
                        ),
                    },
                },
            },
    {
        match reply {
            Err(_) => None,
            Ok(reply) => match parse_hyprland_devices(reply.as_str()) {
                Some(keyboard) => Some(self.apply_hyprland(keyboard)),
                None => None,
            },
        }
    }

    /// Applies a keyboard read from Hyprland; whether it is signalled.
    pub fn apply_hyprland(&mut self, keyboard: HyprlandKeyboard) -> (signal: bool)
        ensures
            signal == old(self).listening,
            wrote(
                *old(self),
                *final(self),
                keyboard.active_keymap@,
                keyboard.active_layout_index,
                layout_count(text::split(keyboard.layout@, ","@)) as u32,
            ),
    {
        let count: u32 = #[verifier::truncate]
        (count_layouts(keyboard.layout.as_str()) as u32);
        self.write(keyboard.active_keymap, keyboard.active_layout_index, count)
    }
}

/// The name of a layout; empty where the list holds none.
pub open spec fn name_at(names: Seq<String>, idx: u8) -> Seq<char> {
    if idx < names.len() {
        names[idx as int]@
    } else {
        Seq::empty()
    }
}

// ---- laws ----

/// A layout's index is the number it is given as; what is no number that fits is the first layout.
pub proof fn an_index_is_its_number(n: u32, level: Option<json::JsonView>)
    ensures
        index_in(Some(json::JsonView::Number(text::decimal(n as nat)))) == n,
        !(level matches Some(json::JsonView::Number(_))) ==> index_in(level) == 0,
        level matches Some(json::JsonView::Number(number)) ==> text::parse_unsigned(number, u32::MAX as nat) is None
            ==> index_in(level) == 0,
{
    text::a_number_reads_back(n as nat, u32::MAX as nat);
}

/// A keyboard is read where its keymap and its layout are texts and `main`, if it is there, is a flag;
/// it is what they say, and not the main one where that is not said.
pub proof fn a_keyboard_is_what_its_fields_say(
    keymap: Option<json::JsonView>,
    layout: Option<json::JsonView>,
    index: Option<json::JsonView>,
    main: Option<Option<json::JsonView>>,
)
    ensures
        keyboard_of(keymap, layout, index, main) is Some <==> (keymap matches Some(json::JsonView::Text(_))) && (
        layout matches Some(json::JsonView::Text(_))) && (main is None || (main matches Some(
            Some(json::JsonView::Bool(_)),
        ))),
        keyboard_of(keymap, layout, index, main) matches Some(keyboard) ==> {
            &&& keymap == Some(json::JsonView::Text(keyboard.active_keymap))
            &&& layout == Some(json::JsonView::Text(keyboard.layout))
            &&& keyboard.active_layout_index == index_in(index)
            &&& main is None ==> !keyboard.main
            &&& main is Some ==> main == Some(Some(json::JsonView::Bool(keyboard.main)))
        },
{
}

/// An entry's fields go by their names in a table and by their places in a list of at most four.
pub proof fn fields_go_by_name_or_by_place(entries: Seq<(Seq<char>, Seq<char>)>, items: Seq<Seq<char>>, key: Seq<char>)
    ensures
        fields_in(Some(json::JsonView::Table(entries))) matches Some(fields) && {
            let values = table::map_of(entries);
            &&& fields.keymap == at_key(values, "active_keymap"@)
            &&& fields.layout == at_key(values, "layout"@)
            &&& fields.index == at_key(values, "active_layout_index"@)
            &&& fields.main == at_key(values, "main"@)
            &&& at_key(values, key) is Some <==> values.contains_key(key)
            &&& values.contains_key(key) ==> at_key(values, key) == Some(values[key])
        },
        items.len() > 4 ==> fields_in(Some(json::JsonView::List(items))) is None,
        items.len() <= 4 ==> {
            let fields = fields_in(Some(json::JsonView::List(items)))->Some_0;
            &&& fields_in(Some(json::JsonView::List(items))) is Some
            &&& fields.keymap == (if items.len() > 0 {
                Some(items[0])
            } else {
                None
            })
            &&& fields.layout == (if items.len() > 1 {
                Some(items[1])
            } else {
                None
            })
            &&& fields.index == (if items.len() > 2 {
                Some(items[2])
            } else {
                None
            })
            &&& fields.main == (if items.len() > 3 {
                Some(items[3])
            } else {
                None
            })
        },
{
}

proof fn lemma_main_from(keyboards: Seq<KeyboardEntry>, from: int)
    requires
        0 <= from <= keyboards.len(),
    ensures
        match main_from(keyboards, from) {
            Some(at) => from <= at < keyboards.len() && keyboards[at].main && forall|j: int|
                from <= j < at ==> !(#[trigger] keyboards[j]).main,
            None => forall|j: int| from <= j < keyboards.len() ==> !(#[trigger] keyboards[j]).main,
        },
    decreases keyboards.len() - from,
{
    if from < keyboards.len() && !keyboards[from].main {
        lemma_main_from(keyboards, from + 1);
    }
}

/// The keyboard that counts is the first main one, or the first where none is; there is none only
/// where there are no keyboards.
pub proof fn the_main_keyboard_counts(keyboards: Seq<KeyboardEntry>, i: int)
    ensures
        chosen(keyboards) is None <==> keyboards.len() == 0,
        0 <= i < keyboards.len() && keyboards[i].main && (forall|j: int| 0 <= j < i ==> !(#[trigger] keyboards[j]).main)
            ==> chosen(keyboards) == Some(keyboards[i]),
        keyboards.len() > 0 && (forall|j: int| 0 <= j < keyboards.len() ==> !(#[trigger] keyboards[j]).main) ==> chosen(
            keyboards,
        ) == Some(keyboards[0]),
{
    lemma_main_from(keyboards, 0);
}

/// The keyboards of a reply stand in a list under their name.
pub proof fn keyboards_stand_under_their_name(level: Option<json::JsonView>, items: Seq<Seq<char>>)
    ensures
        entries_in(level) == Some(items) <==> (level matches Some(json::JsonView::Table(entries)) && table::map_of(
            entries,
        ).contains_key("keyboards"@) && json::json_level(table::map_of(entries)["keyboards"@]) == Some(
            json::JsonView::List(items),
        )),
{
}

/// The layouts are counted piece by piece, and an empty piece is none.
pub proof fn every_layout_counts_once(a: Seq<Seq<char>>, b: Seq<Seq<char>>, piece: Seq<char>)
    ensures
        layout_count(a + b) == layout_count(a) + layout_count(b),
        layout_count(Seq::<Seq<char>>::empty()) == 0,
        layout_count(seq![piece]) == (if piece.len() > 0 {
            1nat
        } else {
            0
        }),
    decreases b.len(),
{
    reveal_with_fuel(layout_count, 2);
    assert(seq![piece].drop_last() =~= Seq::<Seq<char>>::empty());
    if b.len() > 0 {
        every_layout_counts_once(a, b.drop_last(), piece);
        assert((a + b).drop_last() =~= a + b.drop_last());
        assert((a + b).last() == b.last());
    } else {
        assert(a + b =~= a);
    }
}

/// What is written is the layout's name, its index and how many there are; the backlight and who
/// listens stay as they were.
pub proof fn only_the_layout_is_written(before: LayoutSink, after: LayoutSink, name: Seq<char>, index: u32, count: u32)
    requires
        wrote(before, after, name, index, count),
    ensures
        after.state.active_layout@ == name,
        after.state.active_layout_index == index,
        after.state.layout_count == count,
        after.state.backlight_pct == before.state.backlight_pct,
        after.listening == before.listening,
{
}

/// A layout's name is the one at its index, and none behind the last.
pub proof fn a_name_is_at_its_index(names: Seq<String>, idx: u8)
    ensures
        idx < names.len() ==> name_at(names, idx) == names[idx as int]@,
        idx >= names.len() ==> name_at(names, idx).len() == 0,
{
}

/// niri is told an index that fits a byte and no other; Hyprland is told any, by a command of its own.
pub proof fn a_switch_names_its_layout(niri: NiriLink, hyprland: HyprlandLink, index: nat, switch: LayoutSwitch)
    ensures
        niri.switches(index, switch) && index <= 255 ==> switch == LayoutSwitch::Niri(index as u8),
        niri.switches(index, switch) && index > 255 ==> switch == LayoutSwitch::Ignored,
        hyprland.switches(index, switch) ==> (switch matches LayoutSwitch::Hyprland { socket, command } && socket@
            == hyprland.spec_command_path() && command@ == "switchxkblayout main "@ + text::decimal(index)),
{
}

/// The keyboards are the entries that can be read and whose keymap is known, all of them and in their
/// order. Returns where they stand.
pub proof fn every_resolved_keyboard_is_listed(entries: Seq<Seq<char>>) -> (at: Seq<int>)
    ensures
        at.len() == keyboards_in(entries).len(),
        forall|i: int| 0 <= i < at.len() ==> 0 <= #[trigger] at[i] < entries.len() && ((keyboard_in(entries[at[i]]) matches Some(keyboard) && keyboard.active_keymap != "none"@ && keyboard.active_keymap != "error"@)),
        forall|i: int| 0 <= i < at.len() ==> (keyboard_in(entries[#[trigger] at[i]]) == Some(keyboards_in(entries)[i])),
        forall|i: int, j: int| 0 <= i < j < at.len() ==> #[trigger] at[i] < #[trigger] at[j],
        forall|p: int| 0 <= p < entries.len() && ((keyboard_in((#[trigger] entries[p])) matches Some(keyboard) && keyboard.active_keymap != "none"@ && keyboard.active_keymap != "error"@)) ==> at.contains(p),
    decreases entries.len(),
{
    if entries.len() == 0 {
        Seq::empty()
    } else {
        let shorter = entries.drop_last();
        let n = entries.len() - 1;
        let before = every_resolved_keyboard_is_listed(entries.drop_last());
        assert forall|p: int| 0 <= p < n implies shorter[p] == #[trigger] entries[p] by {}
        if (keyboard_in(entries.last()) matches Some(keyboard) && keyboard.active_keymap != "none"@ && keyboard.active_keymap != "error"@) {
            let at = before.push(n);
            assert forall|p: int| 0 <= p < entries.len() && ((keyboard_in((#[trigger] entries[p])) matches Some(keyboard) && keyboard.active_keymap != "none"@ && keyboard.active_keymap != "error"@)) implies at.contains(p) by {
                if p < n {
                    assert(shorter[p] == entries[p]);
                    let k = choose|k: int| 0 <= k < before.len() && before[k] == p;
                    assert(at[k] == p);
                } else {
                    assert(at[before.len() as int] == p);
                }
            }
            at
        } else {
            assert forall|p: int| 0 <= p < entries.len() && ((keyboard_in((#[trigger] entries[p])) matches Some(keyboard) && keyboard.active_keymap != "none"@ && keyboard.active_keymap != "error"@)) implies before.contains(
                p,
            ) by {
                assert(p < n);
                assert(shorter[p] == entries[p]);
            }
            before
        }
    }
}

} // verus!
