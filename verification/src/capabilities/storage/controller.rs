//! [`StorageController`] owns JSON files declared with `persistent_table`, keyed by absolute path.

use vstd::prelude::*;

use crate::json::{self, Json};
use crate::path;
use crate::table::{self, Table};
use crate::text;

verus! {

/// Milliseconds after the last write before a file is written. A scroll offset or a search draft can
/// be set per keystroke.
pub const SAVE_DEBOUNCE: u64 = 1000;

#[derive(Debug, Clone, Copy, PartialEq, Eq, Structural)]
pub enum StorageSignal {
    Changed,
}

/// One declared file.
#[derive(Debug)]
pub struct Store {
    pub values: Table,
    /// The defaults last declared, as compact JSON.
    pub defaults: String,
    /// The file as this shell last read or wrote it; any other content is someone else's write.
    pub on_disk: Option<Table>,
    /// The parse error last logged, so a file left broken logs once.
    pub error: Option<String>,
}

/// What a [`Store`] holds.
#[verifier::ext_equal]
pub struct StoreView {
    pub values: Map<Seq<char>, Seq<char>>,
    pub defaults: Seq<char>,
    pub on_disk: Option<Map<Seq<char>, Seq<char>>>,
    pub error: Option<Seq<char>>,
}

pub open spec fn table_view(table: Option<Table>) -> Option<Map<Seq<char>, Seq<char>>> {
    match table {
        Some(table) => Some(table@),
        None => None,
    }
}

impl View for Store {
    type V = StoreView;

    open spec fn view(&self) -> StoreView {
        StoreView {
            values: self.values@,
            defaults: self.defaults@,
            on_disk: table_view(self.on_disk),
            error: text::optional(self.error),
        }
    }
}

/// A path that does not depend on the working directory, which nobody sets.
pub open spec fn is_absolute(path: Seq<char>) -> bool {
    path.len() > 0 && path[0] == '/'
}

/// Whether a store's path can be used: a relative one would land somewhere neither the author nor
/// the next session can name.
pub fn absolute_path(path: &str) -> (absolute: bool)
    ensures
        absolute == is_absolute(path@),
{
    path.unicode_len() > 0 && path.get_char(0) == '/'
}

/// The object a JSON value is.
pub open spec fn object_in(level: Option<json::JsonView>) -> Option<Map<Seq<char>, Seq<char>>> {
    match level {
        Some(json::JsonView::Table(entries)) => Some(table::map_of(entries)),
        _ => None,
    }
}

/// The object one level of JSON is.
pub fn object_of(level: Option<Json>) -> (object: Option<Table>)
    ensures
        table_view(object) == object_in(
            match level {
                Some(level) => Some(level@),
                None => None,
            },
        ),
{
    match level {
        Some(Json::Table(entries)) => Some(Table::of(&entries)),
        _ => None,
    }
}

/// Values with the missing keys of the defaults. Values, including tables, replace as one key; nested
/// tables do not merge.
pub open spec fn filled(
    stored: Map<Seq<char>, Seq<char>>,
    defaults: Option<Map<Seq<char>, Seq<char>>>,
) -> Map<Seq<char>, Seq<char>> {
    match defaults {
        Some(defaults) => defaults.union_prefer_right(stored),
        None => stored,
    }
}

/// Copies missing top-level keys from `defaults` into `stored` and reports whether it changed.
pub fn fill_missing(stored: &mut Table, defaults: &Option<Table>) -> (changed: bool)
    ensures
        final(stored)@ == filled(old(stored)@, table_view(*defaults)),
        changed == (final(stored)@ != old(stored)@),
{
    let defaults = match defaults {
        Some(defaults) => defaults,
        None => return false,
    };
    let entries = defaults.entries();
    let ghost views = json::pairs(entries@);
    let ghost start = stored@;
    let mut changed = false;
    let mut i: usize = 0;
    proof {
        assert(views.subrange(0, 0) =~= Seq::<(Seq<char>, Seq<char>)>::empty());
        assert(table::map_of(views.subrange(0, 0)).union_prefer_right(start) =~= start);
        table::lemma_map_of(views);
    }
    while i < entries.len()
        invariant
            i <= entries@.len(),
            views == json::pairs(entries@),
            start == old(stored)@,
            table::distinct(views),
            stored@ == table::map_of(views.subrange(0, i as int)).union_prefer_right(start),
            changed == (stored@ != start),
            start.dom().subset_of(stored@.dom()),
        decreases entries@.len() - i,
    {
        let ghost before = views.subrange(0, i as int);
        let ghost now = stored@;
        let ghost key = entries@[i as int].0@;
        assert(views.subrange(0, i + 1).drop_last() =~= before);
        assert(views[i as int] == (key, entries@[i as int].1@));
        proof {
            assert forall|a: int, b: int| 0 <= a < b < before.len() implies (#[trigger] before[a]).0 != (
            #[trigger] before[b]).0 by {
                assert(before[a] == views[a] && before[b] == views[b]);
            }
            table::lemma_map_of(before);
            if table::map_of(before).contains_key(key) {
                let j = choose|j: int| 0 <= j < before.len() && (#[trigger] before[j]).0 == key;
                assert(before[j] == views[j]);
                assert(views[j].0 != views[i as int].0);
            }
        }
        if !stored.contains(entries[i].0.as_str()) {
            stored.insert(entries[i].0.clone(), entries[i].1.clone());
            changed = true;
            assert(!start.contains_key(key));
            assert(stored@.contains_key(key));
        } else {
            assert(start.contains_key(key));
        }
        assert(stored@ =~= table::map_of(views.subrange(0, i + 1)).union_prefer_right(start));
        i += 1;
    }
    assert(views.subrange(0, i as int) =~= views);
    changed
}

/// A file as it was read: nothing where there is none, which is normal on a first run, or why a save
/// would destroy what is there.
pub type Loaded = Result<Option<Table>, String>;

pub open spec fn loaded_view(loaded: Loaded) -> Result<Option<Map<Seq<char>, Seq<char>>>, Seq<char>> {
    match loaded {
        Ok(table) => Ok(table_view(table)),
        Err(error) => Err(error@),
    }
}

/// What a file's contents come to.
pub open spec fn parsed(level: Option<json::JsonView>, error: Option<Seq<char>>) -> Result<
    Option<Map<Seq<char>, Seq<char>>>,
    Seq<char>,
> {
    match error {
        Some(error) => Err(error),
        None => match object_in(level) {
            Some(object) => Ok(Some(object)),
            None => Err("not a JSON object"@),
        },
    }
}

/// What a file comes to, given what reading its contents as JSON gave.
pub fn load_from(level: Option<Json>, error: Option<String>) -> (loaded: Loaded)
    ensures
        loaded_view(loaded) == parsed(
            match level {
                Some(level) => Some(level@),
                None => None,
            },
            text::optional(error),
        ),
{
    if let Some(error) = error {
        return Err(error);
    }
    match object_of(level) {
        Some(object) => Ok(Some(object)),
        None => Err("not a JSON object".to_owned()),
    }
}

/// Reads a file's contents: `None` for a file that is not there, an error for one that cannot be read.
pub fn load(contents: Result<Option<String>, String>) -> (loaded: Loaded)
    ensures
        loaded_view(loaded) == (match contents {
            Ok(None) => Ok(None),
            Err(error) => Err(error@),
            Ok(Some(contents)) => parsed(json::json_level(contents@), json::json_error(contents@)),
        }),
        contents matches Ok(Some(contents)) ==> (json::json_error(contents@) is None <==> json::json_level(
            contents@,
        ) is Some),
{
    match contents {
        Ok(None) => Ok(None),
        Err(error) => Err(error),
        Ok(Some(contents)) => load_from(json::read_json(contents.as_str()), json::error_of(contents.as_str())),
    }
}

/// Whether every value of an object is written as JSON writes it.
pub open spec fn all_compact(values: Map<Seq<char>, Seq<char>>) -> bool {
    forall|k: Seq<char>| #[trigger] values.contains_key(k) ==> json::is_compact(values[k])
}

/// Whether a text is pretty JSON of an object, with a newline behind it.
pub open spec fn written_as(contents: Seq<char>, values: Map<Seq<char>, Seq<char>>) -> bool {
    exists|entries: Seq<(Seq<char>, Seq<char>)>|
        table::map_of(entries) == values && (#[trigger] json::pretty_json(entries) matches Some(pretty) && contents
            == pretty + "\n"@)
}

/// A file's contents for values: pretty JSON and a newline. Loading them gives the values back, unless
/// they nest too deep to be read at all.
pub fn file_text(values: &Table) -> (contents: Option<String>)
    ensures
        contents matches Some(contents) ==> written_as(contents@, values@),
        contents is None <==> exists|k: Seq<char>|
            #[trigger] values@.contains_key(k) && json::compact_json(values@[k]) is None,
        contents matches Some(contents) ==> all_compact(values@) ==> match json::json_level(contents@) {
            Some(level) => object_in(Some(level)) == Some(values@),
            None => true,
        },
{
    let entries = values.entries();
    let ghost views = json::pairs(entries@);
    proof {
        table::lemma_map_of(views);
        if all_compact(values@) {
            assert forall|i: int| 0 <= i < entries@.len() implies json::is_compact((#[trigger] entries@[i]).1@) by {
                assert(views[i] == (entries@[i].0@, entries@[i].1@));
                assert(values@.contains_key(views[i].0));
            }
        }
    }
    match json::pretty(entries) {
        Some(text) => {
            assert(json::pretty_json(views) == Some(text@));
            assert forall|k: Seq<char>| #[trigger] values@.contains_key(k) implies json::compact_json(
                values@[k],
            ) is Some by {
                let i = choose|i: int| 0 <= i < views.len() && (#[trigger] views[i]).0 == k;
                assert(views[i] == (entries@[i].0@, entries@[i].1@));
            }
            Some(text.concat("\n"))
        },
        None => {
            proof {
                let i = choose|i: int|
                    0 <= i < entries@.len() && json::compact_json((#[trigger] entries@[i]).1@) is None;
                assert(views[i] == (entries@[i].0@, entries@[i].1@));
                assert(values@.contains_key(views[i].0));
            }
            None
        },
    }
}

/// The temporary file a save goes through: a name no declared table can also be. The leading dot and
/// the process id are outside what a config can declare, and the id keeps a second supervisor off
/// this one's file.
pub open spec fn temporary_name(file_name: Option<Seq<char>>, pid: u32) -> Seq<char> {
    "."@ + (match file_name {
        Some(name) => name,
        None => Seq::empty(),
    }) + "."@ + text::decimal(pid as nat) + ".tmp"@
}

/// The temporary's name, given the file's own.
pub fn temporary_for(file_name: Option<String>, pid: u32) -> (name: String)
    ensures
        name@ == temporary_name(text::optional(file_name), pid),
{
    let base = match file_name {
        Some(name) => name,
        None => String::new(),
    };
    let id = text::decimal_of(pid as u64);
    ".".to_owned().concat(base.as_str()).concat(".").concat(id.as_str()).concat(".tmp")
}

/// Where a save of a file writes before it renames: a crash cannot leave a half-written file.
pub fn temporary_path(file: &str, pid: u32) -> (temporary: String)
    ensures
        temporary@ == path::renamed_text(file@, temporary_name(path::file_name_text(file@), pid)),
{
    let name = temporary_for(path::file_name_of(file), pid);
    path::with_file_name(file, name.as_str())
}

/// Why a request was refused.
#[derive(Debug, Clone, Copy, PartialEq, Eq, Structural)]
pub enum Refusal {
    /// A store's path must be absolute.
    Relative,
    /// A key cannot be empty.
    EmptyKey,
    /// No `persistent_table` declared the file.
    Undeclared,
}

/// What a request leads to.
#[derive(Debug, Clone, Copy, PartialEq, Eq, Structural)]
pub struct Outcome {
    /// Save the file once writes stop.
    pub save: bool,
    /// Push the state.
    pub push: bool,
}

/// The store of a file declared for the first time.
pub open spec fn first_store(loaded: Result<Option<Map<Seq<char>, Seq<char>>>, Seq<char>>) -> StoreView {
    match loaded {
        Ok(on_disk) => StoreView {
            values: match on_disk {
                Some(values) => values,
                None => Map::empty(),
            },
            defaults: Seq::empty(),
            on_disk,
            error: None,
        },
        Err(error) => StoreView { values: Map::empty(), defaults: Seq::empty(), on_disk: None, error: Some(error) },
    }
}

/// A store with defaults declared for it.
pub open spec fn declared(store: StoreView, defaults: Seq<char>) -> StoreView {
    StoreView { values: filled(store.values, object_in(json::json_level(defaults))), defaults, ..store }
}

/// The values after one key was set; `null` deletes it, and a value that is there already stays as it
/// is.
pub open spec fn with_key(
    values: Map<Seq<char>, Seq<char>>,
    key: Seq<char>,
    value: Seq<char>,
) -> Map<Seq<char>, Seq<char>> {
    if value == "null"@ {
        values.remove(key)
    } else if values.contains_key(key) && json::same_json(values[key], value) {
        values
    } else {
        values.insert(key, value)
    }
}

/// Whether there is a copy of an object, with the same values.
pub open spec fn is_copy(
    copy: Option<Map<Seq<char>, Seq<char>>>,
    values: Map<Seq<char>, Seq<char>>,
) -> bool {
    copy matches Some(copy) && json::same_object(copy, values)
}

/// What a sync of a store with the file on disk leads to.
pub struct SyncView {
    pub store: StoreView,
    pub push: bool,
    /// What to write.
    pub write: Option<Map<Seq<char>, Seq<char>>>,
    /// A parse error to log.
    pub logged: Option<Seq<char>>,
    /// The file parses again, which is logged.
    pub readable_again: bool,
}

/// Takes the disk copy whole when someone else changed it, dropping unsaved writes, and writes when
/// `save` asks or a just-fixed file lacks defaults. A file that does not parse keeps its last values
/// and is not saved over.
pub open spec fn synced(
    store: StoreView,
    disk: Result<Option<Map<Seq<char>, Seq<char>>>, Seq<char>>,
    save: bool,
) -> SyncView {
    match disk {
        Err(error) => SyncView {
            store: StoreView { error: Some(error), ..store },
            push: false,
            write: None,
            logged: if store.error == Some(error) {
                None
            } else {
                Some(error)
            },
            readable_again: false,
        },
        Ok(disk) => {
            let fixed = store.error is Some;
            let taken = match disk {
                Some(disk) if !is_copy(store.on_disk, disk) => {
                    let values = filled(disk, object_in(json::json_level(store.defaults)));
                    StoreView {
                        values: if json::same_object(store.values, values) {
                            store.values
                        } else {
                            values
                        },
                        on_disk: Some(disk),
                        error: None,
                        ..store
                    }
                },
                _ => StoreView { error: None, ..store },
            };
            SyncView {
                store: taken,
                push: taken.values != store.values,
                write: if save || (fixed && !is_copy(taken.on_disk, taken.values)) {
                    Some(taken.values)
                } else {
                    None
                },
                logged: None,
                readable_again: fixed,
            }
        },
    }
}

/// What a sync asks for.
#[derive(Debug)]
pub struct SyncStep {
    pub push: bool,
    /// The values to write.
    pub write: Option<Table>,
    /// A parse error to log.
    pub logged: Option<String>,
    /// The file parses again, which is logged.
    pub readable_again: bool,
}

fn same_tables(a: &Option<Table>, b: &Table) -> (same: bool)
    ensures
        same == is_copy(table_view(*a), b@),
{
    match a {
        Some(a) => a.same(b),
        None => false,
    }
}

impl Store {
    /// See [`synced`].
    pub fn sync(&mut self, disk: Loaded, save: bool) -> (step: SyncStep)
        ensures
            final(self)@ == synced(old(self)@, loaded_view(disk), save).store,
            step.push == synced(old(self)@, loaded_view(disk), save).push,
            table_view(step.write) == synced(old(self)@, loaded_view(disk), save).write,
            text::optional(step.logged) == synced(old(self)@, loaded_view(disk), save).logged,
            step.readable_again == synced(old(self)@, loaded_view(disk), save).readable_again,
    {
        let disk = match disk {
            Ok(disk) => disk,
            Err(error) => {
                let known = match &self.error {
                    Some(last) => text::same(last.as_str(), error.as_str()),
                    None => false,
                };
                let logged = if known {
                    None
                } else {
                    Some(error.clone())
                };
                self.error = Some(error);
                return SyncStep { push: false, write: None, logged, readable_again: false };
            },
        };
        let fixed = self.error.is_some();
        self.error = None;
        let mut push = false;
        if let Some(disk) = disk {
            if !same_tables(&self.on_disk, &disk) {
                let mut values = disk.copied();
                let defaults = object_of(json::read_json(self.defaults.as_str()));
                fill_missing(&mut values, &defaults);
                self.on_disk = Some(disk);
                if !self.values.same(&values) {
                    self.values = values;
                    push = true;
                }
            }
        }
        let write = if save || (fixed && !same_tables(&self.on_disk, &self.values)) {
            Some(self.values.copied())
        } else {
            None
        };
        SyncStep { push, write, logged: None, readable_again: fixed }
    }
}

/// The declared files.
#[derive(Debug)]
pub struct StorageController {
    files: Vec<(String, Store)>,
}

pub open spec fn file_views(files: Seq<(String, Store)>) -> Seq<(Seq<char>, StoreView)> {
    Seq::new(files.len(), |i: int| (files[i].0@, files[i].1@))
}

impl View for StorageController {
    type V = Map<Seq<char>, StoreView>;

    closed spec fn view(&self) -> Map<Seq<char>, StoreView> {
        table::map_of(file_views(self.files@))
    }
}

impl StorageController {
    pub closed spec fn wf(self) -> bool {
        table::distinct(file_views(self.files@))
    }

    pub fn new() -> (controller: Self)
        ensures
            controller.wf(),
            controller@ == Map::<Seq<char>, StoreView>::empty(),
    {
        let controller = StorageController { files: Vec::new() };
        assert(file_views(controller.files@) =~= Seq::<(Seq<char>, StoreView)>::empty());
        controller
    }

    fn find(&self, path: &str) -> (at: Option<usize>)
        requires
            self.wf(),
        ensures
            match at {
                Some(i) => i < self.files@.len() && self.files@[i as int].0@ == path@ && self@.contains_key(path@)
                    && self@[path@] == self.files@[i as int].1@,
                None => !self@.contains_key(path@),
            },
    {
        let ghost views = file_views(self.files@);
        proof {
            table::lemma_map_of(views);
        }
        let mut i: usize = 0;
        while i < self.files.len()
            invariant
                i <= self.files@.len(),
                views == file_views(self.files@),
                self@ == table::map_of(views),
                forall|k: int|
                    0 <= k < views.len() ==> table::map_of(views).contains_key((#[trigger] views[k]).0)
                        && table::map_of(views)[views[k].0] == views[k].1,
                forall|j: int| 0 <= j < i ==> (#[trigger] views[j]).0 != path@,
            decreases self.files@.len() - i,
        {
            assert(views[i as int] == (self.files@[i as int].0@, self.files@[i as int].1@));
            if text::same(self.files[i].0.as_str(), path) {
                return Some(i);
            }
            i += 1;
        }
        None
    }

    /// Whether a declaration is the first of its file, so that the file is to be read and watched.
    pub fn declares(&self, path: &str) -> (first: bool)
        requires
            self.wf(),
        ensures
            first == (is_absolute(path@) && !self@.contains_key(path@)),
    {
        absolute_path(path) && self.find(path).is_none()
    }

    /// `persistent_table { path, name, defaults }`, sent again each evaluation. The first declaration
    /// takes `loaded`, what the file held; later ones use the newer copy in memory.
    ///
    /// `defaults` fills missing keys without overwriting stored ones, so adding a default is a new
    /// key, not a reset. A merge that changed something is saved, creating the file on first run.
    pub fn open(&mut self, path: &str, defaults: &str, loaded: Loaded) -> (outcome: Result<Outcome, Refusal>)
        requires
            old(self).wf(),
        ensures
            final(self).wf(),
            if !is_absolute(path@) {
                outcome == Err::<Outcome, Refusal>(Refusal::Relative) && final(self)@ == old(self)@
            } else {
                let known = old(self)@.contains_key(path@);
                let before = if known {
                    old(self)@[path@]
                } else {
                    first_store(loaded_view(loaded))
                };
                let after = declared(before, defaults@);
                &&& final(self)@ == old(self)@.insert(path@, after)
                &&& outcome matches Ok(outcome) && outcome.save == (after.values != before.values) && outcome.push
                    == (!known || after.values != before.values)
            },
    {
        if !absolute_path(path) {
            return Err(Refusal::Relative);
        }
        let object = object_of(json::read_json(defaults));
        match self.find(path) {
            Some(at) => {
                let ghost before = file_views(self.files@);
                let (name, mut store) = self.files.remove(at);
                let changed = fill_missing(&mut store.values, &object);
                store.defaults = defaults.to_owned();
                self.files.insert(at, (name, store));
                proof {
                    assert(file_views(self.files@) =~= before.update(at as int, (before[at as int].0, store@)));
                    table::lemma_update(before, at as int, store@);
                }
                assert(store@ =~= declared(old(self)@[path@], defaults@));
                Ok(Outcome { save: changed, push: changed })
            },
            None => {
                let ghost before = file_views(self.files@);
                let mut store = match loaded {
                    Ok(on_disk) => {
                        let values = match &on_disk {
                            Some(table) => table.copied(),
                            None => Table::new(),
                        };
                        Store { values, defaults: String::new(), on_disk, error: None }
                    },
                    Err(error) => Store {
                        values: Table::new(),
                        defaults: String::new(),
                        on_disk: None,
                        error: Some(error),
                    },
                };
                let ghost first = first_store(loaded_view(loaded));
                assert(store.values@ == first.values);
                let changed = fill_missing(&mut store.values, &object);
                store.defaults = defaults.to_owned();
                assert(store@ =~= declared(first, defaults@));
                let ghost view = store@;
                self.files.push((path.to_owned(), store));
                proof {
                    assert(file_views(self.files@) =~= before.push((path@, view)));
                    table::lemma_push(before, path@, view);
                }
                Ok(Outcome { save: changed, push: true })
            },
        }
    }

    /// `store:set(key, value)`: stores one key. A write that changes nothing publishes nothing; the
    /// save stays unconditional, since rewriting is the only repair for a deleted file.
    pub fn set(&mut self, path: &str, key: &str, value: &str) -> (outcome: Result<Outcome, Refusal>)
        requires
            old(self).wf(),
        ensures
            final(self).wf(),
            if !is_absolute(path@) {
                outcome == Err::<Outcome, Refusal>(Refusal::Relative) && final(self)@ == old(self)@
            } else if key@.len() == 0 {
                outcome == Err::<Outcome, Refusal>(Refusal::EmptyKey) && final(self)@ == old(self)@
            } else if !old(self)@.contains_key(path@) {
                outcome == Err::<Outcome, Refusal>(Refusal::Undeclared) && final(self)@ == old(self)@
            } else {
                let before = old(self)@[path@];
                let after = StoreView { values: with_key(before.values, key@, value@), ..before };
                &&& final(self)@ == old(self)@.insert(path@, after)
                &&& outcome matches Ok(outcome) && outcome.save && outcome.push == (after.values != before.values)
            },
    {
        if !absolute_path(path) {
            return Err(Refusal::Relative);
        }
        if key.is_empty() {
            return Err(Refusal::EmptyKey);
        }
        let at = match self.find(path) {
            Some(at) => at,
            None => return Err(Refusal::Undeclared),
        };
        let ghost views = file_views(self.files@);
        let (name, mut store) = self.files.remove(at);
        let ghost before = store@;
        let changed = if text::same(value, "null") {
            let found = store.values.remove(key);
            assert(found == (store.values@ != before.values)) by {
                if found {
                    assert(before.values.contains_key(key@) && !store.values@.contains_key(key@));
                } else {
                    assert(before.values.remove(key@) =~= before.values);
                }
            }
            found
        } else {
            let kept = match store.values.get(key) {
                Some(known) => json::same_value(known, value),
                None => false,
            };
            if kept {
                false
            } else {
                store.values.insert(key.to_owned(), value.to_owned());
                assert(store.values@ != before.values) by {
                    assert(store.values@.contains_key(key@) && store.values@[key@] == value@);
                }
                true
            }
        };
        let ghost after = store@;
        self.files.insert(at, (name, store));
        proof {
            assert(file_views(self.files@) =~= views.update(at as int, (views[at as int].0, after)));
            table::lemma_update(views, at as int, after);
            assert(after =~= StoreView { values: with_key(before.values, key@, value@), ..before });
        }
        Ok(Outcome { save: true, push: changed })
    }

    /// Brings a file and the store that declared it together; `None` where nothing declared it.
    pub fn sync(&mut self, path: &str, disk: Loaded, save: bool) -> (step: Option<SyncStep>)
        requires
            old(self).wf(),
        ensures
            final(self).wf(),
            if old(self)@.contains_key(path@) {
                let view = synced(old(self)@[path@], loaded_view(disk), save);
                &&& final(self)@ == old(self)@.insert(path@, view.store)
                &&& step matches Some(step) && step.push == view.push && table_view(step.write) == view.write
                    && text::optional(step.logged) == view.logged && step.readable_again == view.readable_again
            } else {
                step is None && final(self)@ == old(self)@
            },
    {
        let at = match self.find(path) {
            Some(at) => at,
            None => return None,
        };
        let ghost views = file_views(self.files@);
        let (name, mut store) = self.files.remove(at);
        let step = store.sync(disk, save);
        let ghost after = store@;
        self.files.insert(at, (name, store));
        proof {
            assert(file_views(self.files@) =~= views.update(at as int, (views[at as int].0, after)));
            table::lemma_update(views, at as int, after);
        }
        Some(step)
    }

    /// A file was written; what is on disk is what was written.
    pub fn saved(&mut self, path: &str, contents: Table)
        requires
            old(self).wf(),
        ensures
            final(self).wf(),
            final(self)@ == (if old(self)@.contains_key(path@) {
                old(self)@.insert(path@, StoreView { on_disk: Some(contents@), ..old(self)@[path@] })
            } else {
                old(self)@
            }),
    {
        let at = match self.find(path) {
            Some(at) => at,
            None => return,
        };
        let ghost views = file_views(self.files@);
        let (name, mut store) = self.files.remove(at);
        store.on_disk = Some(contents);
        let ghost after = store@;
        self.files.insert(at, (name, store));
        proof {
            assert(file_views(self.files@) =~= views.update(at as int, (views[at as int].0, after)));
            table::lemma_update(views, at as int, after);
        }
    }

    /// The values of a declared file, as a config reads them; an unopened file reads as nothing, not
    /// as an empty table.
    pub fn values(&self, path: &str) -> (values: Option<&Table>)
        requires
            self.wf(),
        ensures
            match values {
                Some(values) => self@.contains_key(path@) && values@ == self@[path@].values,
                None => !self@.contains_key(path@),
            },
    {
        match self.find(path) {
            Some(at) => Some(&self.files[at].1.values),
            None => None,
        }
    }

    /// Every declared file with its values.
    pub fn snapshot(&self) -> (files: &Vec<(String, Store)>)
        requires
            self.wf(),
        ensures
            table::distinct(file_views(files@)),
            table::map_of(file_views(files@)) == self@,
    {
        &self.files
    }

    /// The declared files an event in a watched directory may be about. A nameless event is a queue
    /// overflow, which may have left out any store's write.
    pub fn concerned(&self, event_name: Option<&str>) -> (paths: Vec<String>)
        requires
            self.wf(),
        ensures
            forall|p: Seq<char>|
                text::strings(paths@).contains(p) <==> #[trigger] self@.contains_key(p) && (event_name is None
                    || path::file_name_text(p) == text::optional_str(event_name)),
    {
        let ghost views = file_views(self.files@);
        let ghost wanted = text::optional_str(event_name);
        proof {
            table::lemma_map_of(views);
        }
        let mut paths: Vec<String> = Vec::new();
        let mut i: usize = 0;
        while i < self.files.len()
            invariant
                i <= self.files@.len(),
                views == file_views(self.files@),
                wanted == text::optional_str(event_name),
                forall|p: int|
                    0 <= p < paths@.len() ==> exists|j: int|
                        0 <= j < i && (#[trigger] views[j]).0 == (#[trigger] paths@[p])@ && (event_name is None
                            || path::file_name_text(views[j].0) == wanted),
                forall|j: int|
                    0 <= j < i && (event_name is None || path::file_name_text((#[trigger] views[j]).0) == wanted)
                        ==> text::strings(paths@).contains(views[j].0),
            decreases self.files@.len() - i,
        {
            let ghost before = paths@;
            assert(views[i as int] == (self.files@[i as int].0@, self.files@[i as int].1@));
            let concerns = match event_name {
                None => true,
                Some(name) => match path::file_name_of(self.files[i].0.as_str()) {
                    Some(own) => text::same(own.as_str(), name),
                    None => false,
                },
            };
            if concerns {
                paths.push(self.files[i].0.clone());
            }
            proof {
                assert forall|p: int| 0 <= p < paths@.len() implies exists|j: int|
                    0 <= j < i + 1 && (#[trigger] views[j]).0 == (#[trigger] paths@[p])@ && (event_name is None
                        || path::file_name_text(views[j].0) == wanted) by {
                    if p < before.len() {
                        assert(paths@[p] == before[p]);
                        let j = choose|j: int|
                            0 <= j < i && (#[trigger] views[j]).0 == before[p]@ && (event_name is None
                                || path::file_name_text(views[j].0) == wanted);
                        assert(views[j].0 == paths@[p]@);
                    } else {
                        assert(views[i as int].0 == paths@[p]@);
                    }
                }
                assert forall|j: int|
                    0 <= j < i + 1 && (event_name is None || path::file_name_text((#[trigger] views[j]).0)
                        == wanted) implies text::strings(paths@).contains(views[j].0) by {
                    if j < i {
                        let k = choose|k: int|
                            0 <= k < text::strings(before).len() && text::strings(before)[k] == views[j].0;
                        assert(text::strings(paths@)[k] == views[j].0);
                    } else {
                        assert(text::strings(paths@)[paths@.len() - 1] == views[j].0);
                    }
                }
            }
            i += 1;
        }
        proof {
            assert forall|p: Seq<char>| text::strings(paths@).contains(p) <==> #[trigger] self@.contains_key(p) && (
            event_name is None || path::file_name_text(p) == wanted) by {
                if text::strings(paths@).contains(p) {
                    let k = choose|k: int| 0 <= k < text::strings(paths@).len() && text::strings(paths@)[k] == p;
                    assert(paths@[k]@ == p);
                    let j = choose|j: int|
                        0 <= j < views.len() && (#[trigger] views[j]).0 == paths@[k]@ && (event_name is None
                            || path::file_name_text(views[j].0) == wanted);
                    assert(table::map_of(views).contains_key(views[j].0));
                }
                if self@.contains_key(p) && (event_name is None || path::file_name_text(p) == wanted) {
                    let j = choose|j: int| 0 <= j < views.len() && (#[trigger] views[j]).0 == p;
                    assert(text::strings(paths@).contains(views[j].0));
                }
            }
        }
        paths
    }
}

/// What was saved reads back through a fresh controller: a stored key wins over a default, and a new
/// default comes in beside it.
pub proof fn what_was_saved_reads_back(
    saved: Map<Seq<char>, Seq<char>>,
    defaults: Seq<char>,
    key: Seq<char>,
)
    ensures
        saved.contains_key(key) ==> {
            let values = declared(first_store(Ok(Some(saved))), defaults).values;
            values.contains_key(key) && values[key] == saved[key]
        },
        object_in(json::json_level(defaults)) matches Some(object) ==> !saved.contains_key(key)
            && object.contains_key(key) ==> {
            let values = declared(first_store(Ok(Some(saved))), defaults).values;
            values.contains_key(key) && values[key] == object[key]
        },
{
}

/// A write that landed on disk is not taken for someone else's: seeing it changes nothing and writes
/// nothing.
pub proof fn an_own_write_is_not_taken_back(store: StoreView)
    requires
        store.error is None,
    ensures
        synced(
            StoreView { on_disk: Some(store.values), ..store },
            Ok(Some(store.values)),
            false,
        ).store == (StoreView { on_disk: Some(store.values), ..store }),
        !synced(StoreView { on_disk: Some(store.values), ..store }, Ok(Some(store.values)), false).push,
        synced(StoreView { on_disk: Some(store.values), ..store }, Ok(Some(store.values)), false).write is None,
{
}

/// A file that does not parse is never written over, and keeps its last values; it is logged once,
/// and so is that it parses again.
pub proof fn a_broken_file_is_left_alone(store: StoreView, error: Seq<char>, save: bool)
    ensures
        synced(store, Err(error), save).write is None,
        !synced(store, Err(error), save).push,
        synced(store, Err(error), save).store.values == store.values,
        synced(synced(store, Err(error), save).store, Err(error), save).logged is None,
        !synced(store, Err(error), save).readable_again,
        forall|disk: Option<Map<Seq<char>, Seq<char>>>| #[trigger]
            synced(synced(store, Err(error), save).store, Ok(disk), save).readable_again,
{
}

/// A later declaration with the same defaults changes nothing.
pub proof fn a_repeated_declaration_changes_nothing(store: StoreView, defaults: Seq<char>)
    ensures
        declared(declared(store, defaults), defaults) == declared(store, defaults),
{
    assert(declared(declared(store, defaults), defaults) =~= declared(store, defaults)) by {
        match object_in(json::json_level(defaults)) {
            Some(object) => {
                assert(object.union_prefer_right(object.union_prefer_right(store.values))
                    =~= object.union_prefer_right(store.values));
            },
            None => {},
        }
    }
}

/// A key set reads back as a value that is the same, and as the very text where it was not there
/// already; deleting it leaves the others.
pub proof fn a_set_key_reads_back(
    values: Map<Seq<char>, Seq<char>>,
    key: Seq<char>,
    value: Seq<char>,
    other: Seq<char>,
)
    requires
        other != key,
    ensures
        value != "null"@ ==> with_key(values, key, value).contains_key(key) && json::same_json(
            with_key(values, key, value)[key],
            value,
        ),
        value != "null"@ && !(values.contains_key(key) && json::same_json(values[key], value)) ==> with_key(
            values,
            key,
            value,
        )[key] == value,
        value == "null"@ ==> !with_key(values, key, value).contains_key(key),
        with_key(values, key, value).contains_key(other) == values.contains_key(other),
        values.contains_key(other) ==> with_key(values, key, value)[other] == values[other],
{
}

/// A path is absolute where it begins with a slash.
pub proof fn an_absolute_path_begins_with_a_slash(path: Seq<char>)
    ensures
        is_absolute("/"@ + path),
        is_absolute(path) ==> exists|rest: Seq<char>| path == #[trigger] ("/"@ + rest),
{
    reveal_strlit("/");
    if is_absolute(path) {
        assert(path =~= "/"@ + path.skip(1));
    }
}

/// Defaults fill in what is missing and change nothing that is stored.
pub proof fn defaults_fill_in_what_is_missing(
    stored: Map<Seq<char>, Seq<char>>,
    defaults: Map<Seq<char>, Seq<char>>,
    key: Seq<char>,
)
    ensures
        filled(stored, None) == stored,
        filled(stored, Some(defaults)).contains_key(key) <==> stored.contains_key(key) || defaults.contains_key(key),
        stored.contains_key(key) ==> filled(stored, Some(defaults))[key] == stored[key],
        !stored.contains_key(key) && defaults.contains_key(key) ==> filled(stored, Some(defaults))[key] == defaults[key],
{
}

/// Only a JSON object is taken, with all its keys.
pub proof fn only_an_object_is_taken(level: Option<json::JsonView>, error: Seq<char>)
    ensures
        object_in(level) is Some <==> (level matches Some(json::JsonView::Table(_))),
        level matches Some(json::JsonView::Table(entries)) ==> object_in(level) == Some(table::map_of(entries)),
        parsed(level, Some(error)) == Err::<Option<Map<Seq<char>, Seq<char>>>, Seq<char>>(error),
        object_in(level) is Some ==> parsed(level, None) == Ok::<Option<Map<Seq<char>, Seq<char>>>, Seq<char>>(
            object_in(level),
        ),
        object_in(level) is None ==> parsed(level, None) == Err::<Option<Map<Seq<char>, Seq<char>>>, Seq<char>>(
            "not a JSON object"@,
        ),
{
}

/// What is written first goes beside the file, under a hidden name with the file's and the process's.
pub proof fn a_temporary_is_named_after_its_file(name: Seq<char>, pid: u32)
    ensures
        temporary_name(Some(name), pid) == "."@ + name + "."@ + text::decimal(pid as nat) + ".tmp"@,
        temporary_name(None, pid) == "."@ + "."@ + text::decimal(pid as nat) + ".tmp"@,
        text::starts_with(temporary_name(Some(name), pid), "."@),
{
    reveal_strlit(".");
    assert("."@ + Seq::<char>::empty() =~= "."@);
    assert(temporary_name(Some(name), pid).subrange(0, 1) =~= "."@);
}

/// A file opened for the first time has the values on disk and remembers them; one that is not there
/// has none, and one that cannot be read has none and its error.
pub proof fn a_first_opening_takes_the_disk(values: Map<Seq<char>, Seq<char>>, error: Seq<char>)
    ensures
        first_store(Ok(Some(values))).values == values && first_store(Ok(Some(values))).on_disk == Some(values)
            && first_store(Ok(Some(values))).error is None,
        first_store(Ok(None)).values == Map::<Seq<char>, Seq<char>>::empty() && first_store(Ok(None)).on_disk is None
            && first_store(Ok(None)).error is None,
        first_store(Err(error)).values == Map::<Seq<char>, Seq<char>>::empty() && first_store(Err(error)).on_disk is None
            && first_store(Err(error)).error == Some(error),
        first_store(Ok(Some(values))).defaults.len() == 0 && first_store(Ok(None)).defaults.len() == 0 && first_store(
            Err(error),
        ).defaults.len() == 0,
{
}

/// A declaration fills in its defaults and remembers them, and changes nothing else.
pub proof fn a_declaration_fills_in_its_defaults(store: StoreView, defaults: Seq<char>, key: Seq<char>)
    ensures
        declared(store, defaults).defaults == defaults,
        declared(store, defaults).on_disk == store.on_disk,
        declared(store, defaults).error == store.error,
        store.values.contains_key(key) ==> declared(store, defaults).values.contains_key(key) && declared(
            store,
            defaults,
        ).values[key] == store.values[key],
        match json::json_level(defaults) {
            Some(json::JsonView::Table(entries)) => {
                let object = table::map_of(entries);
                &&& declared(store, defaults).values.contains_key(key) <==> store.values.contains_key(key)
                    || object.contains_key(key)
                &&& !store.values.contains_key(key) && object.contains_key(key) ==> declared(store, defaults).values[key]
                    == object[key]
            },
            _ => declared(store, defaults).values == store.values,
        },
{
}

/// What somebody else wrote is taken: its values with the defaults filled in. It is pushed exactly
/// where that changes a value, and the file is remembered as it is.
pub proof fn what_another_wrote_is_taken(store: StoreView, disk: Map<Seq<char>, Seq<char>>, save: bool, key: Seq<char>)
    requires
        store.on_disk is None || !json::same_object(store.on_disk->Some_0, disk),
    ensures
        ({
            let after = synced(store, Ok(Some(disk)), save);
            &&& after.store.on_disk == Some(disk)
            &&& after.store.error is None
            &&& after.store.defaults == store.defaults
            &&& after.push <==> after.store.values != store.values
            &&& after.store.values != store.values && disk.contains_key(key) ==> after.store.values.contains_key(key)
                && after.store.values[key] == disk[key]
            &&& after.store.values == store.values || json::same_object(
                after.store.values,
                filled(disk, object_in(json::json_level(store.defaults))),
            )
            &&& after.store.values == store.values ==> json::same_object(
                store.values,
                filled(disk, object_in(json::json_level(store.defaults))),
            )
            &&& save ==> after.write == Some(after.store.values)
        }),
{
    let values = filled(disk, object_in(json::json_level(store.defaults)));
    assert(json::same_object(values, values));
}

/// A file that holds what it is remembered to hold, or that is not there, changes no value. A pending
/// save writes the values, and so does a file that can be read again and lacks them.
pub proof fn an_unchanged_file_changes_nothing(
    store: StoreView,
    disk: Option<Map<Seq<char>, Seq<char>>>,
    save: bool,
)
    requires
        disk is None || (store.on_disk is Some && json::same_object(store.on_disk->Some_0, disk->Some_0)),
    ensures
        ({
            let after = synced(store, Ok(disk), save);
            &&& after.store.values == store.values
            &&& after.store.on_disk == store.on_disk
            &&& after.store.defaults == store.defaults
            &&& after.store.error is None
            &&& !after.push
            &&& after.logged is None
            &&& after.readable_again <==> store.error is Some
            &&& save ==> after.write == Some(store.values)
            &&& !save && store.error is None ==> after.write is None
            &&& !save && store.error is Some ==> (after.write is None <==> store.on_disk is Some && json::same_object(
                store.on_disk->Some_0,
                store.values,
            ))
            &&& after.write is Some ==> after.write == Some(store.values)
        }),
{
}

/// An error is logged once and remembered, and the values stay.
pub proof fn an_error_is_logged_once(store: StoreView, error: Seq<char>, save: bool)
    ensures
        synced(store, Err(error), save).store.error == Some(error),
        synced(store, Err(error), save).store.on_disk == store.on_disk,
        synced(store, Err(error), save).store.defaults == store.defaults,
        store.error != Some(error) ==> synced(store, Err(error), save).logged == Some(error),
        store.error == Some(error) ==> synced(store, Err(error), save).logged is None,
{
}

} // verus!
