//! The capability roster, and the text rules every capability shares.

use vstd::prelude::*;
use vstd::utf8;

use crate::json::{self, Json};
use crate::text;

pub mod applications;
pub mod battery;
pub mod bluetooth;
pub mod idle;
pub mod keyboard;
pub mod lifecycle;
pub mod lock;
pub mod network;
pub mod notifications;
pub mod shm_icons;
pub mod signals;
pub mod storage;
pub mod sysinfo;
pub mod system;
pub mod tray;
pub mod updates;
pub mod windows;
pub mod worker;

verus! {

/// Every `mantle.<name>` member.
#[derive(Debug, Clone, Copy, PartialEq, Eq, Structural)]
pub enum Capability {
    Network,
    Bluetooth,
    Tray,
    Notifications,
    Mpris,
    Sysinfo,
    Keyboard,
    Privacy,
    Updates,
    Battery,
    Brightness,
    Workspaces,
    Windows,
    Power,
    System,
    Applications,
    Files,
    Storage,
    Processes,
    Audio,
    Idle,
    Lock,
    Polkit,
}

impl Capability {
    /// The name a config reads the capability under.
    pub open spec fn spec_name(self) -> Seq<char> {
        match self {
            Capability::Network => "network"@,
            Capability::Bluetooth => "bluetooth"@,
            Capability::Tray => "tray"@,
            Capability::Notifications => "notifications"@,
            Capability::Mpris => "mpris"@,
            Capability::Sysinfo => "sysinfo"@,
            Capability::Keyboard => "keyboard"@,
            Capability::Privacy => "privacy"@,
            Capability::Updates => "updates"@,
            Capability::Battery => "battery"@,
            Capability::Brightness => "brightness"@,
            Capability::Workspaces => "workspaces"@,
            Capability::Windows => "windows"@,
            Capability::Power => "power"@,
            Capability::System => "system"@,
            Capability::Applications => "applications"@,
            Capability::Files => "files"@,
            Capability::Storage => "storage"@,
            Capability::Processes => "processes"@,
            Capability::Audio => "audio"@,
            Capability::Idle => "idle"@,
            Capability::Lock => "lock"@,
            Capability::Polkit => "polkit"@,
        }
    }

    pub fn name(self) -> (name: &'static str)
        ensures
            name@ == self.spec_name(),
    {
        match self {
            Capability::Network => "network",
            Capability::Bluetooth => "bluetooth",
            Capability::Tray => "tray",
            Capability::Notifications => "notifications",
            Capability::Mpris => "mpris",
            Capability::Sysinfo => "sysinfo",
            Capability::Keyboard => "keyboard",
            Capability::Privacy => "privacy",
            Capability::Updates => "updates",
            Capability::Battery => "battery",
            Capability::Brightness => "brightness",
            Capability::Workspaces => "workspaces",
            Capability::Windows => "windows",
            Capability::Power => "power",
            Capability::System => "system",
            Capability::Applications => "applications",
            Capability::Files => "files",
            Capability::Storage => "storage",
            Capability::Processes => "processes",
            Capability::Audio => "audio",
            Capability::Idle => "idle",
            Capability::Lock => "lock",
            Capability::Polkit => "polkit",
        }
    }

    /// The roster entry that `name` names, and `None` when no entry does.
    pub fn from_name(name: &str) -> (capability: Option<Capability>)
        ensures
            match capability {
                Some(c) => c.spec_name() == name@,
                None => forall|c: Capability| #[trigger] c.spec_name() != name@,
            },
    {
        let mut i: usize = 0;
        while i < 23
            invariant
                i <= 23,
                forall|j: int| 0 <= j < i ==> #[trigger] spec_roster(j).spec_name() != name@,
            decreases 23 - i,
        {
            let candidate = roster(i);
            if text::same(candidate.name(), name) {
                return Some(candidate);
            }
            i += 1;
        }
        assert forall|c: Capability| #[trigger] c.spec_name() != name@ by {
            lemma_roster_is_complete(c);
        }
        None
    }
}

/// A name names one capability: what [`Capability::from_name`] finds for a capability's name is that
/// capability.
pub proof fn a_name_names_one_capability(a: Capability, b: Capability)
    requires
        a.spec_name() == b.spec_name(),
    ensures
        a == b,
{
    reveal_strlit("network");
    reveal_strlit("bluetooth");
    reveal_strlit("tray");
    reveal_strlit("notifications");
    reveal_strlit("mpris");
    reveal_strlit("sysinfo");
    reveal_strlit("keyboard");
    reveal_strlit("privacy");
    reveal_strlit("updates");
    reveal_strlit("battery");
    reveal_strlit("brightness");
    reveal_strlit("workspaces");
    reveal_strlit("windows");
    reveal_strlit("power");
    reveal_strlit("system");
    reveal_strlit("applications");
    reveal_strlit("files");
    reveal_strlit("storage");
    reveal_strlit("processes");
    reveal_strlit("audio");
    reveal_strlit("idle");
    reveal_strlit("lock");
    reveal_strlit("polkit");
    let (x, y) = (a.spec_name(), b.spec_name());
    assert(x.len() == y.len() && x[0] == y[0] && x[1] == y[1] && x[3] == y[3]);
}

/// The roster in order.
pub open spec fn spec_roster(i: int) -> Capability {
    if i == 0 { Capability::Network }
    else if i == 1 { Capability::Bluetooth }
    else if i == 2 { Capability::Tray }
    else if i == 3 { Capability::Notifications }
    else if i == 4 { Capability::Mpris }
    else if i == 5 { Capability::Sysinfo }
    else if i == 6 { Capability::Keyboard }
    else if i == 7 { Capability::Privacy }
    else if i == 8 { Capability::Updates }
    else if i == 9 { Capability::Battery }
    else if i == 10 { Capability::Brightness }
    else if i == 11 { Capability::Workspaces }
    else if i == 12 { Capability::Windows }
    else if i == 13 { Capability::Power }
    else if i == 14 { Capability::System }
    else if i == 15 { Capability::Applications }
    else if i == 16 { Capability::Files }
    else if i == 17 { Capability::Storage }
    else if i == 18 { Capability::Processes }
    else if i == 19 { Capability::Audio }
    else if i == 20 { Capability::Idle }
    else if i == 21 { Capability::Lock }
    else { Capability::Polkit }
}

/// A capability's place in the roster.
pub open spec fn roster_index(c: Capability) -> int {
    match c {
        Capability::Network => 0,
        Capability::Bluetooth => 1,
        Capability::Tray => 2,
        Capability::Notifications => 3,
        Capability::Mpris => 4,
        Capability::Sysinfo => 5,
        Capability::Keyboard => 6,
        Capability::Privacy => 7,
        Capability::Updates => 8,
        Capability::Battery => 9,
        Capability::Brightness => 10,
        Capability::Workspaces => 11,
        Capability::Windows => 12,
        Capability::Power => 13,
        Capability::System => 14,
        Capability::Applications => 15,
        Capability::Files => 16,
        Capability::Storage => 17,
        Capability::Processes => 18,
        Capability::Audio => 19,
        Capability::Idle => 20,
        Capability::Lock => 21,
        Capability::Polkit => 22,
    }
}

/// Every capability stands in the roster.
pub proof fn lemma_roster_is_complete(c: Capability)
    ensures
        0 <= roster_index(c) < 23,
        spec_roster(roster_index(c)) == c,
{
}

fn roster(i: usize) -> (c: Capability)
    ensures
        c == spec_roster(i as int),
{
    match i {
        0 => Capability::Network,
        1 => Capability::Bluetooth,
        2 => Capability::Tray,
        3 => Capability::Notifications,
        4 => Capability::Mpris,
        5 => Capability::Sysinfo,
        6 => Capability::Keyboard,
        7 => Capability::Privacy,
        8 => Capability::Updates,
        9 => Capability::Battery,
        10 => Capability::Brightness,
        11 => Capability::Workspaces,
        12 => Capability::Windows,
        13 => Capability::Power,
        14 => Capability::System,
        15 => Capability::Applications,
        16 => Capability::Files,
        17 => Capability::Storage,
        18 => Capability::Processes,
        19 => Capability::Audio,
        20 => Capability::Idle,
        21 => Capability::Lock,
        _ => Capability::Polkit,
    }
}

// ---- capped text ----

/// `s` without as many characters from its end as it takes to fit `max` bytes of UTF-8.
pub open spec fn truncated(s: Seq<char>, max: int) -> Seq<char>
    decreases s.len(),
{
    if utf8::encode_utf8(s).len() <= max || s.len() == 0 {
        s
    } else {
        truncated(s.drop_last(), max)
    }
}

pub proof fn lemma_utf8_len_last(s: Seq<char>)
    requires
        s.len() > 0,
    ensures
        utf8::encode_utf8(s).len() == utf8::encode_utf8(s.drop_last()).len() + utf8::encode_scalar(s.last() as u32).len(),
    decreases s.len(),
{
    reveal_with_fuel(utf8::encode_utf8, 2);
    if s.len() > 1 {
        lemma_utf8_len_last(s.drop_first());
        assert(s.drop_first().drop_last() =~= s.drop_last().drop_first());
        assert(s.drop_first().last() == s.last());
        assert(s.drop_last()[0] == s[0]);
    }
}

/// A truncated text fits its cap, starts the text it was cut from, and is the longest such start.
pub proof fn a_truncated_text_is_the_longest_start_that_fits(s: Seq<char>, max: int, longer: int)
    requires
        0 <= max,
        truncated(s, max).len() < longer <= s.len(),
    ensures
        utf8::encode_utf8(truncated(s, max)).len() <= max,
        truncated(s, max) == s.subrange(0, truncated(s, max).len() as int),
        utf8::encode_utf8(s.subrange(0, longer)).len() > max,
    decreases s.len(),
{
    if utf8::encode_utf8(s).len() > max && s.len() > 0 {
        if longer == s.len() {
            assert(s.subrange(0, longer) =~= s);
            lemma_truncated(s, max);
        } else {
            a_truncated_text_is_the_longest_start_that_fits(s.drop_last(), max, longer);
            assert(s.drop_last().subrange(0, longer) =~= s.subrange(0, longer));
            let t = truncated(s, max).len() as int;
            assert(s.drop_last().subrange(0, t) =~= s.subrange(0, t));
        }
    }
}

/// A truncated text fits its cap and starts the text it was cut from.
pub proof fn lemma_truncated(s: Seq<char>, max: int)
    requires
        0 <= max,
    ensures
        utf8::encode_utf8(truncated(s, max)).len() <= max,
        truncated(s, max).len() <= s.len(),
        truncated(s, max) == s.subrange(0, truncated(s, max).len() as int),
    decreases s.len(),
{
    if utf8::encode_utf8(s).len() <= max || s.len() == 0 {
        assert(s.subrange(0, s.len() as int) =~= s);
        if s.len() == 0 {
            assert(s =~= Seq::<char>::empty());
            assert(utf8::encode_utf8(s).len() == 0);
        }
    } else {
        lemma_truncated(s.drop_last(), max);
        let t = truncated(s, max).len() as int;
        assert(s.drop_last().subrange(0, t) =~= s.subrange(0, t));
    }
}

/// How many bytes UTF-8 takes for `c`.
fn utf8_width(c: char) -> (width: usize)
    ensures
        width == utf8::encode_scalar(c as u32).len(),
        1 <= width <= 4,
{
    let p: u32 = c as u32;
    if p <= 0x7f {
        1
    } else if p <= 0x7ff {
        2
    } else if p <= 0xffff {
        3
    } else {
        4
    }
}

/// Truncates to `max_bytes`, backing off to a character boundary.
///
/// Every capability that copies a string out of a third party's D-Bus reply caps it here.
pub fn truncate_utf8_bytes(input: &str, max_bytes: usize) -> (out: String)
    ensures
        out@ == truncated(input@, max_bytes as int),
{
    let chars = text::chars_of(input);
    let mut size: usize = input.as_bytes().len();
    let mut end: usize = chars.len();
    assert(input@.subrange(0, end as int) =~= input@);
    while size > max_bytes && end > 0
        invariant
            chars@ == input@,
            end <= input@.len(),
            size == utf8::encode_utf8(input@.subrange(0, end as int)).len(),
            truncated(input@.subrange(0, end as int), max_bytes as int) == truncated(input@, max_bytes as int),
        decreases end,
    {
        proof {
            let s = input@.subrange(0, end as int);
            lemma_utf8_len_last(s);
            assert(s.drop_last() =~= input@.subrange(0, end - 1));
            assert(s.last() == input@[end - 1]);
        }
        size -= utf8_width(chars[end - 1]);
        end -= 1;
    }
    input.substring_char(0, end).to_owned()
}

/// The items of a list that may be omitted or `nil`. An empty Lua table arrives as `{}`; `None` for
/// anything else.
pub open spec fn lua_items(value: Option<json::JsonView>) -> Option<Seq<Seq<char>>> {
    match value {
        None | Some(json::JsonView::Null) => Some(Seq::empty()),
        Some(json::JsonView::List(items)) => Some(items),
        Some(json::JsonView::Table(entries)) if entries.len() == 0 => Some(Seq::empty()),
        Some(_) => None,
    }
}

/// The texts of an optional list.
pub open spec fn listed(items: Option<Vec<String>>) -> Option<Seq<Seq<char>>> {
    match items {
        Some(items) => Some(text::strings(items@)),
        None => None,
    }
}

/// [`lua_items`] of a value that was read; `None` for an omitted one.
pub fn lua_list_in(value: Option<Json>) -> (items: Option<Vec<String>>)
    ensures
        listed(items) == lua_items(
            match value {
                Some(value) => Some(value@),
                None => None,
            },
        ),
{
    match value {
        None | Some(Json::Null) => {
            let items: Vec<String> = Vec::new();
            assert(text::strings(items@) =~= Seq::<Seq<char>>::empty());
            Some(items)
        },
        Some(Json::List(items)) => Some(items),
        Some(Json::Table(entries)) => {
            if entries.len() > 0 {
                return None;
            }
            let items: Vec<String> = Vec::new();
            assert(text::strings(items@) =~= Seq::<Seq<char>>::empty());
            Some(items)
        },
        Some(_) => None,
    }
}

/// The items of a list argument, each as JSON; `None` for an argument that is no list.
pub fn lua_list(argument: Option<&str>) -> (items: Option<Vec<String>>)
    ensures
        listed(items) == (match argument {
            None => lua_items(None),
            Some(argument) => match json::json_level(argument@) {
                Some(level) => lua_items(Some(level)),
                None => None,
            },
        }),
{
    match argument {
        None => lua_list_in(None),
        Some(argument) => match json::read_json(argument) {
            Some(level) => lua_list_in(Some(level)),
            None => None,
        },
    }
}

/// A string argument used as a key, where empty would name nothing.
pub fn non_empty(value: String) -> (key: Result<String, String>)
    ensures
        if value@.len() == 0 {
            key matches Err(message) && message@ == "expected a non-empty string"@
        } else {
            key == Ok::<String, String>(value)
        },
{
    if value.as_str().is_empty() {
        Err("expected a non-empty string".to_owned())
    } else {
        Ok(value)
    }
}

/// A sysfs attribute's value: its text without whitespace around it; missing or unreadable means
/// absent.
pub fn read_attr(contents: Option<String>) -> (value: Option<String>)
    ensures
        text::optional(value) == (match contents {
            Some(contents) => Some(text::trim(contents@)),
            None => None,
        }),
{
    match contents {
        Some(contents) => Some(text::str_trim(contents.as_str()).to_owned()),
        None => None,
    }
}

/// What Lua sends for a list: nothing at all, `null` and an empty table are the empty list, a list is
/// its items, and anything else is none.
pub proof fn a_lua_list_is_its_items(value: Option<json::JsonView>, items: Seq<Seq<char>>)
    ensures
        lua_items(None) == Some(Seq::<Seq<char>>::empty()),
        lua_items(Some(json::JsonView::Null)) == Some(Seq::<Seq<char>>::empty()),
        lua_items(Some(json::JsonView::List(items))) == Some(items),
        value matches Some(json::JsonView::Table(entries)) ==> lua_items(value) == (if entries.len() == 0 {
            Some(Seq::<Seq<char>>::empty())
        } else {
            None
        }),
        (value matches Some(json::JsonView::Bool(_))) || (value matches Some(json::JsonView::Number(_))) || (
        value matches Some(json::JsonView::Text(_))) ==> lua_items(value) is None,
{
}

/// A text within its cap is left whole, and a longer one loses characters from its end only.
pub proof fn a_text_within_its_cap_stays_whole(s: Seq<char>, max: int)
    requires
        0 <= max,
    ensures
        utf8::encode_utf8(s).len() <= max ==> truncated(s, max) == s,
        truncated(s, max).is_prefix_of(s),
        utf8::encode_utf8(truncated(s, max)).len() <= max,
{
    lemma_truncated(s, max);
}

/// Each capability goes by its own name.
pub proof fn a_capability_goes_by_its_name()
    ensures
        Capability::Network.spec_name() == "network"@,
        Capability::Bluetooth.spec_name() == "bluetooth"@,
        Capability::Tray.spec_name() == "tray"@,
        Capability::Notifications.spec_name() == "notifications"@,
        Capability::Mpris.spec_name() == "mpris"@,
        Capability::Sysinfo.spec_name() == "sysinfo"@,
        Capability::Keyboard.spec_name() == "keyboard"@,
        Capability::Privacy.spec_name() == "privacy"@,
        Capability::Updates.spec_name() == "updates"@,
        Capability::Battery.spec_name() == "battery"@,
        Capability::Brightness.spec_name() == "brightness"@,
        Capability::Workspaces.spec_name() == "workspaces"@,
        Capability::Windows.spec_name() == "windows"@,
        Capability::Power.spec_name() == "power"@,
        Capability::System.spec_name() == "system"@,
        Capability::Applications.spec_name() == "applications"@,
        Capability::Files.spec_name() == "files"@,
        Capability::Storage.spec_name() == "storage"@,
        Capability::Processes.spec_name() == "processes"@,
        Capability::Audio.spec_name() == "audio"@,
        Capability::Idle.spec_name() == "idle"@,
        Capability::Lock.spec_name() == "lock"@,
        Capability::Polkit.spec_name() == "polkit"@,
{
}

/// The capabilities are told one after the other in one order.
pub proof fn the_roster_names_every_capability()
    ensures
        spec_roster(0) == Capability::Network,
        spec_roster(1) == Capability::Bluetooth,
        spec_roster(2) == Capability::Tray,
        spec_roster(3) == Capability::Notifications,
        spec_roster(4) == Capability::Mpris,
        spec_roster(5) == Capability::Sysinfo,
        spec_roster(6) == Capability::Keyboard,
        spec_roster(7) == Capability::Privacy,
        spec_roster(8) == Capability::Updates,
        spec_roster(9) == Capability::Battery,
        spec_roster(10) == Capability::Brightness,
        spec_roster(11) == Capability::Workspaces,
        spec_roster(12) == Capability::Windows,
        spec_roster(13) == Capability::Power,
        spec_roster(14) == Capability::System,
        spec_roster(15) == Capability::Applications,
        spec_roster(16) == Capability::Files,
        spec_roster(17) == Capability::Storage,
        spec_roster(18) == Capability::Processes,
        spec_roster(19) == Capability::Audio,
        spec_roster(20) == Capability::Idle,
        spec_roster(21) == Capability::Lock,
        spec_roster(22) == Capability::Polkit,
{
}

} // verus!
