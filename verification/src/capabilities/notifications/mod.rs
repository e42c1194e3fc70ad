//! Notifications (`mantle.notifications`): the wire types, the caps on what an application sends,
//! and the hints this server reads.

use vstd::prelude::*;

use crate::capabilities::truncate_utf8_bytes;
use crate::text;

pub mod actions;

verus! {

/// Well-known bus name and object path.
pub const NOTIFICATIONS_BUS_NAME: &'static str = "org.freedesktop.Notifications";

pub const NOTIFICATIONS_OBJECT_PATH: &'static str = "/org/freedesktop/Notifications";

/// Property caps, measured in bytes and truncated at UTF-8 boundaries.
pub const MAX_APP_NAME_BYTES: usize = 64;

pub const MAX_SUMMARY_BYTES: usize = 128;

pub const MAX_BODY_BYTES: usize = 512;

/// Action caps: unprivileged session-bus input is drawn by config. Eight is well past a typical
/// card's three; labels are capped tighter than summaries.
pub const MAX_ACTIONS: usize = 8;

pub const MAX_ACTION_LABEL_BYTES: usize = 64;

/// Theme name from `app_icon`, capped like the short identifier `app_name`.
pub const MAX_APP_ICON_NAME_BYTES: usize = MAX_APP_NAME_BYTES;

/// `desktop-entry` cap. Reverse-DNS ids top out around 40 bytes.
pub const MAX_DESKTOP_ENTRY_BYTES: usize = MAX_SUMMARY_BYTES;

/// Reply placeholder cap, matching a drawn action label.
pub const MAX_REPLY_PLACEHOLDER_BYTES: usize = MAX_ACTION_LABEL_BYTES;

/// Backing queue cap and `notifications.feed` view size.
pub const NOTIFICATION_QUEUE_CAP: usize = 100;

pub const NOTIFICATION_FEED_VIEW: usize = 20;

/// Raw image-data dimension cap, shared with `tray`.
pub const MAX_IMAGE_DIMENSION: i32 = 128;

/// Server default for `expire_timeout == -1`.
pub const DEFAULT_EXPIRE_MS: u64 = 5000;

/// What `GetCapabilities` answers.
pub open spec fn capabilities() -> Seq<Seq<char>> {
    seq![
        "action-icons"@,
        "actions"@,
        "body"@,
        "body-hyperlinks"@,
        "body-images"@,
        "body-markup"@,
        "icon-static"@,
        "persistence"@,
        "sound"@,
        "inline-reply"@,
    ]
}

pub fn notifications_capabilities() -> (list: Vec<&'static str>)
    ensures
        text::texts(list@) == capabilities(),
{
    let mut list: Vec<&'static str> = Vec::new();
    list.push("action-icons");
    list.push("actions");
    list.push("body");
    list.push("body-hyperlinks");
    list.push("body-images");
    list.push("body-markup");
    list.push("icon-static");
    list.push("persistence");
    list.push("sound");
    list.push("inline-reply");
    assert(text::texts(list@) =~= capabilities());
    list
}

/// One body-markup run: styled text or an image.
#[derive(Debug, Clone, PartialEq, Eq)]
pub enum NotificationSpan {
    Text {
        /// Unescaped text; empty runs are omitted.
        text: String,
        /// Whether the run was inside `<b>`.
        bold: bool,
        /// Whether the run was inside `<i>`.
        italic: bool,
        /// Whether the run was inside `<u>`.
        underline: bool,
        /// `<a href>` target, or `None` when not a link.
        href: Option<String>,
    },
    Image {
        /// Existing absolute path under an icon root; images elsewhere are dropped.
        image_path: String,
    },
}

/// One action button.
#[derive(Debug, Clone, PartialEq, Eq)]
pub struct NotificationAction {
    /// Opaque key for `:invoke_action(id, key)`.
    pub key: String,
    /// Button label, capped at 64 bytes. An empty label falls back to the key unless `icon_name` is
    /// set.
    pub label: String,
    /// Theme icon name (the key) when the sender set `action-icons`. Never a path.
    pub icon_name: Option<String>,
}

/// Notification urgency, also the `set_sound` tier.
#[derive(Debug, Clone, Copy, PartialEq, Eq, Hash, Structural)]
pub enum Urgency {
    Low,
    Normal,
    Critical,
}

impl Default for Urgency {
    fn default() -> (urgency: Self)
        ensures
            urgency == Urgency::Normal,
    {
        Urgency::Normal
    }
}

/// The urgency of the raw hint; absent or malformed hints are `Normal`.
pub fn urgency_from_hint_byte(byte: Option<u8>) -> (urgency: Urgency)
    ensures
        urgency == (if byte == Some(0u8) {
            Urgency::Low
        } else if byte == Some(2u8) {
            Urgency::Critical
        } else {
            Urgency::Normal
        }),
{
    match byte {
        Some(0) => Urgency::Low,
        Some(2) => Urgency::Critical,
        _ => Urgency::Normal,
    }
}

/// Carries `desktop-entry`, or `None` when it is absent, empty or holds a slash. Desktop ids use
/// dashes for subdirectories, so a slash is not an id.
pub fn desktop_entry_from_hint(value: Option<&str>) -> (entry: Option<String>)
    ensures
        text::optional(entry) == (match value {
            Some(value) => if value@.len() > 0 && !text::contains(value@, "/"@) {
                Some(crate::capabilities::truncated(value@, MAX_DESKTOP_ENTRY_BYTES as int))
            } else {
                None
            },
            None => None,
        }),
{
    match value {
        Some(value) => if !value.is_empty() && !text::str_contains(value, "/") {
            Some(truncate_utf8_bytes(value, MAX_DESKTOP_ENTRY_BYTES))
        } else {
            None
        },
        None => None,
    }
}

/// Carries the capped reply placeholder, or `None` when it is absent or empty.
pub fn reply_placeholder_from_hint(value: Option<&str>) -> (placeholder: Option<String>)
    ensures
        text::optional(placeholder) == (match value {
            Some(value) => if value@.len() > 0 {
                Some(crate::capabilities::truncated(value@, MAX_REPLY_PLACEHOLDER_BYTES as int))
            } else {
                None
            },
            None => None,
        }),
{
    match value {
        Some(value) => if !value.is_empty() {
            Some(truncate_utf8_bytes(value, MAX_REPLY_PLACEHOLDER_BYTES))
        } else {
            None
        },
        None => None,
    }
}

/// A hint's value, as far as this server reads one. `I` is a decoded picture.
#[derive(Debug)]
pub enum HintValue<I> {
    Byte(u8),
    Flag(bool),
    Text(String),
    Picture(I),
    /// Of any other type.
    Other,
}

impl<I> HintValue<I> {
    pub open spec fn byte(self) -> Option<u8> {
        match self {
            HintValue::Byte(byte) => Some(byte),
            _ => None,
        }
    }

    pub open spec fn flag(self) -> Option<bool> {
        match self {
            HintValue::Flag(flag) => Some(flag),
            _ => None,
        }
    }

    pub open spec fn text(self) -> Option<String> {
        match self {
            HintValue::Text(text) => Some(text),
            _ => None,
        }
    }

    pub open spec fn picture(self) -> Option<I> {
        match self {
            HintValue::Picture(picture) => Some(picture),
            _ => None,
        }
    }

    fn into_byte(self) -> (byte: Option<u8>)
        ensures
            byte == self.byte(),
    {
        match self {
            HintValue::Byte(byte) => Some(byte),
            _ => None,
        }
    }

    fn into_flag(self) -> (flag: Option<bool>)
        ensures
            flag == self.flag(),
    {
        match self {
            HintValue::Flag(flag) => Some(flag),
            _ => None,
        }
    }

    fn into_text(self) -> (text: Option<String>)
        ensures
            text == self.text(),
    {
        match self {
            HintValue::Text(text) => Some(text),
            _ => None,
        }
    }

    fn into_picture(self) -> (picture: Option<I>)
        ensures
            picture == self.picture(),
    {
        match self {
            HintValue::Picture(picture) => Some(picture),
            _ => None,
        }
    }
}

/// The hints this server reads. The picture hints carry all three spellings senders use.
#[derive(Debug)]
pub struct Hints<I> {
    pub urgency: Option<u8>,
    pub action_icons: Option<bool>,
    pub resident: Option<bool>,
    pub transient: Option<bool>,
    pub desktop_entry: Option<String>,
    pub reply_placeholder: Option<String>,
    pub suppress_sound: Option<bool>,
    pub sound_file: Option<String>,
    pub sound_name: Option<String>,
    pub image_data: Option<I>,
    pub image_data_deprecated: Option<I>,
    pub icon_data: Option<I>,
    pub image_path: Option<String>,
    pub image_path_deprecated: Option<String>,
}

/// Hints with one more read. A value of the wrong type leaves its hint unset, and a repeated key
/// keeps the last; a key not named here is passed over.
pub open spec fn with_hint<I>(hints: Hints<I>, key: Seq<char>, value: HintValue<I>) -> Hints<I> {
    if key == "urgency"@ {
        Hints { urgency: value.byte(), ..hints }
    } else if key == "action-icons"@ {
        Hints { action_icons: value.flag(), ..hints }
    } else if key == "resident"@ {
        Hints { resident: value.flag(), ..hints }
    } else if key == "transient"@ {
        Hints { transient: value.flag(), ..hints }
    } else if key == "desktop-entry"@ {
        Hints { desktop_entry: value.text(), ..hints }
    } else if key == "x-kde-reply-placeholder-text"@ {
        Hints { reply_placeholder: value.text(), ..hints }
    } else if key == "suppress-sound"@ {
        Hints { suppress_sound: value.flag(), ..hints }
    } else if key == "sound-file"@ {
        Hints { sound_file: value.text(), ..hints }
    } else if key == "sound-name"@ {
        Hints { sound_name: value.text(), ..hints }
    } else if key == "image-data"@ {
        Hints { image_data: value.picture(), ..hints }
    } else if key == "image_data"@ {
        Hints { image_data_deprecated: value.picture(), ..hints }
    } else if key == "icon_data"@ {
        Hints { icon_data: value.picture(), ..hints }
    } else if key == "image-path"@ {
        Hints { image_path: value.text(), ..hints }
    } else if key == "image_path"@ {
        Hints { image_path_deprecated: value.text(), ..hints }
    } else {
        hints
    }
}

impl<I> Hints<I> {
    /// No hint was sent.
    pub fn none() -> (hints: Self)
        ensures
            hints == (Hints::<I> {
                urgency: None,
                action_icons: None,
                resident: None,
                transient: None,
                desktop_entry: None,
                reply_placeholder: None,
                suppress_sound: None,
                sound_file: None,
                sound_name: None,
                image_data: None,
                image_data_deprecated: None,
                icon_data: None,
                image_path: None,
                image_path_deprecated: None,
            }),
    {
        Hints {
            urgency: None,
            action_icons: None,
            resident: None,
            transient: None,
            desktop_entry: None,
            reply_placeholder: None,
            suppress_sound: None,
            sound_file: None,
            sound_name: None,
            image_data: None,
            image_data_deprecated: None,
            icon_data: None,
            image_path: None,
            image_path_deprecated: None,
        }
    }

    /// Reads one entry of the hints. One hint of the wrong type costs that hint and nothing else:
    /// refusing the notification is the one outcome a server cannot afford.
    pub fn read(&mut self, key: &str, value: HintValue<I>)
        ensures
            *final(self) == with_hint(*old(self), key@, value),
    {
        if text::same(key, "urgency") {
            self.urgency = value.into_byte();
        } else if text::same(key, "action-icons") {
            self.action_icons = value.into_flag();
        } else if text::same(key, "resident") {
            self.resident = value.into_flag();
        } else if text::same(key, "transient") {
            self.transient = value.into_flag();
        } else if text::same(key, "desktop-entry") {
            self.desktop_entry = value.into_text();
        } else if text::same(key, "x-kde-reply-placeholder-text") {
            self.reply_placeholder = value.into_text();
        } else if text::same(key, "suppress-sound") {
            self.suppress_sound = value.into_flag();
        } else if text::same(key, "sound-file") {
            self.sound_file = value.into_text();
        } else if text::same(key, "sound-name") {
            self.sound_name = value.into_text();
        } else if text::same(key, "image-data") {
            self.image_data = value.into_picture();
        } else if text::same(key, "image_data") {
            self.image_data_deprecated = value.into_picture();
        } else if text::same(key, "icon_data") {
            self.icon_data = value.into_picture();
        } else if text::same(key, "image-path") {
            self.image_path = value.into_text();
        } else if text::same(key, "image_path") {
            self.image_path_deprecated = value.into_text();
        }
    }
}

/// The last value of a repeated key counts, whatever the first was.
pub proof fn the_last_of_a_repeated_hint_counts<I>(
    hints: Hints<I>,
    key: Seq<char>,
    first: HintValue<I>,
    second: HintValue<I>,
)
    ensures
        with_hint(with_hint(hints, key, first), key, second) == with_hint(hints, key, second),
{
}

/// One `notifications.feed` entry.
#[derive(Debug, Clone, PartialEq, Eq)]
pub struct Notification {
    /// Server id, from `1`; a replacement keeps the id it replaces.
    pub id: u32,
    /// Arrival time, Unix seconds. A replacement restamps it.
    pub timestamp: i64,
    /// Sending application, truncated to 64 bytes.
    pub app_name: String,
    /// Title as sent, truncated to 128 bytes. Plain text.
    pub summary: String,
    /// Parsed body markup; the raw body is truncated to 512 bytes first.
    pub body: Vec<NotificationSpan>,
    /// Attached picture as an existing absolute path. Never a theme name.
    pub image_path: Option<String>,
    /// Application icon: a theme name such as `"firefox"` or an absolute path.
    pub app_icon: Option<String>,
    /// `Normal` when the sender set none. `Critical` never expires and plays sound through DND.
    pub urgency: Urgency,
    /// The timeout ran out: drop it from popups, keep it in history until dismissed.
    pub expired: bool,
    /// Popup-only: removed on expiry instead of retired to history.
    pub transient: bool,
    /// Sender's desktop id, e.g. `"org.telegram.desktop"`.
    pub desktop_entry: Option<String>,
    /// The sender accepts a reply.
    pub has_reply: bool,
    /// Placeholder for an empty reply field, capped at 64 bytes.
    pub reply_placeholder: Option<String>,
    /// Buttons in sender order, at most 8, excluding `default` and `inline-reply`.
    pub actions: Vec<NotificationAction>,
    /// Clicking the card may invoke `"default"`.
    pub has_default_action: bool,
    /// Keep the notification after an action; bookkeeping only.
    pub resident: bool,
    /// Incremented per placement so stale expiry timers can detect replacement; bookkeeping only.
    pub incarnation: u64,
}

/// `mantle.notifications`'s payload.
#[derive(Debug, Clone, PartialEq, Eq)]
pub struct NotificationsState {
    /// The newest 20 of up to 100 queued notifications, newest first, expired ones among them.
    pub feed: Vec<Notification>,
    /// Do-not-disturb: mutes non-critical sounds only.
    pub dnd: bool,
}

impl Default for NotificationsState {
    fn default() -> (state: Self)
        ensures
            state.feed@.len() == 0,
            !state.dnd,
    {
        NotificationsState { feed: Vec::new(), dnd: false }
    }
}

#[derive(Debug, Clone, Copy, PartialEq, Eq, Structural)]
pub enum NotificationsSignal {
    Changed,
}

#[derive(Debug, PartialEq, Eq)]
pub enum NotificationsAction {
    /// Removes a queued notification.
    Dismiss { id: u32 },
    /// Invokes an action's key, or `"default"`; removes the notification unless it is resident.
    InvokeAction { id: u32, key: String },
    /// Sends reply text to a notification with `has_reply`; removes it unless it is resident.
    Reply { id: u32, text: String },
    /// Sets an urgency tier's sound.
    SetSound { urgency: Urgency, path: String },
    /// Gates non-critical notification sounds.
    SetDnd { enabled: bool },
    /// Mutes non-critical sounds like `SetDnd`, without changing `dnd`.
    SetQuiet { enabled: bool },
    /// Silences every sound from an app, critical ones too.
    SetAppMuted { app: String, muted: bool },
    /// Pauses every expiry countdown for `seconds`, capped at 300; `0` releases the hold.
    HoldExpiry { seconds: u64 },
}

/// How an action is carried out.
#[derive(Debug, Clone, Copy, PartialEq, Eq, Structural)]
pub enum NotificationsCall {
    /// On a task of its own: it emits signals on the bus.
    Spawned,
    /// At once: it writes state under the lock.
    Inline,
}

/// Signal-emitting actions run on a task of their own; writes of state run at once.
pub fn dispatch(action: &NotificationsAction) -> (call: NotificationsCall)
    ensures
        call == (if action is Dismiss || action is InvokeAction || action is Reply {
            NotificationsCall::Spawned
        } else {
            NotificationsCall::Inline
        }),
{
    match action {
        NotificationsAction::Dismiss { .. } => NotificationsCall::Spawned,
        NotificationsAction::InvokeAction { .. } => NotificationsCall::Spawned,
        NotificationsAction::Reply { .. } => NotificationsCall::Spawned,
        NotificationsAction::SetSound { .. } => NotificationsCall::Inline,
        NotificationsAction::SetDnd { .. } => NotificationsCall::Inline,
        NotificationsAction::SetQuiet { .. } => NotificationsCall::Inline,
        NotificationsAction::SetAppMuted { .. } => NotificationsCall::Inline,
        NotificationsAction::HoldExpiry { .. } => NotificationsCall::Inline,
    }
}

/// Each hint goes by its own key, sets its own field and no other, and one of an unknown key sets none.
pub proof fn a_hint_sets_its_own_field<I>(hints: Hints<I>, key: Seq<char>, value: HintValue<I>)
    ensures
        with_hint(hints, "urgency"@, value) == (Hints { urgency: value.byte(), ..hints }),
        with_hint(hints, "action-icons"@, value) == (Hints { action_icons: value.flag(), ..hints }),
        with_hint(hints, "resident"@, value) == (Hints { resident: value.flag(), ..hints }),
        with_hint(hints, "transient"@, value) == (Hints { transient: value.flag(), ..hints }),
        with_hint(hints, "desktop-entry"@, value) == (Hints { desktop_entry: value.text(), ..hints }),
        with_hint(hints, "x-kde-reply-placeholder-text"@, value) == (Hints { reply_placeholder: value.text(), ..hints }),
        with_hint(hints, "suppress-sound"@, value) == (Hints { suppress_sound: value.flag(), ..hints }),
        with_hint(hints, "sound-file"@, value) == (Hints { sound_file: value.text(), ..hints }),
        with_hint(hints, "sound-name"@, value) == (Hints { sound_name: value.text(), ..hints }),
        with_hint(hints, "image-data"@, value) == (Hints { image_data: value.picture(), ..hints }),
        with_hint(hints, "image_data"@, value) == (Hints { image_data_deprecated: value.picture(), ..hints }),
        with_hint(hints, "icon_data"@, value) == (Hints { icon_data: value.picture(), ..hints }),
        with_hint(hints, "image-path"@, value) == (Hints { image_path: value.text(), ..hints }),
        with_hint(hints, "image_path"@, value) == (Hints { image_path_deprecated: value.text(), ..hints }),
        key != "urgency"@ && key != "action-icons"@ && key != "resident"@ && key != "transient"@ && key != "desktop-entry"@ && key != "x-kde-reply-placeholder-text"@ && key != "suppress-sound"@ && key != "sound-file"@ && key != "sound-name"@ && key != "image-data"@ && key != "image_data"@ && key != "icon_data"@ && key != "image-path"@ && key != "image_path"@
            ==> with_hint(hints, key, value) == hints,
{
    reveal_strlit("urgency");
    reveal_strlit("action-icons");
    reveal_strlit("resident");
    reveal_strlit("transient");
    reveal_strlit("desktop-entry");
    reveal_strlit("x-kde-reply-placeholder-text");
    reveal_strlit("suppress-sound");
    reveal_strlit("sound-file");
    reveal_strlit("sound-name");
    reveal_strlit("image-data");
    reveal_strlit("image_data");
    reveal_strlit("icon_data");
    reveal_strlit("image-path");
    reveal_strlit("image_path");
    assert("urgency"@.len() == 7 && "urgency"@[0] == 'u' && "urgency"@[5] == 'c' && "urgency"@[6] == 'y');
    assert("action-icons"@.len() == 12 && "action-icons"@[0] == 'a' && "action-icons"@[5] == 'n' && "action-icons"@[6] == '-' && "action-icons"@[11] == 's');
    assert("resident"@.len() == 8 && "resident"@[0] == 'r' && "resident"@[5] == 'e' && "resident"@[6] == 'n' && "resident"@[7] == 't');
    assert("transient"@.len() == 9 && "transient"@[0] == 't' && "transient"@[5] == 'i' && "transient"@[6] == 'e' && "transient"@[8] == 't');
    assert("desktop-entry"@.len() == 13 && "desktop-entry"@[0] == 'd' && "desktop-entry"@[5] == 'o' && "desktop-entry"@[6] == 'p' && "desktop-entry"@[12] == 'y');
    assert("x-kde-reply-placeholder-text"@.len() == 28 && "x-kde-reply-placeholder-text"@[0] == 'x' && "x-kde-reply-placeholder-text"@[5] == '-' && "x-kde-reply-placeholder-text"@[6] == 'r' && "x-kde-reply-placeholder-text"@[27] == 't');
    assert("suppress-sound"@.len() == 14 && "suppress-sound"@[0] == 's' && "suppress-sound"@[5] == 'e' && "suppress-sound"@[6] == 's' && "suppress-sound"@[13] == 'd');
    assert("sound-file"@.len() == 10 && "sound-file"@[0] == 's' && "sound-file"@[5] == '-' && "sound-file"@[6] == 'f' && "sound-file"@[9] == 'e');
    assert("sound-name"@.len() == 10 && "sound-name"@[0] == 's' && "sound-name"@[5] == '-' && "sound-name"@[6] == 'n' && "sound-name"@[9] == 'e');
    assert("image-data"@.len() == 10 && "image-data"@[0] == 'i' && "image-data"@[5] == '-' && "image-data"@[6] == 'd' && "image-data"@[9] == 'a');
    assert("image_data"@.len() == 10 && "image_data"@[0] == 'i' && "image_data"@[5] == '_' && "image_data"@[6] == 'd' && "image_data"@[9] == 'a');
    assert("icon_data"@.len() == 9 && "icon_data"@[0] == 'i' && "icon_data"@[5] == 'd' && "icon_data"@[6] == 'a' && "icon_data"@[8] == 'a');
    assert("image-path"@.len() == 10 && "image-path"@[0] == 'i' && "image-path"@[5] == '-' && "image-path"@[6] == 'p' && "image-path"@[9] == 'h');
    assert("image_path"@.len() == 10 && "image_path"@[0] == 'i' && "image_path"@[5] == '_' && "image_path"@[6] == 'p' && "image_path"@[9] == 'h');
}

/// A hint's value counts where it is of the kind that the hint is, and is none otherwise.
pub proof fn a_hint_is_of_its_kind<I>(value: HintValue<I>, byte: u8, flag: bool, text: String, picture: I)
    ensures
        value.byte() == Some(byte) <==> value == HintValue::<I>::Byte(byte),
        value.flag() == Some(flag) <==> value == HintValue::<I>::Flag(flag),
        value.text() == Some(text) <==> value == HintValue::<I>::Text(text),
        value.picture() == Some(picture) <==> value == HintValue::<I>::Picture(picture),
{
}

/// What the server says that it can do.
pub proof fn the_server_can_do_what_it_says()
    ensures
        capabilities().len() == 10,
        capabilities().contains("actions"@),
        capabilities().contains("action-icons"@),
        capabilities().contains("body"@),
        capabilities().contains("body-markup"@),
        capabilities().contains("body-hyperlinks"@),
        capabilities().contains("body-images"@),
        capabilities().contains("icon-static"@),
        capabilities().contains("persistence"@),
        capabilities().contains("sound"@),
        capabilities().contains("inline-reply"@),
{
    assert(capabilities()[0] == "action-icons"@);
    assert(capabilities()[1] == "actions"@);
    assert(capabilities()[2] == "body"@);
    assert(capabilities()[3] == "body-hyperlinks"@);
    assert(capabilities()[4] == "body-images"@);
    assert(capabilities()[5] == "body-markup"@);
    assert(capabilities()[6] == "icon-static"@);
    assert(capabilities()[7] == "persistence"@);
    assert(capabilities()[8] == "sound"@);
    assert(capabilities()[9] == "inline-reply"@);
}

} // verus!
