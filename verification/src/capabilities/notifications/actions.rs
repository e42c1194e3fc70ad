//! `Notify`'s flat action array: drawable buttons plus the `default` and `inline-reply` flags.

use vstd::prelude::*;
use vstd::utf8;

use super::{MAX_ACTIONS, MAX_ACTION_LABEL_BYTES, Notification, NotificationAction};
use crate::capabilities::truncate_utf8_bytes;
use crate::text;

verus! {

/// Results of one pass over the flat action array, returned together instead of as three passes that
/// each decide anew what a key means.
#[derive(Debug, PartialEq, Eq)]
pub struct ParsedActions {
    pub actions: Vec<NotificationAction>,
    /// A `"default"` key was present; the notification is activatable.
    pub has_default: bool,
    /// An `"inline-reply"` key was present.
    pub has_reply: bool,
}

impl Default for ParsedActions {
    fn default() -> (parsed: Self)
        ensures
            parsed@ == nothing_parsed(),
    {
        let parsed = ParsedActions { actions: Vec::new(), has_default: false, has_reply: false };
        assert(parsed@.actions =~= Seq::<ActionView>::empty());
        parsed
    }
}

/// What a [`NotificationAction`] says.
pub struct ActionView {
    pub key: Seq<char>,
    pub label: Seq<char>,
    pub icon_name: Option<Seq<char>>,
}

/// What a [`ParsedActions`] says.
pub struct ParsedView {
    pub actions: Seq<ActionView>,
    pub has_default: bool,
    pub has_reply: bool,
}

pub open spec fn action_view(action: NotificationAction) -> ActionView {
    ActionView { key: action.key@, label: action.label@, icon_name: text::optional(action.icon_name) }
}

impl View for ParsedActions {
    type V = ParsedView;

    open spec fn view(&self) -> ParsedView {
        ParsedView {
            actions: Seq::new(self.actions@.len(), |i: int| action_view(self.actions@[i])),
            has_default: self.has_default,
            has_reply: self.has_reply,
        }
    }
}

pub open spec fn nothing_parsed() -> ParsedView {
    ParsedView { actions: Seq::empty(), has_default: false, has_reply: false }
}

/// The button of a key and its label. With icons, the key is also a theme icon's name, never a path:
/// an icon may be an absolute path, so this keeps files out. An empty label falls back to the key
/// unless there is an icon to draw.
pub open spec fn button(key: Seq<char>, label: Seq<char>, action_icons: bool) -> ActionView {
    let icon_name = if action_icons && !text::contains(key, "/"@) {
        Some(key)
    } else {
        None
    };
    let shown = if text::trim(label).len() == 0 && icon_name is None {
        key
    } else {
        text::trim(label)
    };
    ActionView { key, label: crate::capabilities::truncated(shown, MAX_ACTION_LABEL_BYTES as int), icon_name }
}

/// What one more pair adds. A pair without a key draws nothing.
pub open spec fn with_pair(parsed: ParsedView, key: Seq<char>, label: Seq<char>, action_icons: bool) -> ParsedView {
    if key.len() == 0 {
        parsed
    } else if key == "default"@ {
        ParsedView { has_default: true, ..parsed }
    } else if key == "inline-reply"@ {
        ParsedView { has_reply: true, ..parsed }
    } else if parsed.actions.len() >= MAX_ACTIONS {
        parsed
    } else {
        ParsedView { actions: parsed.actions.push(button(key, label, action_icons)), ..parsed }
    }
}

/// What the first pairs of a flat array come to. An odd length leaves the last key without a label.
pub open spec fn parsed_pairs(flat: Seq<Seq<char>>, action_icons: bool, pairs: nat) -> ParsedView
    decreases pairs,
{
    if pairs == 0 {
        nothing_parsed()
    } else {
        let at = 2 * (pairs - 1);
        with_pair(
            parsed_pairs(flat, action_icons, (pairs - 1) as nat),
            flat[at],
            if at + 1 < flat.len() {
                flat[at + 1]
            } else {
                Seq::empty()
            },
            action_icons,
        )
    }
}

/// Splits `Notify` actions into drawable buttons and the two keys that are none.
pub fn parse_actions(actions: &Vec<String>, action_icons: bool) -> (parsed: ParsedActions)
    ensures
        parsed@ == parsed_pairs(text::strings(actions@), action_icons, ((actions@.len() + 1) / 2) as nat),
{
    let ghost flat = text::strings(actions@);
    let mut parsed = ParsedActions::default();
    let mut at: usize = 0;
    let ghost mut pairs: nat = 0;
    while at < actions.len()
        invariant
            flat == text::strings(actions@),
            at == 2 * pairs || at == actions@.len(),
            at < actions@.len() ==> at == 2 * pairs,
            at == actions@.len() ==> pairs == (actions@.len() + 1) / 2,
            at <= actions@.len(),
            parsed@ == parsed_pairs(flat, action_icons, pairs),
        decreases actions@.len() - at,
    {
        let ghost before = parsed@;
        let key = actions[at].as_str();
        assert(flat[at as int] == key@);
        let mut label = "";
        let has_label = actions.len() - at > 1;
        if has_label {
            label = actions[at + 1].as_str();
            assert(flat[at + 1] == label@);
        } else {
            proof {
                reveal_strlit("");
            }
            assert(label@ =~= Seq::<char>::empty());
        }
        let ghost label_view = label@;
        if !key.is_empty() {
            if text::same(key, "default") {
                parsed.has_default = true;
            } else if text::same(key, "inline-reply") {
                parsed.has_reply = true;
            } else if parsed.actions.len() < MAX_ACTIONS {
                let icon_name = if action_icons && !text::str_contains(key, "/") {
                    Some(key.to_owned())
                } else {
                    None
                };
                let trimmed = text::str_trim(label);
                let shown = if trimmed.is_empty() && icon_name.is_none() {
                    key
                } else {
                    trimmed
                };
                let action = NotificationAction {
                    key: key.to_owned(),
                    label: truncate_utf8_bytes(shown, MAX_ACTION_LABEL_BYTES),
                    icon_name,
                };
                let ghost view = action_view(action);
                assert(view == button(key@, label_view, action_icons));
                parsed.actions.push(action);
                assert(parsed@.actions =~= before.actions.push(view));
            }
        }
        assert(parsed@.actions =~= with_pair(before, key@, label_view, action_icons).actions);
        assert(parsed@ == with_pair(before, key@, label_view, action_icons));
        proof {
            pairs = pairs + 1;
        }
        if has_label {
            at += 2;
        } else {
            at += 1;
        }
    }
    parsed
}

pub open spec fn declares(notification: Notification, key: Seq<char>) -> bool {
    (key == "default"@ && notification.has_default_action) || exists|i: int|
        0 <= i < notification.actions@.len() && (#[trigger] notification.actions@[i]).key@ == key
}

/// Whether `notification` offered `key`; `"default"` counts though it is no button.
pub fn declares_action(notification: &Notification, key: &str) -> (declared: bool)
    ensures
        declared == declares(*notification, key@),
{
    if text::same(key, "default") && notification.has_default_action {
        return true;
    }
    let mut i: usize = 0;
    while i < notification.actions.len()
        invariant
            i <= notification.actions@.len(),
            !(key@ == "default"@ && notification.has_default_action),
            forall|j: int| 0 <= j < i ==> (#[trigger] notification.actions@[j]).key@ != key@,
        decreases notification.actions@.len() - i,
    {
        if text::same(notification.actions[i].key.as_str(), key) {
            return true;
        }
        i += 1;
    }
    false
}

/// Whatever an application sends, no more than the cap of buttons are drawn, each with a label within
/// its cap, and none with a path for an icon.
pub proof fn buttons_are_capped(flat: Seq<Seq<char>>, action_icons: bool, pairs: nat)
    ensures
        parsed_pairs(flat, action_icons, pairs).actions.len() <= MAX_ACTIONS,
        forall|i: int|
            0 <= i < parsed_pairs(flat, action_icons, pairs).actions.len() ==> {
                let action = #[trigger] parsed_pairs(flat, action_icons, pairs).actions[i];
                &&& action.key.len() > 0
                &&& utf8::encode_utf8(action.label).len() <= MAX_ACTION_LABEL_BYTES
                &&& action.icon_name matches Some(name) ==> !text::contains(name, "/"@) && action_icons
            },
    decreases pairs,
{
    if pairs > 0 {
        buttons_are_capped(flat, action_icons, (pairs - 1) as nat);
        let at = 2 * (pairs - 1);
        let key = flat[at];
        let label = if at + 1 < flat.len() {
            flat[at + 1]
        } else {
            Seq::empty()
        };
        let shown = if text::trim(label).len() == 0 && !(action_icons && !text::contains(key, "/"@)) {
            key
        } else {
            text::trim(label)
        };
        crate::capabilities::lemma_truncated(shown, MAX_ACTION_LABEL_BYTES as int);
    }
}

/// The two keys that are no buttons never become one.
pub proof fn flags_are_not_buttons(flat: Seq<Seq<char>>, action_icons: bool, pairs: nat)
    ensures
        forall|i: int|
            0 <= i < parsed_pairs(flat, action_icons, pairs).actions.len() ==> {
                let action = #[trigger] parsed_pairs(flat, action_icons, pairs).actions[i];
                action.key != "default"@ && action.key != "inline-reply"@
            },
    decreases pairs,
{
    if pairs > 0 {
        flags_are_not_buttons(flat, action_icons, (pairs - 1) as nat);
    }
}

/// Whether the key of a pair draws a button.
pub open spec fn draws(flat: Seq<Seq<char>>, pair: int) -> bool {
    flat[2 * pair].len() > 0 && flat[2 * pair] != "default"@ && flat[2 * pair] != "inline-reply"@
}

/// The label that stands behind a key; none behind a last key that has none.
pub open spec fn label_at(flat: Seq<Seq<char>>, pair: int) -> Seq<char> {
    if 2 * pair + 1 < flat.len() {
        flat[2 * pair + 1]
    } else {
        Seq::empty()
    }
}

/// Whether buttons are those of the pairs in `at`: the first pairs that draw one, in their order, and
/// all of them short of the cap.
pub open spec fn are_the_first(flat: Seq<Seq<char>>, pairs: nat, actions: Seq<ActionView>, at: Seq<int>) -> bool {
    &&& at.len() == actions.len()
    &&& forall|i: int| 0 <= i < at.len() ==> 0 <= #[trigger] at[i] < pairs
    &&& forall|i: int, j: int| 0 <= i < j < at.len() ==> #[trigger] at[i] < #[trigger] at[j]
    &&& forall|i: int|
        0 <= i < at.len() ==> flat[2 * #[trigger] at[i]].len() > 0 && flat[2 * at[i]] != "default"@ && flat[2
            * at[i]] != "inline-reply"@
    &&& forall|i: int| 0 <= i < at.len() ==> actions[i].key == flat[2 * #[trigger] at[i]]
    &&& forall|p: int|
        0 <= p < pairs && #[trigger] draws(flat, p) ==> at.contains(p) || (actions.len() == 8 && at.last() < p)
}

/// The buttons' keys are the first eight keys of the array that are neither empty nor `default` nor
/// `inline-reply`, in the order in which the array holds them.
pub proof fn the_first_keys_are_the_buttons(flat: Seq<Seq<char>>, action_icons: bool, pairs: nat) -> (at: Seq<int>)
    ensures
        are_the_first(flat, pairs, parsed_pairs(flat, action_icons, pairs).actions, at),
        forall|i: int|
            0 <= i < at.len() ==> parsed_pairs(flat, action_icons, pairs).actions[i] == button(
                flat[2 * #[trigger] at[i]],
                label_at(flat, at[i]),
                action_icons,
            ),
    decreases pairs,
{
    if pairs == 0 {
        Seq::empty()
    } else {
        let last = pairs - 1;
        let before = the_first_keys_are_the_buttons(flat, action_icons, last as nat);
        let actions = parsed_pairs(flat, action_icons, last as nat).actions;
        let after = parsed_pairs(flat, action_icons, pairs).actions;
        if draws(flat, last) && actions.len() < 8 {
            let at = before.push(last);
            assert forall|p: int| 0 <= p < pairs && #[trigger] draws(flat, p) implies at.contains(p) || (after.len()
                == 8 && at.last() < p) by {
                if p == last {
                    assert(at[before.len() as int] == p);
                } else {
                    assert(before.contains(p));
                    let k = choose|k: int| 0 <= k < before.len() && before[k] == p;
                    assert(at[k] == p);
                }
            }
            at
        } else {
            assert(after == actions);
            assert forall|p: int| 0 <= p < pairs && #[trigger] draws(flat, p) implies before.contains(p) || (
            after.len() == 8 && before.last() < p) by {
                if p == last {
                    buttons_are_capped(flat, action_icons, last as nat);
                    assert(before[before.len() - 1] < last);
                }
            }
            before
        }
    }
}

/// `default` and `inline-reply` are noticed wherever they stand among the keys, also behind more
/// buttons than are drawn, and nowhere else.
pub proof fn flags_are_noticed_anywhere(flat: Seq<Seq<char>>, action_icons: bool, pairs: nat)
    ensures
        parsed_pairs(flat, action_icons, pairs).has_default <==> exists|p: int|
            0 <= p < pairs && flat[#[trigger] (2 * p)] == "default"@,
        parsed_pairs(flat, action_icons, pairs).has_reply <==> exists|p: int|
            0 <= p < pairs && flat[#[trigger] (2 * p)] == "inline-reply"@,
    decreases pairs,
{
    reveal_strlit("default");
    reveal_strlit("inline-reply");
    if pairs > 0 {
        flags_are_noticed_anywhere(flat, action_icons, (pairs - 1) as nat);
        let last = pairs - 1;
        assert(2 * last == 2 * (pairs - 1));
        assert("default"@[0] == 'd' && "inline-reply"@[0] == 'i');
    }
}

/// A button keeps its key. It shows its label without the spaces around it, whole where it is within
/// the cap and a start of it otherwise; one without a label shows its key, unless the key is drawn as
/// an icon.
pub proof fn a_button_shows_its_label(key: Seq<char>, label: Seq<char>, action_icons: bool)
    ensures
        ({
            let made = button(key, label, action_icons);
            let has_icon = action_icons && !text::contains(key, "/"@);
            let shown = if text::trim(label).len() > 0 || has_icon {
                text::trim(label)
            } else {
                key
            };
            &&& made.key == key
            &&& made.icon_name == (if has_icon {
                Some(key)
            } else {
                None
            })
            &&& made.label.is_prefix_of(shown)
            &&& utf8::encode_utf8(shown).len() <= MAX_ACTION_LABEL_BYTES ==> made.label == shown
            &&& utf8::encode_utf8(made.label).len() <= MAX_ACTION_LABEL_BYTES
        }),
{
    let has_icon = action_icons && !text::contains(key, "/"@);
    let shown = if text::trim(label).len() > 0 || has_icon {
        text::trim(label)
    } else {
        key
    };
    crate::capabilities::lemma_truncated(shown, MAX_ACTION_LABEL_BYTES as int);
}

/// A notification offers its buttons' keys, and `default` where it has that.
pub proof fn a_notification_offers_its_keys(notification: Notification, i: int, key: Seq<char>)
    ensures
        0 <= i < notification.actions@.len() ==> declares(notification, notification.actions@[i].key@),
        notification.has_default_action ==> declares(notification, "default"@),
        declares(notification, key) && (forall|j: int|
            0 <= j < notification.actions@.len() ==> (#[trigger] notification.actions@[j]).key@ != key) ==> key
            == "default"@ && notification.has_default_action,
{
}

} // verus!
