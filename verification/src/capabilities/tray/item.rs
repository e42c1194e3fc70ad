//! `TrayItem` hydration from `StatusNotifierItem` properties; `menu` is fetched separately.

use vstd::prelude::*;

use crate::capabilities::truncate_utf8_bytes;
use crate::text;

verus! {

/// One tray item. `M` is a menu entry.
#[derive(Debug)]
pub struct TrayItem<M> {
    /// Sanitized D-Bus unique name with the item's object path appended, e.g.
    /// `"1.234/StatusNotifierItem"`. Used by every `tray:` command.
    pub id: String,
    /// Display name: `Title`, falling back to `Id` when `Title` is empty.
    pub name: String,
    /// Theme icon name; exclusive with [`TrayItem::icon_path`].
    pub icon_name: Option<String>,
    /// Decoded PNG in the runtime directory; set when the item sent pixels instead of a theme name.
    pub icon_path: Option<String>,
    /// `NeedsAttention` artwork, resolved like `icon_name`/`icon_path`.
    pub attention_icon_name: Option<String>,
    /// File half of the attention artwork.
    pub attention_icon_path: Option<String>,
    /// Badge to draw over the base icon's corner.
    pub overlay_icon_name: Option<String>,
    /// File half of the badge.
    pub overlay_icon_path: Option<String>,
    /// Tooltip title and text flattened to one string.
    pub tooltip: Option<String>,
    /// `"Active"`, `"Passive"`, or `"NeedsAttention"`. `"Passive"` asks config to drop the item.
    pub status: String,
    /// `true` means left click opens the menu instead of activating the item.
    pub item_is_menu: bool,
    /// Top-level menu entries, or `None` without a dbusmenu. Fetched at registration and on layout
    /// updates.
    pub menu: Option<Vec<M>>,
    /// Digests of the base, attention and overlay pixmaps behind the `*_path` PNGs, so new pixels
    /// at an unchanged path still compare unequal and push.
    pub pixmap_digests: (Option<u64>, Option<u64>, Option<u64>),
}

/// The name shown: the title, or the id when there is none.
pub open spec fn display_name(title: Seq<char>, id: Seq<char>) -> Seq<char> {
    if title.len() == 0 {
        id
    } else {
        title
    }
}

/// Resolves `TrayItem.name`: `Title`, falling back to `Id` when empty.
pub fn resolve_display_name(title: &str, id: &str) -> (name: String)
    ensures
        name@ == display_name(title@, id@),
{
    if title.is_empty() {
        id.to_owned()
    } else {
        title.to_owned()
    }
}

/// A tooltip's title and text on lines of their own; what is empty is left out.
pub open spec fn flat_tooltip(title: Seq<char>, text: Seq<char>) -> Option<Seq<char>> {
    if title.len() == 0 && text.len() == 0 {
        None
    } else if text.len() == 0 {
        Some(title)
    } else if title.len() == 0 {
        Some(text)
    } else {
        Some(title + "\n"@ + text)
    }
}

/// Flattens `ToolTip`'s title and text.
pub fn flatten_tooltip(title: &str, text: &str) -> (tooltip: Option<String>)
    ensures
        text::optional(tooltip) == flat_tooltip(title@, text@),
{
    if title.is_empty() {
        if text.is_empty() {
            None
        } else {
            Some(text.to_owned())
        }
    } else if text.is_empty() {
        Some(title.to_owned())
    } else {
        Some(title.to_owned().concat("\n").concat(text))
    }
}

/// The properties an item's `GetAll` gave; an absent or mistyped one is `None`.
#[derive(Debug)]
pub struct ItemProperties {
    pub id: Option<String>,
    pub title: Option<String>,
    pub status: Option<String>,
    pub item_is_menu: Option<bool>,
    /// The tooltip's title and text.
    pub tooltip: Option<(String, String)>,
}

/// Where one of an item's three icons comes from.
#[derive(Debug, PartialEq, Eq)]
pub enum IconSource {
    /// A file under the item's own theme directory.
    ThemePathFile(String),
    /// A theme icon name.
    Name(String),
    /// The item's pixels.
    Pixmap,
    Absent,
}

/// One icon, resolved: a name, a path or neither, and the digest of the pixels behind the path.
#[derive(Debug, PartialEq, Eq)]
pub struct Variant {
    pub name: Option<String>,
    pub path: Option<String>,
    pub digest: Option<u64>,
}

/// What a [`Variant`] says.
pub struct VariantView {
    pub name: Option<Seq<char>>,
    pub path: Option<Seq<char>>,
    pub digest: Option<u64>,
}

impl View for Variant {
    type V = VariantView;

    open spec fn view(&self) -> VariantView {
        VariantView { name: text::optional(self.name), path: text::optional(self.path), digest: self.digest }
    }
}

/// What resolving an icon came to.
#[derive(Debug, PartialEq, Eq)]
pub enum Resolved {
    Known(Variant),
    /// The pixels are new: encode them, then tell [`spooled`] where they went.
    Spool { digest: u64 },
}

/// Whether an icon's pixels are new and have to be encoded.
pub open spec fn needs_spooling(
    source: IconSource,
    largest: Option<u64>,
    spooled_before: Option<(Seq<char>, u64)>,
) -> Option<u64> {
    match (source, largest) {
        (IconSource::Pixmap, Some(digest)) => match spooled_before {
            Some((_, last)) if last == digest => None,
            _ => Some(digest),
        },
        _ => None,
    }
}

/// What an icon resolves to where nothing needs encoding.
pub open spec fn resolved_view(
    source: IconSource,
    largest: Option<u64>,
    spooled_before: Option<(Seq<char>, u64)>,
) -> VariantView {
    match source {
        IconSource::ThemePathFile(path) => VariantView { name: None, path: Some(path@), digest: None },
        IconSource::Name(name) => VariantView { name: Some(name@), path: None, digest: None },
        IconSource::Absent => VariantView { name: None, path: None, digest: None },
        IconSource::Pixmap => match (largest, spooled_before) {
            (Some(digest), Some((path, last))) if last == digest => VariantView {
                name: None,
                path: Some(path),
                digest: Some(digest),
            },
            _ => VariantView { name: None, path: None, digest: None },
        },
    }
}

pub open spec fn before_view(spooled_before: Option<(&str, u64)>) -> Option<(Seq<char>, u64)> {
    match spooled_before {
        Some((path, digest)) => Some((path@, digest)),
        None => None,
    }
}

/// Resolves one icon. `largest` is the digest of the largest valid pixmap, `spooled_before` the path
/// and digest this icon spooled last time; the same pixels reuse that file.
pub fn resolve_variant(source: IconSource, largest: Option<u64>, spooled_before: Option<(&str, u64)>) -> (
    resolved: Resolved)
    ensures
        match needs_spooling(source, largest, before_view(spooled_before)) {
            Some(digest) => resolved == (Resolved::Spool { digest }),
            None => resolved matches Resolved::Known(variant) && variant@ == resolved_view(
                source,
                largest,
                before_view(spooled_before),
            ),
        },
{
    match source {
        IconSource::ThemePathFile(path) => Resolved::Known(Variant { name: None, path: Some(path), digest: None }),
        IconSource::Name(name) => Resolved::Known(Variant { name: Some(name), path: None, digest: None }),
        IconSource::Absent => Resolved::Known(Variant { name: None, path: None, digest: None }),
        IconSource::Pixmap => {
            let digest = match largest {
                Some(digest) => digest,
                None => return Resolved::Known(Variant { name: None, path: None, digest: None }),
            };
            if let Some((path, last)) = spooled_before {
                if last == digest {
                    return Resolved::Known(
                        Variant { name: None, path: Some(path.to_owned()), digest: Some(digest) },
                    );
                }
            }
            Resolved::Spool { digest }
        },
    }
}

/// The icon whose new pixels were encoded to a file, or could not be.
pub fn spooled(digest: u64, written: Result<String, String>) -> (variant: Variant)
    ensures
        variant@ == (match written {
            Ok(path) => VariantView { name: None, path: Some(path@), digest: Some(digest) },
            Err(_) => VariantView { name: None, path: None, digest: None },
        }),
{
    match written {
        Ok(path) => Variant { name: None, path: Some(path), digest: Some(digest) },
        Err(_) => Variant { name: None, path: None, digest: None },
    }
}

/// The suffixes that keep the base, attention and overlay PNGs distinct.
pub fn variant_suffixes() -> (suffixes: (&'static str, &'static str, &'static str))
    ensures
        suffixes.0@ == ""@,
        suffixes.1@ == "-attention"@,
        suffixes.2@ == "-overlay"@,
{
    ("", "-attention", "-overlay")
}

/// A text that an application supplied, within the cap; empty where it supplied none.
pub open spec fn capped_text(value: Option<String>, max_bytes: int) -> Seq<char> {
    match value {
        Some(value) => crate::capabilities::truncated(value@, max_bytes),
        None => crate::capabilities::truncated(Seq::empty(), max_bytes),
    }
}

/// One application-supplied property, within the cap.
pub fn capped(value: Option<String>, max_bytes: usize) -> (text: String)
    ensures
        text@ == capped_text(value, max_bytes as int),
{
    match value {
        Some(value) => truncate_utf8_bytes(value.as_str(), max_bytes),
        None => truncate_utf8_bytes(String::new().as_str(), max_bytes),
    }
}

/// An icon's name within the cap, where it has one.
pub open spec fn capped_name(name: Option<String>, max_bytes: int) -> Option<Seq<char>> {
    match name {
        Some(name) => Some(crate::capabilities::truncated(name@, max_bytes)),
        None => None,
    }
}

fn within_cap(name: Option<String>, max_bytes: usize) -> (capped: Option<String>)
    ensures
        text::optional(capped) == capped_name(name, max_bytes as int),
{
    match name {
        Some(name) => Some(truncate_utf8_bytes(name.as_str(), max_bytes)),
        None => None,
    }
}

/// An item's id: its unique bus name, without the colon it begins with, and its object path.
pub fn item_id(unique_name: &str, object_path: &str) -> (id: String)
    ensures
        id@ == (match text::strip_prefix(unique_name@, ":"@) {
            Some(name) => name,
            None => unique_name@,
        }) + object_path@,
{
    let name = match text::str_strip_prefix(unique_name, ":") {
        Some(name) => name,
        None => unique_name,
    };
    name.to_owned().concat(object_path)
}

/// An item from its properties and its three resolved icons, without its menu. Every text is whatever
/// the application that owns the item sent, so each is capped on the way in. A missing property
/// falls back to an empty one.
pub fn tray_item_base<M>(
    id: String,
    properties: ItemProperties,
    max_text_bytes: usize,
    base: Variant,
    attention: Variant,
    overlay: Variant,
) -> (item: TrayItem<M>)
    ensures
        item.id == id,
        item.name@ == display_name(
            capped_text(properties.title, max_text_bytes as int),
            capped_text(properties.id, max_text_bytes as int),
        ),
        item.status@ == capped_text(properties.status, max_text_bytes as int),
        item.item_is_menu == (properties.item_is_menu == Some(true)),
        text::optional(item.tooltip) == (match properties.tooltip {
            Some((title, text)) => flat_tooltip(
                crate::capabilities::truncated(title@, max_text_bytes as int),
                crate::capabilities::truncated(text@, max_text_bytes as int),
            ),
            None => None,
        }),
        text::optional(item.icon_name) == capped_name(base.name, max_text_bytes as int),
        item.icon_path == base.path,
        text::optional(item.attention_icon_name) == capped_name(attention.name, max_text_bytes as int),
        item.attention_icon_path == attention.path,
        text::optional(item.overlay_icon_name) == capped_name(overlay.name, max_text_bytes as int),
        item.overlay_icon_path == overlay.path,
        item.pixmap_digests == (base.digest, attention.digest, overlay.digest),
        item.menu is None,
{
    let own_id = capped(properties.id, max_text_bytes);
    let title = capped(properties.title, max_text_bytes);
    let status = capped(properties.status, max_text_bytes);
    let item_is_menu = match properties.item_is_menu {
        Some(is_menu) => is_menu,
        None => false,
    };
    let tooltip = match properties.tooltip {
        Some((tip_title, tip_text)) => {
            let tip_title = truncate_utf8_bytes(tip_title.as_str(), max_text_bytes);
            let tip_text = truncate_utf8_bytes(tip_text.as_str(), max_text_bytes);
            flatten_tooltip(tip_title.as_str(), tip_text.as_str())
        },
        None => None,
    };
    TrayItem {
        id,
        name: resolve_display_name(title.as_str(), own_id.as_str()),
        icon_name: within_cap(base.name, max_text_bytes),
        icon_path: base.path,
        attention_icon_name: within_cap(attention.name, max_text_bytes),
        attention_icon_path: attention.path,
        overlay_icon_name: within_cap(overlay.name, max_text_bytes),
        overlay_icon_path: overlay.path,
        tooltip,
        status,
        item_is_menu,
        menu: None,
        pixmap_digests: (base.digest, attention.digest, overlay.digest),
    }
}

/// A name and a path never come together, whichever way an icon resolves.
pub proof fn a_name_and_a_path_exclude_each_other(
    source: IconSource,
    largest: Option<u64>,
    spooled_before: Option<(Seq<char>, u64)>,
)
    ensures
        resolved_view(source, largest, spooled_before).name is None || resolved_view(
            source,
            largest,
            spooled_before,
        ).path is None,
        resolved_view(source, largest, spooled_before).digest is Some ==> resolved_view(
            source,
            largest,
            spooled_before,
        ).path is Some,
{
}

/// An item goes by its title, and by its id where it has none.
pub proof fn an_item_goes_by_its_title(title: Seq<char>, id: Seq<char>)
    ensures
        title.len() > 0 ==> display_name(title, id) == title,
        title.len() == 0 ==> display_name(title, id) == id,
{
}

/// A tooltip is its title and its text on lines of their own, whichever there are.
pub proof fn a_tooltip_shows_what_there_is(title: Seq<char>, text: Seq<char>)
    ensures
        flat_tooltip(title, text) is None <==> title.len() == 0 && text.len() == 0,
        title.len() > 0 && text.len() > 0 ==> flat_tooltip(title, text) == Some(title + "\n"@ + text),
        title.len() > 0 && text.len() == 0 ==> flat_tooltip(title, text) == Some(title),
        title.len() == 0 && text.len() > 0 ==> flat_tooltip(title, text) == Some(text),
{
}

/// Pixels are encoded exactly where they are not those encoded last time, and are otherwise shown from
/// the file that they went to; a name and a file of the theme need none.
pub proof fn the_same_pixels_are_encoded_once(
    source: IconSource,
    largest: Option<u64>,
    spooled_before: Option<(Seq<char>, u64)>,
    digest: u64,
    file: Seq<char>,
    last: u64,
)
    ensures
        needs_spooling(source, largest, spooled_before) == Some(digest) <==> source is Pixmap && largest == Some(digest)
            && !(spooled_before matches Some((_, before)) && before == digest),
        source is Pixmap && largest == Some(digest) && spooled_before == Some((file, digest)) ==> resolved_view(
            source,
            largest,
            spooled_before,
        ) == (VariantView { name: None, path: Some(file), digest: Some(digest) }),
        source matches IconSource::Name(name) ==> resolved_view(source, largest, spooled_before) == (VariantView {
            name: Some(name@),
            path: None,
            digest: None,
        }),
        source matches IconSource::ThemePathFile(path) ==> resolved_view(source, largest, spooled_before) == (
        VariantView { name: None, path: Some(path@), digest: None }),
        source is Absent || (source is Pixmap && largest is None) ==> resolved_view(source, largest, spooled_before) == (
        VariantView { name: None, path: None, digest: None }),
{
}

/// A text that an application sent is cut at the cap and not before, and one that it did not send is
/// empty.
pub proof fn a_text_is_cut_at_the_cap(value: Option<String>, max_bytes: int)
    requires
        0 <= max_bytes,
    ensures
        value is None ==> capped_text(value, max_bytes).len() == 0 && capped_name(value, max_bytes) is None,
        value matches Some(text) ==> capped_text(value, max_bytes).is_prefix_of(text@) && capped_name(value, max_bytes)
            == Some(capped_text(value, max_bytes)) && (vstd::utf8::encode_utf8(text@).len() <= max_bytes
            ==> capped_text(value, max_bytes) == text@),
        vstd::utf8::encode_utf8(capped_text(value, max_bytes)).len() <= max_bytes,
{
    match value {
        Some(text) => crate::capabilities::lemma_truncated(text@, max_bytes),
        None => crate::capabilities::lemma_truncated(Seq::empty(), max_bytes),
    }
}

} // verus!
