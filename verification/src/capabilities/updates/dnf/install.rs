//! Install progress from `dnf upgrade`'s C-locale output, dnf5's or dnf4's.

use vstd::prelude::*;

use crate::capabilities::updates::backend::{InstallStep, StepView};
use crate::text;

verus! {

/// The name in dnf5's `name-epoch:version-release.arch`. dnf5 always prints the epoch, so the name
/// ends at the dash before it; it cuts the whole to a fixed column, and a name longer than that is
/// reported cut.
pub open spec fn dnf5_package(nevra: Seq<char>) -> Seq<char> {
    match text::split_once(nevra, ":"@) {
        None => nevra,
        Some((name_epoch, _)) => match text::rsplit_once(name_epoch, "-"@) {
            Some((name, _)) => name,
            None => name_epoch,
        },
    }
}

/// The name in dnf4's `name-[epoch:]version-release.arch`, which it prints whole: what stands before
/// the last two dashes.
pub open spec fn dnf4_package(nevra: Seq<char>) -> Option<Seq<char>> {
    match text::rsplit_once(nevra, "."@) {
        None => None,
        Some((whole, _)) => match text::rsplit_once(whole, "-"@) {
            None => None,
            Some((name_version, _)) => match text::rsplit_once(name_version, "-"@) {
                Some((name, _)) => Some(name),
                None => None,
            },
        },
    }
}

/// The verbs of a transaction's own lines; downloads, scriptlets and dnf4's verify pass have others.
pub open spec fn is_step_verb(verb: Seq<char>) -> bool {
    ||| verb == "Installing"@
    ||| verb == "Upgrading"@
    ||| verb == "Downgrading"@
    ||| verb == "Reinstalling"@
    ||| verb == "Removing"@
    ||| verb == "Cleanup"@
    ||| verb == "Erasing"@
}

/// A line's counts, verb and package, before any of them is judged.
pub struct LineParts {
    pub counts: Seq<char>,
    pub verb: Seq<char>,
    pub package: Seq<char>,
}

/// dnf5's `[ 3/12] Upgrading vim-data-2:9.2.1119-1 100% | ...`, after its `[`.
pub open spec fn dnf5_parts(rest: Seq<char>) -> Option<LineParts> {
    match text::split_once(rest, "]"@) {
        None => None,
        Some((counts, rest)) => {
            let words = text::words(rest);
            if words.len() >= 2 {
                Some(LineParts { counts, verb: words[0], package: dnf5_package(words[1]) })
            } else {
                None
            }
        },
    }
}

/// dnf4's `Upgrading  : curl-minimal-7.76.1-43.el9.x86_64   2/6`.
pub open spec fn dnf4_parts(line: Seq<char>) -> Option<LineParts> {
    match text::split_once(line, ":"@) {
        None => None,
        Some((verb, rest)) => {
            let words = text::words(rest);
            if words.len() >= 2 {
                match dnf4_package(words[0]) {
                    Some(package) => Some(LineParts { counts: words.last(), verb: text::trim(verb), package }),
                    None => None,
                }
            } else {
                None
            }
        },
    }
}

pub open spec fn parts_of(line: Seq<char>) -> Option<LineParts> {
    match text::strip_prefix(line, "["@) {
        Some(rest) => dnf5_parts(rest),
        None => dnf4_parts(line),
    }
}

/// `3/12` as its two numbers.
pub open spec fn counts_of(counts: Seq<char>) -> Option<(u32, u32)> {
    match text::split_once(counts, "/"@) {
        None => None,
        Some((current, total)) => match (
            text::parse_unsigned(text::trim(current), u32::MAX as nat),
            text::parse_unsigned(text::trim(total), u32::MAX as nat),
        ) {
            (Some(current), Some(total)) => Some((current as u32, total as u32)),
            _ => None,
        },
    }
}

/// The step a line stands for.
pub open spec fn step_of(line: Seq<char>) -> Option<StepView> {
    match parts_of(text::trim(line)) {
        None => None,
        Some(parts) => if !is_step_verb(parts.verb) {
            None
        } else {
            match counts_of(parts.counts) {
                Some((current, total)) => Some(StepView { current, total, package: parts.package }),
                None => None,
            }
        },
    }
}

pub fn dnf5_name<'a>(nevra: &'a str) -> (name: &'a str)
    ensures
        name@ == dnf5_package(nevra@),
{
    match text::str_split_once(nevra, ":") {
        None => nevra,
        Some((name_epoch, _)) => match text::str_rsplit_once(name_epoch, "-") {
            Some((name, _)) => name,
            None => name_epoch,
        },
    }
}

pub fn dnf4_name<'a>(nevra: &'a str) -> (name: Option<&'a str>)
    ensures
        text::optional_str(name) == dnf4_package(nevra@),
{
    let whole = match text::str_rsplit_once(nevra, ".") {
        Some((whole, _)) => whole,
        None => return None,
    };
    let name_version = match text::str_rsplit_once(whole, "-") {
        Some((name_version, _)) => name_version,
        None => return None,
    };
    match text::str_rsplit_once(name_version, "-") {
        Some((name, _)) => Some(name),
        None => None,
    }
}

fn step_verb(verb: &str) -> (is_one: bool)
    ensures
        is_one == is_step_verb(verb@),
{
    text::same(verb, "Installing") || text::same(verb, "Upgrading") || text::same(verb, "Downgrading") || text::same(
        verb,
        "Reinstalling",
    ) || text::same(verb, "Removing") || text::same(verb, "Cleanup") || text::same(verb, "Erasing")
}

fn line_parts<'a>(line: &'a str) -> (parts: Option<(&'a str, &'a str, &'a str)>)
    ensures
        parts_of(line@) == (match parts {
            Some((counts, verb, package)) => Some(
                LineParts { counts: counts@, verb: verb@, package: package@ },
            ),
            None => None,
        }),
{
    match text::str_strip_prefix(line, "[") {
        Some(rest) => {
            let (counts, rest) = match text::str_split_once(rest, "]") {
                Some(halves) => halves,
                None => return None,
            };
            let words = text::str_words(rest);
            assert(text::texts(words@).len() == words@.len());
            if words.len() >= 2 {
                assert(text::texts(words@)[0] == words@[0]@ && text::texts(words@)[1] == words@[1]@);
                Some((counts, words[0], dnf5_name(words[1])))
            } else {
                None
            }
        },
        None => {
            let (verb, rest) = match text::str_split_once(line, ":") {
                Some(halves) => halves,
                None => return None,
            };
            let words = text::str_words(rest);
            assert(text::texts(words@).len() == words@.len());
            if words.len() >= 2 {
                assert(text::texts(words@)[0] == words@[0]@);
                assert(text::texts(words@).last() == words@.last()@);
                match dnf4_name(words[0]) {
                    Some(package) => Some((words[words.len() - 1], text::str_trim(verb), package)),
                    None => None,
                }
            } else {
                None
            }
        },
    }
}

/// Reads one line. The total counts removals of the old versions, and dnf5's verify and prepare
/// steps.
pub fn parse_install_step(line: &str) -> (step: Option<InstallStep>)
    ensures
        crate::capabilities::updates::backend::step_view(step) == step_of(line@),
{
    let (counts, verb, package) = match line_parts(text::str_trim(line)) {
        Some(parts) => parts,
        None => return None,
    };
    if !step_verb(verb) {
        return None;
    }
    let (current, total) = match text::str_split_once(counts, "/") {
        Some(halves) => halves,
        None => return None,
    };
    match (text::str_parse_u32(text::str_trim(current)), text::str_parse_u32(text::str_trim(total))) {
        (Some(current), Some(total)) => Some(InstallStep { current, total, package: package.to_owned() }),
        _ => None,
    }
}

// ---- laws ----

/// dnf5 names a package, an epoch behind a dash and, behind a colon, the version; without a colon the
/// whole is the name.
pub proof fn dnf5_names_an_epoch(name: Seq<char>, epoch: Seq<char>, rest: Seq<char>)
    requires
        !name.contains(':'),
        !epoch.contains(':'),
        !epoch.contains('-'),
    ensures
        dnf5_package((name + "-"@ + epoch) + ":"@ + rest) == name,
        dnf5_package(name) == name,
        !name.contains('-') ==> dnf5_package(name + ":"@ + rest) == name,
{
    reveal_strlit(":");
    reveal_strlit("-");
    let before = name + "-"@ + epoch;
    if before.contains(':') {
        let k = choose|k: int| 0 <= k < before.len() && before[k] == ':';
        if k < name.len() {
            assert(name[k] == ':');
        } else if k > name.len() {
            assert(epoch[k - name.len() - 1] == ':');
        }
    }
    text::a_text_is_parted_at_the_first_place(before, ":"@, rest);
    text::a_text_is_parted_at_the_first_place(name, "-"@, epoch);
    text::a_text_is_parted_at_the_first_place(name, ":"@, rest);
}

/// dnf4 names a package, its version and its release behind dashes, and its architecture behind a dot.
pub proof fn dnf4_names_version_release_and_architecture(
    name: Seq<char>,
    version: Seq<char>,
    release: Seq<char>,
    arch: Seq<char>,
)
    requires
        !version.contains('-'),
        !release.contains('-'),
        !arch.contains('.'),
    ensures
        dnf4_package(((name + "-"@ + version) + "-"@ + release) + "."@ + arch) == Some(name),
        dnf4_package(arch) is None,
{
    reveal_strlit("-");
    reveal_strlit(".");
    text::a_text_is_parted_at_the_first_place((name + "-"@ + version) + "-"@ + release, "."@, arch);
    text::a_text_is_parted_at_the_first_place(name + "-"@ + version, "-"@, release);
    text::a_text_is_parted_at_the_first_place(name, "-"@, version);
    text::a_text_is_parted_at_the_first_place(arch, "."@, arch);
}

/// The counts are two numbers around a slash, with blanks around them or not.
pub proof fn counts_are_two_numbers(current: Seq<char>, total: Seq<char>)
    requires
        !current.contains('/'),
    ensures
        ({
            let counts = counts_of(current + "/"@ + total);
            let first = text::parse_unsigned(text::trim(current), 0xffff_ffff);
            let second = text::parse_unsigned(text::trim(total), 0xffff_ffff);
            &&& counts is Some <==> first is Some && second is Some
            &&& counts matches Some(counts) ==> first == Some(counts.0 as nat) && second == Some(counts.1 as nat)
        }),
        counts_of(current) is None,
{
    reveal_strlit("/");
    text::a_text_is_parted_at_the_first_place(current, "/"@, total);
}

/// dnf5 writes its counts in square brackets, before the verb and the package.
pub proof fn dnf5_counts_first(counts: Seq<char>, rest: Seq<char>)
    requires
        !counts.contains(']'),
    ensures
        ({
            let words = text::words(rest);
            let parts = parts_of("["@ + (counts + "]"@ + rest));
            &&& parts is Some <==> words.len() >= 2
            &&& parts matches Some(parts) ==> parts.counts == counts && parts.verb == words[0] && parts.package
                == dnf5_package(words[1])
        }),
        parts_of("["@ + counts) is None,
{
    reveal_strlit("]");
    text::a_stripped_prefix_is_all_that_is_missing(rest, "["@, counts + "]"@ + rest);
    text::a_stripped_prefix_is_all_that_is_missing(rest, "["@, counts);
    text::a_text_is_parted_at_the_first_place(counts, "]"@, rest);
}

/// dnf4 writes the verb before a colon, the package behind it and its counts last.
pub proof fn dnf4_counts_last(verb: Seq<char>, rest: Seq<char>)
    requires
        !verb.contains(':'),
        !text::starts_with(verb + ":"@ + rest, "["@),
    ensures
        ({
            let words = text::words(rest);
            let parts = parts_of(verb + ":"@ + rest);
            &&& parts is Some <==> words.len() >= 2 && dnf4_package(words[0]) is Some
            &&& parts matches Some(parts) ==> parts.counts == words[words.len() - 1] && parts.verb == text::trim(verb)
                && dnf4_package(words[0]) == Some(parts.package)
        }),
{
    reveal_strlit(":");
    text::a_text_is_parted_at_the_first_place(verb, ":"@, rest);
}

/// A step is a trimmed line's, of a verb of the seven and with both counts.
pub proof fn a_step_is_counted_and_named(line: Seq<char>)
    ensures
        step_of(line) is Some <==> (parts_of(text::trim(line)) matches Some(parts) && (parts.verb == "Installing"@
            || parts.verb == "Upgrading"@ || parts.verb == "Downgrading"@ || parts.verb == "Reinstalling"@ || parts.verb
            == "Removing"@ || parts.verb == "Cleanup"@ || parts.verb == "Erasing"@) && counts_of(parts.counts) is Some),
        step_of(line) matches Some(step) ==> (parts_of(text::trim(line)) matches Some(parts) && counts_of(parts.counts)
            == Some((step.current, step.total)) && step.package == parts.package),
{
}

} // verus!
