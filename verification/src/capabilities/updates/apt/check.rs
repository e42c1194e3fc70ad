//! Parsers for the check's `apt-get -s` and `apt-cache show` output, in the C locale.

use vstd::prelude::*;

use crate::capabilities::updates::backend::{CandidateView, UpdateCandidate};
use crate::text;

verus! {

/// The suite of an origin, `Origin:Version/Suite`: what follows its last slash.
pub open spec fn suite_of(origin: Seq<char>) -> Seq<char> {
    match text::rsplit_once(origin, "/"@) {
        Some((_, suite)) => suite,
        None => origin,
    }
}

/// The suites of the origins that are not empty.
pub open spec fn suites(origins: Seq<Seq<char>>) -> Seq<Seq<char>>
    decreases origins.len(),
{
    if origins.len() == 0 {
        Seq::empty()
    } else if origins.last().len() == 0 {
        suites(origins.drop_last())
    } else {
        suites(origins.drop_last()).push(suite_of(origins.last()))
    }
}

/// An origin may hold spaces, a suite does not; origins are parted by a comma and a space.
pub open spec fn repository_of(origins: Seq<char>) -> Seq<char> {
    text::join(suites(text::split(origins, ", "@)), ","@)
}

/// The version and the origins of `1.12-1ubuntu3.2 Ubuntu:24.04/noble-updates, ...`.
pub open spec fn release_parts(release: Seq<char>) -> (Seq<char>, Seq<char>) {
    match text::split_once(release, " "@) {
        Some(parts) => parts,
        None => (release, Seq::empty()),
    }
}

pub open spec fn upgrade(name: Seq<char>, old_version: Seq<char>, release: Seq<char>) -> CandidateView {
    CandidateView {
        name,
        old_version,
        new_version: release_parts(release).0,
        download_size: 0,
        installed_size: 0,
        repository: repository_of(release_parts(release).1),
    }
}

/// The package of `Inst gzip [1.12-1] (1.12-2 Ubuntu:24.04/noble-updates [amd64])`. A package that
/// is newly installed has no installed version and is none.
pub open spec fn inst(line: Seq<char>) -> Option<CandidateView> {
    match text::strip_prefix(line, "Inst "@) {
        None => None,
        Some(rest) => match text::split_once(rest, " "@) {
            None => None,
            Some((name, rest)) => match text::strip_prefix(rest, "["@) {
                None => None,
                Some(rest) => match text::split_once(rest, "] ("@) {
                    None => None,
                    Some((old_version, rest)) => match text::split_once(rest, ")"@) {
                        None => None,
                        Some((offer, _)) => match text::rsplit_once(offer, " ["@) {
                            None => None,
                            Some((release, _)) => Some(upgrade(name, old_version, release)),
                        },
                    },
                },
            },
        },
    }
}

/// The upgrades among lines.
pub open spec fn insts(lines: Seq<Seq<char>>) -> Seq<CandidateView>
    decreases lines.len(),
{
    if lines.len() == 0 {
        Seq::empty()
    } else {
        match inst(lines.last()) {
            Some(package) => insts(lines.drop_last()).push(package),
            None => insts(lines.drop_last()),
        }
    }
}

fn suite_names<'a>(origins: &'a str) -> (names: Vec<&'a str>)
    ensures
        text::texts(names@) == suites(text::split(origins@, ", "@)),
{
    proof {
        reveal_strlit(", ");
    }
    let pieces = text::str_split(origins, ", ");
    let ghost all = text::texts(pieces@);
    let mut names: Vec<&'a str> = Vec::new();
    let mut i: usize = 0;
    assert(all.subrange(0, 0) =~= Seq::<Seq<char>>::empty());
    assert(text::texts(names@) =~= Seq::<Seq<char>>::empty());
    while i < pieces.len()
        invariant
            i <= pieces@.len(),
            all == text::texts(pieces@),
            text::texts(names@) == suites(all.subrange(0, i as int)),
        decreases pieces@.len() - i,
    {
        let origin = pieces[i];
        let ghost before = names@;
        assert(all.subrange(0, i + 1).drop_last() =~= all.subrange(0, i as int));
        if !origin.is_empty() {
            let suite = match text::str_rsplit_once(origin, "/") {
                Some((_, suite)) => suite,
                None => origin,
            };
            names.push(suite);
            assert(text::texts(names@) =~= text::texts(before).push(suite@));
        }
        i += 1;
    }
    assert(all.subrange(0, i as int) =~= all);
    names
}

/// Reads one `Inst` line.
pub fn parse_inst(line: &str) -> (package: Option<UpdateCandidate>)
    ensures
        inst(line@) == (match package {
            Some(package) => Some(package@),
            None => None,
        }),
{
    let rest = match text::str_strip_prefix(line, "Inst ") {
        Some(rest) => rest,
        None => return None,
    };
    let (name, rest) = match text::str_split_once(rest, " ") {
        Some(parts) => parts,
        None => return None,
    };
    let rest = match text::str_strip_prefix(rest, "[") {
        Some(rest) => rest,
        None => return None,
    };
    let (old_version, rest) = match text::str_split_once(rest, "] (") {
        Some(parts) => parts,
        None => return None,
    };
    let offer = match text::str_split_once(rest, ")") {
        Some((offer, _)) => offer,
        None => return None,
    };
    let release = match text::str_rsplit_once(offer, " [") {
        Some((release, _)) => release,
        None => return None,
    };
    let (new_version, repository) = match text::str_split_once(release, " ") {
        Some((version, origins)) => (version.to_owned(), text::join_strs(&suite_names(origins), ",")),
        None => {
            let origins = String::new();
            (release.to_owned(), text::join_strs(&suite_names(origins.as_str()), ","))
        },
    };
    Some(
        UpdateCandidate {
            name: name.to_owned(),
            old_version: old_version.to_owned(),
            new_version,
            download_size: 0,
            installed_size: 0,
            repository,
        },
    )
}

/// Upgrades from the simulation's `Inst` lines, sizes `0` until [`fill_sizes`].
pub fn parse_simulation(stdout: &str) -> (packages: Vec<UpdateCandidate>)
    ensures
        crate::capabilities::updates::backend::candidates(packages@) == insts(text::lines(stdout@)),
{
    let lines = text::str_lines(stdout);
    let ghost all = text::texts(lines@);
    let mut packages: Vec<UpdateCandidate> = Vec::new();
    let mut i: usize = 0;
    assert(all.subrange(0, 0) =~= Seq::<Seq<char>>::empty());
    assert(crate::capabilities::updates::backend::candidates(packages@) =~= Seq::<CandidateView>::empty());
    while i < lines.len()
        invariant
            i <= lines@.len(),
            all == text::texts(lines@),
            crate::capabilities::updates::backend::candidates(packages@) == insts(all.subrange(0, i as int)),
        decreases lines@.len() - i,
    {
        let ghost before = packages@;
        assert(all.subrange(0, i + 1).drop_last() =~= all.subrange(0, i as int));
        if let Some(package) = parse_inst(lines[i]) {
            packages.push(package);
            assert(crate::capabilities::updates::backend::candidates(packages@)
                =~= crate::capabilities::updates::backend::candidates(before).push(package@));
        }
        i += 1;
    }
    assert(all.subrange(0, i as int) =~= all);
    packages
}

// ---- sizes ----

/// A line's value for a key, `Key: value`.
pub open spec fn line_value(line: Seq<char>, key: Seq<char>) -> Option<Seq<char>> {
    match text::strip_prefix(line, key) {
        Some(rest) => text::strip_prefix(rest, ": "@),
        None => None,
    }
}

/// The first value for a key among lines, from `from` on.
pub open spec fn value_from(lines: Seq<Seq<char>>, key: Seq<char>, from: int) -> Option<Seq<char>>
    decreases lines.len() - from,
{
    if from < 0 || from >= lines.len() {
        None
    } else {
        match line_value(lines[from], key) {
            Some(value) => Some(value),
            None => value_from(lines, key, from + 1),
        }
    }
}

pub open spec fn field(stanza: Seq<char>, key: Seq<char>) -> Option<Seq<char>> {
    value_from(text::lines(stanza), key, 0)
}

/// The number a key has, `0` without a readable one.
pub open spec fn number(stanza: Seq<char>, key: Seq<char>) -> i64 {
    match field(stanza, key) {
        Some(value) => match text::parse_signed(text::trim(value)) {
            Some(n) => n as i64,
            None => 0,
        },
        None => 0,
    }
}

/// What a stanza says of a package's sizes in bytes: `Size` is in bytes, `Installed-Size` in KiB,
/// and a product past 64 bits wraps.
pub open spec fn stanza_sizes(stanza: Seq<char>) -> (i64, i64) {
    (number(stanza, "Size"@), number(stanza, "Installed-Size"@).wrapping_mul(1024i64))
}

/// The sizes of the first stanza for a name and a version, from `from` on.
pub open spec fn sizes_from(stanzas: Seq<Seq<char>>, name: Seq<char>, version: Seq<char>, from: int) -> Option<
    (i64, i64),
>
    decreases stanzas.len() - from,
{
    if from < 0 || from >= stanzas.len() {
        None
    } else if field(stanzas[from], "Package"@) == Some(name) && field(stanzas[from], "Version"@) == Some(version) {
        Some(stanza_sizes(stanzas[from]))
    } else {
        sizes_from(stanzas, name, version, from + 1)
    }
}

/// A foreign-architecture `name:i386` is plain `name` in its stanza.
pub open spec fn stanza_name(name: Seq<char>) -> Seq<char> {
    match text::split_once(name, ":"@) {
        Some((plain, _)) => plain,
        None => name,
    }
}

/// A package with the sizes its stanza gives; as it was without one.
pub open spec fn sized(package: CandidateView, stdout: Seq<char>) -> CandidateView {
    match sizes_from(text::split(stdout, "\n\n"@), stanza_name(package.name), package.new_version, 0) {
        Some((download, installed)) => CandidateView {
            download_size: download,
            installed_size: installed,
            ..package
        },
        None => package,
    }
}

fn field_of<'a>(stanza: &'a str, key: &str) -> (value: Option<&'a str>)
    ensures
        text::optional_str(value) == field(stanza@, key@),
{
    let lines = text::str_lines(stanza);
    let ghost all = text::texts(lines@);
    let mut i: usize = 0;
    while i < lines.len()
        invariant
            i <= lines@.len(),
            all == text::texts(lines@),
            all == text::lines(stanza@),
            value_from(all, key@, i as int) == value_from(all, key@, 0),
        decreases lines@.len() - i,
    {
        assert(all[i as int] == lines@[i as int]@);
        if let Some(rest) = text::str_strip_prefix(lines[i], key) {
            if let Some(value) = text::str_strip_prefix(rest, ": ") {
                return Some(value);
            }
        }
        i += 1;
    }
    None
}

fn number_of(stanza: &str, key: &str) -> (n: i64)
    ensures
        n == number(stanza@, key@),
{
    match field_of(stanza, key) {
        Some(value) => match text::str_parse_i64(text::str_trim(value)) {
            Some(n) => n,
            None => 0,
        },
        None => 0,
    }
}

fn sizes_of(stanzas: &Vec<&str>, name: &str, version: &str) -> (sizes: Option<(i64, i64)>)
    ensures
        sizes == sizes_from(text::texts(stanzas@), name@, version@, 0),
{
    let ghost all = text::texts(stanzas@);
    let mut i: usize = 0;
    while i < stanzas.len()
        invariant
            i <= stanzas@.len(),
            all == text::texts(stanzas@),
            sizes_from(all, name@, version@, i as int) == sizes_from(all, name@, version@, 0),
        decreases stanzas@.len() - i,
    {
        let stanza = stanzas[i];
        assert(all[i as int] == stanza@);
        let names_it = match field_of(stanza, "Package") {
            Some(package) => text::same(package, name),
            None => false,
        };
        let offers_it = match field_of(stanza, "Version") {
            Some(offered) => text::same(offered, version),
            None => false,
        };
        if names_it && offers_it {
            return Some((number_of(stanza, "Size"), number_of(stanza, "Installed-Size").wrapping_mul(1024)));
        }
        i += 1;
    }
    None
}

/// Sets each package's sizes from the `apt-cache show name=version` stanza of its new version.
pub fn fill_sizes(packages: &mut Vec<UpdateCandidate>, stdout: &str)
    ensures
        final(packages)@.len() == old(packages)@.len(),
        forall|i: int|
            0 <= i < old(packages)@.len() ==> (#[trigger] final(packages)@[i])@ == sized(
                old(packages)@[i]@,
                stdout@,
            ),
{
    proof {
        reveal_strlit("\n\n");
    }
    let stanzas = text::str_split(stdout, "\n\n");
    let ghost before = packages@;
    let mut i: usize = 0;
    while i < packages.len()
        invariant
            i <= packages@.len(),
            packages@.len() == before.len(),
            text::texts(stanzas@) == text::split(stdout@, "\n\n"@),
            forall|j: int| 0 <= j < i ==> (#[trigger] packages@[j])@ == sized(before[j]@, stdout@),
            forall|j: int| i <= j < before.len() ==> #[trigger] packages@[j] == before[j],
        decreases packages@.len() - i,
    {
        let sizes = {
            let package = &packages[i];
            let name = match text::str_split_once(package.name.as_str(), ":") {
                Some((plain, _)) => plain,
                None => package.name.as_str(),
            };
            sizes_of(&stanzas, name, package.new_version.as_str())
        };
        if let Some((download, installed)) = sizes {
            let mut package = packages.remove(i);
            package.download_size = download;
            package.installed_size = installed;
            packages.insert(i, package);
        }
        i += 1;
    }
}

// ---- laws ----

/// A suite is what follows the last slash of an origin.
pub proof fn a_suite_follows_the_last_slash(archive: Seq<char>, suite: Seq<char>)
    requires
        !suite.contains('/'),
    ensures
        suite_of(archive + "/"@ + suite) == suite,
        suite_of(suite) == suite,
{
    reveal_strlit("/");
    text::a_text_is_parted_at_the_first_place(archive, "/"@, suite);
    text::a_text_is_parted_at_the_first_place(suite, "/"@, suite);
}

/// The suites are those of the origins that are there, all of them and in their order. Returns where
/// they stand.
pub proof fn every_origin_has_its_suite(origins: Seq<Seq<char>>) -> (at: Seq<int>)
    ensures
        at.len() == suites(origins).len(),
        forall|i: int| 0 <= i < at.len() ==> 0 <= #[trigger] at[i] < origins.len() && (origins[at[i]].len() > 0),
        forall|i: int| 0 <= i < at.len() ==> (suites(origins)[i] == suite_of(origins[#[trigger] at[i]])),
        forall|i: int, j: int| 0 <= i < j < at.len() ==> #[trigger] at[i] < #[trigger] at[j],
        forall|p: int| 0 <= p < origins.len() && ((#[trigger] origins[p]).len() > 0) ==> at.contains(p),
    decreases origins.len(),
{
    if origins.len() == 0 {
        Seq::empty()
    } else {
        let shorter = origins.drop_last();
        let n = origins.len() - 1;
        let before = every_origin_has_its_suite(origins.drop_last());
        assert forall|p: int| 0 <= p < n implies shorter[p] == #[trigger] origins[p] by {}
        if origins.last().len() > 0 {
            let at = before.push(n);
            assert forall|p: int| 0 <= p < origins.len() && ((#[trigger] origins[p]).len() > 0) implies at.contains(p) by {
                if p < n {
                    assert(shorter[p] == origins[p]);
                    let k = choose|k: int| 0 <= k < before.len() && before[k] == p;
                    assert(at[k] == p);
                } else {
                    assert(at[before.len() as int] == p);
                }
            }
            at
        } else {
            assert forall|p: int| 0 <= p < origins.len() && ((#[trigger] origins[p]).len() > 0) implies before.contains(
                p,
            ) by {
                assert(p < n);
                assert(shorter[p] == origins[p]);
            }
            before
        }
    }
}

/// A release is a version and, behind the first blank, its origins; the repository is their suites with
/// commas between them.
pub proof fn a_release_is_a_version_and_its_origins(
    name: Seq<char>,
    old_version: Seq<char>,
    version: Seq<char>,
    origins: Seq<char>,
)
    requires
        !version.contains(' '),
    ensures
        upgrade(name, old_version, version + " "@ + origins) == (CandidateView {
            name,
            old_version,
            new_version: version,
            download_size: 0,
            installed_size: 0,
            repository: text::join(suites(text::split(origins, ", "@)), ","@),
        }),
        upgrade(name, old_version, version).new_version == version,
        upgrade(name, old_version, version).repository.len() == 0,
        upgrade(name, old_version, version).name == name && upgrade(name, old_version, version).old_version
            == old_version,
        !origins.contains('/') && !origins.contains(',') && origins.len() > 0 ==> upgrade(
            name,
            old_version,
            version + " "@ + origins,
        ).repository == origins,
{
    reveal_strlit(" ");
    reveal_strlit(", ");
    text::a_text_is_parted_at_the_first_place(version, " "@, origins);
    text::a_piece_ends_at_the_parting(Seq::empty(), ", "@, Seq::empty());
    assert(seq![Seq::<char>::empty()].drop_last() =~= Seq::<Seq<char>>::empty());
    reveal_with_fuel(suites, 2);
    if !origins.contains('/') && !origins.contains(',') && origins.len() > 0 {
        a_suite_follows_the_last_slash(origins, origins);
        text::a_piece_ends_at_the_parting(origins, ", "@, origins);
        assert(seq![origins].drop_last() =~= Seq::<Seq<char>>::empty());
        assert(suites(seq![origins]) =~= seq![origins]);
    }
}

/// A line of the simulation is a package's upgrade where it names the package, the installed version
/// in square brackets and the release, and the architecture, in round ones.
pub proof fn a_simulated_upgrade_names_both_versions(
    name: Seq<char>,
    old_version: Seq<char>,
    release: Seq<char>,
    arch: Seq<char>,
    tail: Seq<char>,
)
    requires
        !name.contains(' '),
        !old_version.contains(']'),
        !release.contains(')'),
        !arch.contains(')'),
        !arch.contains('['),
    ensures
        inst("Inst "@ + (name + " "@ + ("["@ + (old_version + "] ("@ + ((release + " ["@ + arch) + ")"@ + tail))))) == Some(
            upgrade(name, old_version, release),
        ),
{
    reveal_strlit(" ");
    reveal_strlit("] (");
    reveal_strlit(")");
    reveal_strlit(" [");
    let offer = release + " ["@ + arch;
    let bracketed = old_version + "] ("@ + (offer + ")"@ + tail);
    let named = name + " "@ + ("["@ + bracketed);
    text::a_stripped_prefix_is_all_that_is_missing(named, "Inst "@, named);
    text::a_text_is_parted_at_the_first_place(name, " "@, "["@ + bracketed);
    text::a_stripped_prefix_is_all_that_is_missing(bracketed, "["@, bracketed);
    text::a_text_is_parted_at_the_first_place(old_version, "] ("@, offer + ")"@ + tail);
    if offer.contains(')') {
        let k = choose|k: int| 0 <= k < offer.len() && offer[k] == ')';
        if k < release.len() {
            assert(release[k] == ')');
        } else if k >= release.len() + 2 {
            assert(arch[k - release.len() - 2] == ')');
        }
    }
    text::a_text_is_parted_at_the_first_place(offer, ")"@, tail);
    text::a_text_is_parted_at_the_first_place(release, " ["@, arch);
}

/// A line that does not say `Inst`, and one of a package that is newly installed, is no upgrade.
pub proof fn what_is_newly_installed_is_no_upgrade(line: Seq<char>, name: Seq<char>, rest: Seq<char>)
    requires
        !name.contains(' '),
    ensures
        !text::starts_with(line, "Inst "@) ==> inst(line) is None,
        !text::starts_with(rest, "["@) ==> inst("Inst "@ + (name + " "@ + rest)) is None,
{
    reveal_strlit(" ");
    text::a_stripped_prefix_is_all_that_is_missing(line, "Inst "@, name + " "@ + rest);
    text::a_text_is_parted_at_the_first_place(name, " "@, rest);
}

/// The packages are those of the lines that are an upgrade, all of them and in their order. Returns
/// where they stand.
pub proof fn every_simulated_upgrade_is_listed(lines: Seq<Seq<char>>) -> (at: Seq<int>)
    ensures
        at.len() == insts(lines).len(),
        forall|i: int| 0 <= i < at.len() ==> 0 <= #[trigger] at[i] < lines.len() && (inst(lines[at[i]]) is Some),
        forall|i: int| 0 <= i < at.len() ==> (inst(lines[#[trigger] at[i]]) == Some(insts(lines)[i])),
        forall|i: int, j: int| 0 <= i < j < at.len() ==> #[trigger] at[i] < #[trigger] at[j],
        forall|p: int| 0 <= p < lines.len() && (inst((#[trigger] lines[p])) is Some) ==> at.contains(p),
    decreases lines.len(),
{
    if lines.len() == 0 {
        Seq::empty()
    } else {
        let shorter = lines.drop_last();
        let n = lines.len() - 1;
        let before = every_simulated_upgrade_is_listed(lines.drop_last());
        assert forall|p: int| 0 <= p < n implies shorter[p] == #[trigger] lines[p] by {}
        if inst(lines.last()) is Some {
            let at = before.push(n);
            assert forall|p: int| 0 <= p < lines.len() && (inst((#[trigger] lines[p])) is Some) implies at.contains(p) by {
                if p < n {
                    assert(shorter[p] == lines[p]);
                    let k = choose|k: int| 0 <= k < before.len() && before[k] == p;
                    assert(at[k] == p);
                } else {
                    assert(at[before.len() as int] == p);
                }
            }
            at
        } else {
            assert forall|p: int| 0 <= p < lines.len() && (inst((#[trigger] lines[p])) is Some) implies before.contains(
                p,
            ) by {
                assert(p < n);
                assert(shorter[p] == lines[p]);
            }
            before
        }
    }
}

/// A field is what stands behind its key, a colon and a blank, on the first line that has it.
pub proof fn a_field_is_on_its_first_line(lines: Seq<Seq<char>>, key: Seq<char>, from: int, value: Seq<char>, line: Seq<char>)
    requires
        0 <= from <= lines.len(),
    ensures
        line_value(key + (": "@ + value), key) == Some(value),
        line_value(line, key) matches Some(value) ==> line == key + (": "@ + value),
        match value_from(lines, key, from) {
            Some(value) => exists|at: int|
                from <= at < lines.len() && line_value(#[trigger] lines[at], key) == Some(value) && forall|j: int|
                    from <= j < at ==> line_value(#[trigger] lines[j], key) is None,
            None => forall|j: int| from <= j < lines.len() ==> line_value(#[trigger] lines[j], key) is None,
        },
    decreases lines.len() - from,
{
    text::a_stripped_prefix_is_all_that_is_missing(line, key, ": "@ + value);
    text::a_stripped_prefix_is_all_that_is_missing(value, ": "@, value);
    if let Some(rest) = text::strip_prefix(line, key) {
        text::a_stripped_prefix_is_all_that_is_missing(rest, ": "@, value);
    }
    if from < lines.len() {
        a_field_is_on_its_first_line(lines, key, from + 1, value, line);
        if line_value(lines[from], key) is Some {
            assert(line_value(lines[from], key) == value_from(lines, key, from));
        } else if let Some(value) = value_from(lines, key, from) {
            let at = choose|at: int|
                from + 1 <= at < lines.len() && line_value(#[trigger] lines[at], key) == Some(value) && forall|j: int|
                    from + 1 <= j < at ==> line_value(#[trigger] lines[j], key) is None;
            assert(line_value(lines[at], key) == Some(value));
            assert forall|j: int| from <= j < at implies line_value(#[trigger] lines[j], key) is None by {}
        }
    }
}

/// A stanza's sizes are its download in bytes and its installed size in kibibytes, and zero where it
/// gives no number.
pub proof fn a_stanza_gives_bytes_and_kibibytes(stanza: Seq<char>)
    ensures
        match value_from(text::lines(stanza), "Size"@, 0) {
            Some(value) => match text::parse_signed(text::trim(value)) {
                Some(n) => stanza_sizes(stanza).0 == n,
                None => stanza_sizes(stanza).0 == 0,
            },
            None => stanza_sizes(stanza).0 == 0,
        },
        match value_from(text::lines(stanza), "Installed-Size"@, 0) {
            Some(value) => match text::parse_signed(text::trim(value)) {
                Some(n) => i64::MIN <= n * 1024 <= i64::MAX ==> stanza_sizes(stanza).1 == n * 1024,
                None => stanza_sizes(stanza).1 == 0,
            },
            None => stanza_sizes(stanza).1 == 0,
        },
{
}

/// A package has the sizes of the first stanza of its name and version, whatever the architecture
/// behind its name, and keeps its own where there is none; nothing else of it changes.
pub proof fn a_package_has_its_stanzas_sizes(package: CandidateView, stdout: Seq<char>, at: int)
    ensures
        sized(package, stdout).name == package.name && sized(package, stdout).old_version == package.old_version && sized(
            package,
            stdout,
        ).new_version == package.new_version && sized(package, stdout).repository == package.repository,
        ({
            let stanzas = text::split(stdout, "\n\n"@);
            let name = stanza_name(package.name);
            &&& (0 <= at < stanzas.len() && field(stanzas[at], "Package"@) == Some(name) && field(
                stanzas[at],
                "Version"@,
            ) == Some(package.new_version) && (forall|j: int|
                0 <= j < at ==> !(field(#[trigger] stanzas[j], "Package"@) == Some(name) && field(
                    stanzas[j],
                    "Version"@,
                ) == Some(package.new_version)))) ==> (sized(package, stdout).download_size, sized(
                package,
                stdout,
            ).installed_size) == stanza_sizes(stanzas[at])
            &&& (forall|j: int|
                0 <= j < stanzas.len() ==> !(field(#[trigger] stanzas[j], "Package"@) == Some(name) && field(
                    stanzas[j],
                    "Version"@,
                ) == Some(package.new_version))) ==> sized(package, stdout) == package
        }),
{
    lemma_sizes_from(text::split(stdout, "\n\n"@), stanza_name(package.name), package.new_version, 0, at);
}

proof fn lemma_sizes_from(stanzas: Seq<Seq<char>>, name: Seq<char>, version: Seq<char>, from: int, at: int)
    requires
        0 <= from <= stanzas.len(),
    ensures
        (from <= at < stanzas.len() && field(stanzas[at], "Package"@) == Some(name) && field(stanzas[at], "Version"@)
            == Some(version) && (forall|j: int|
            from <= j < at ==> !(field(#[trigger] stanzas[j], "Package"@) == Some(name) && field(stanzas[j], "Version"@)
                == Some(version)))) ==> sizes_from(stanzas, name, version, from) == Some(stanza_sizes(stanzas[at])),
        (forall|j: int|
            from <= j < stanzas.len() ==> !(field(#[trigger] stanzas[j], "Package"@) == Some(name) && field(
                stanzas[j],
                "Version"@,
            ) == Some(version))) ==> sizes_from(stanzas, name, version, from) is None,
    decreases stanzas.len() - from,
{
    if from < stanzas.len() {
        lemma_sizes_from(stanzas, name, version, from + 1, at);
    }
}

/// A stanza has a package's name without the architecture behind the colon.
pub proof fn a_stanza_knows_no_architecture(name: Seq<char>, arch: Seq<char>)
    requires
        !name.contains(':'),
    ensures
        stanza_name(name + ":"@ + arch) == name,
        stanza_name(name) == name,
{
    reveal_strlit(":");
    text::a_text_is_parted_at_the_first_place(name, ":"@, arch);
}

} // verus!
