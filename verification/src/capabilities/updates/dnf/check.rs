//! The dnf check: two `repoquery` runs as the user, whose metadata goes to their own cache under no
//! system lock.

use vstd::prelude::*;

use crate::capabilities::updates::backend::{CandidateView, UpdateCandidate};
use crate::text;

verus! {

/// Space-separated because no field holds a space. dnf4 adds its own newline, leaving blank lines.
pub const UPGRADE_FORMAT: &'static str = "%{name} %{arch} %{evr} %{repoid} %{downloadsize} %{installsize}\n";

pub const INSTALLED_FORMAT: &'static str = "%{name} %{arch} %{evr}\n";

/// The lines that are not blank, without whitespace at their ends.
pub open spec fn full_lines(lines: Seq<Seq<char>>) -> Seq<Seq<char>>
    decreases lines.len(),
{
    if lines.len() == 0 {
        Seq::empty()
    } else if text::trim(lines.last()).len() == 0 {
        full_lines(lines.drop_last())
    } else {
        full_lines(lines.drop_last()).push(text::trim(lines.last()))
    }
}

/// The lines of an output that are not blank, trimmed.
pub fn lines<'a>(stdout: &'a str) -> (out: Vec<&'a str>)
    ensures
        text::texts(out@) == full_lines(text::lines(stdout@)),
{
    let all = text::str_lines(stdout);
    let ghost views = text::texts(all@);
    let mut out: Vec<&'a str> = Vec::new();
    let mut i: usize = 0;
    assert(views.subrange(0, 0) =~= Seq::<Seq<char>>::empty());
    assert(text::texts(out@) =~= Seq::<Seq<char>>::empty());
    while i < all.len()
        invariant
            i <= all@.len(),
            views == text::texts(all@),
            text::texts(out@) == full_lines(views.subrange(0, i as int)),
        decreases all@.len() - i,
    {
        let line = text::str_trim(all[i]);
        let ghost before = out@;
        assert(views.subrange(0, i + 1).drop_last() =~= views.subrange(0, i as int));
        if !line.is_empty() {
            out.push(line);
            assert(text::texts(out@) =~= text::texts(before).push(line@));
        }
        i += 1;
    }
    assert(views.subrange(0, i as int) =~= views);
    out
}

/// The fields of a line, when there are exactly `n`.
pub open spec fn exactly(line: Seq<char>, n: nat) -> Option<Seq<Seq<char>>> {
    let fields = text::split(line, " "@);
    if fields.len() == n {
        Some(fields)
    } else {
        None
    }
}

/// The space-separated fields of a line, when there are exactly `n`.
pub fn fields<'a>(line: &'a str, n: usize) -> (out: Option<Vec<&'a str>>)
    ensures
        exactly(line@, n as nat) == (match out {
            Some(list) => Some(text::texts(list@)),
            None => None,
        }),
        out matches Some(list) ==> list@.len() == n,
{
    proof {
        reveal_strlit(" ");
    }
    let list = text::str_split(line, " ");
    assert(text::texts(list@).len() == list@.len());
    if list.len() == n {
        Some(list)
    } else {
        None
    }
}

/// A package on offer, with its architecture.
pub struct OfferView {
    pub arch: Seq<char>,
    pub package: CandidateView,
}

/// One [`UPGRADE_FORMAT`] line; the installed version is still empty.
pub open spec fn offer(line: Seq<char>) -> Option<OfferView> {
    match exactly(line, 6) {
        None => None,
        Some(f) => match (text::parse_signed(f[4]), text::parse_signed(f[5])) {
            (Some(download), Some(installed)) => Some(
                OfferView {
                    arch: f[1],
                    package: CandidateView {
                        name: f[0],
                        old_version: Seq::empty(),
                        new_version: f[2],
                        download_size: download as i64,
                        installed_size: installed as i64,
                        repository: f[3],
                    },
                },
            ),
            _ => None,
        },
    }
}

/// The packages on offer, or the first line that is in another format: one is an error, not a
/// skipped package.
pub open spec fn offers(lines: Seq<Seq<char>>) -> Result<Seq<OfferView>, Seq<char>>
    decreases lines.len(),
{
    if lines.len() == 0 {
        Ok(Seq::empty())
    } else {
        match offers(lines.drop_last()) {
            Err(line) => Err(line),
            Ok(before) => match offer(lines.last()) {
                Some(next) => Ok(before.push(next)),
                None => Err(lines.last()),
            },
        }
    }
}

/// An offer held: the architecture and the package.
pub type Offer = (String, UpdateCandidate);

pub open spec fn offer_views(list: Seq<Offer>) -> Seq<OfferView> {
    Seq::new(list.len(), |i: int| OfferView { arch: list[i].0@, package: list[i].1@ })
}

fn parse_offer(line: &str) -> (out: Option<Offer>)
    ensures
        offer(line@) == (match out {
            Some((arch, package)) => Some(OfferView { arch: arch@, package: package@ }),
            None => None,
        }),
{
    let f = match fields(line, 6) {
        Some(f) => f,
        None => return None,
    };
    assert(text::texts(f@)[0] == f@[0]@ && text::texts(f@)[1] == f@[1]@ && text::texts(f@)[2] == f@[2]@
        && text::texts(f@)[3] == f@[3]@ && text::texts(f@)[4] == f@[4]@ && text::texts(f@)[5] == f@[5]@);
    match (text::str_parse_i64(f[4]), text::str_parse_i64(f[5])) {
        (Some(download_size), Some(installed_size)) => Some(
            (
                f[1].to_owned(),
                UpdateCandidate {
                    name: f[0].to_owned(),
                    old_version: String::new(),
                    new_version: f[2].to_owned(),
                    download_size,
                    installed_size,
                    repository: f[3].to_owned(),
                },
            ),
        ),
        _ => None,
    }
}

proof fn lemma_first_failure_stands(lines: Seq<Seq<char>>, upto: int)
    requires
        0 <= upto <= lines.len(),
        offers(lines.subrange(0, upto)) is Err,
    ensures
        offers(lines) == offers(lines.subrange(0, upto)),
    decreases lines.len() - upto,
{
    if upto < lines.len() {
        assert(lines.subrange(0, upto + 1).drop_last() =~= lines.subrange(0, upto));
        lemma_first_failure_stands(lines, upto + 1);
    } else {
        assert(lines.subrange(0, upto) =~= lines);
    }
}

/// [`UPGRADE_FORMAT`] lines as `(arch, candidate)`, `old_version` still empty.
pub fn parse_upgrades(stdout: &str) -> (upgrades: Result<Vec<Offer>, String>)
    ensures
        match offers(full_lines(text::lines(stdout@))) {
            Ok(views) => upgrades matches Ok(list) && offer_views(list@) == views,
            Err(line) => upgrades matches Err(message) && message@ == "unreadable dnf line: "@ + line,
        },
{
    let all = lines(stdout);
    let ghost views = text::texts(all@);
    let mut out: Vec<Offer> = Vec::new();
    let mut i: usize = 0;
    assert(views.subrange(0, 0) =~= Seq::<Seq<char>>::empty());
    assert(offer_views(out@) =~= Seq::<OfferView>::empty());
    while i < all.len()
        invariant
            i <= all@.len(),
            views == text::texts(all@),
            views == full_lines(text::lines(stdout@)),
            offers(views.subrange(0, i as int)) == Ok::<Seq<OfferView>, Seq<char>>(offer_views(out@)),
        decreases all@.len() - i,
    {
        let ghost before = out@;
        assert(views.subrange(0, i + 1).drop_last() =~= views.subrange(0, i as int));
        assert(views.subrange(0, i + 1).last() == all@[i as int]@);
        match parse_offer(all[i]) {
            Some(next) => {
                out.push(next);
                assert(offer_views(out@) =~= offer_views(before).push(
                    OfferView { arch: next.0@, package: next.1@ },
                ));
            },
            None => {
                proof {
                    lemma_first_failure_stands(views, i + 1);
                }
                let mut message = "unreadable dnf line: ".to_owned();
                message.append(all[i]);
                return Err(message);
            },
        }
        i += 1;
    }
    assert(views.subrange(0, i as int) =~= views);
    Ok(out)
}

/// The version of the last line that names a package and its architecture.
pub open spec fn installed_version(lines: Seq<Seq<char>>, name: Seq<char>, arch: Seq<char>) -> Option<Seq<char>>
    decreases lines.len(),
{
    if lines.len() == 0 {
        None
    } else {
        match exactly(lines.last(), 3) {
            Some(f) if f[0] == name && f[1] == arch => Some(f[2]),
            _ => installed_version(lines.drop_last(), name, arch),
        }
    }
}

/// A package with the version installed under its name and architecture.
pub open spec fn joined(offer: OfferView, installed: Seq<Seq<char>>) -> CandidateView {
    match installed_version(installed, offer.package.name, offer.arch) {
        Some(version) => CandidateView { old_version: version, ..offer.package },
        None => offer.package,
    }
}

fn version_of<'a>(installed: &Vec<&'a str>, name: &str, arch: &str) -> (version: Option<&'a str>)
    ensures
        text::optional_str(version) == installed_version(text::texts(installed@), name@, arch@),
{
    let ghost views = text::texts(installed@);
    let mut i: usize = installed.len();
    assert(views.subrange(0, i as int) =~= views);
    while i > 0
        invariant
            i <= installed@.len(),
            views == text::texts(installed@),
            installed_version(views.subrange(0, i as int), name@, arch@) == installed_version(views, name@, arch@),
        decreases i,
    {
        assert(views.subrange(0, i as int).drop_last() =~= views.subrange(0, i - 1));
        assert(views.subrange(0, i as int).last() == installed@[i - 1]@);
        if let Some(f) = fields(installed[i - 1], 3) {
            assert(text::texts(f@)[0] == f@[0]@ && text::texts(f@)[1] == f@[1]@ && text::texts(f@)[2] == f@[2]@);
            if text::same(f[0], name) && text::same(f[1], arch) {
                return Some(f[2]);
            }
        }
        i -= 1;
    }
    None
}

/// Fills `old_version` from [`INSTALLED_FORMAT`] lines, matched on name and arch.
pub fn with_installed(upgrades: Vec<Offer>, installed: &str) -> (packages: Vec<UpdateCandidate>)
    ensures
        packages@.len() == upgrades@.len(),
        forall|i: int|
            0 <= i < upgrades@.len() ==> (#[trigger] packages@[i])@ == joined(
                offer_views(upgrades@)[i],
                full_lines(text::lines(installed@)),
            ),
{
    let known = lines(installed);
    let ghost all = upgrades@;
    let mut rest = upgrades;
    let mut packages: Vec<UpdateCandidate> = Vec::new();
    assert(all.subrange(0, all.len() as int) =~= all);
    while rest.len() > 0
        invariant
            packages@.len() + rest@.len() == all.len(),
            text::texts(known@) == full_lines(text::lines(installed@)),
            rest@ == all.subrange(packages@.len() as int, all.len() as int),
            forall|i: int|
                0 <= i < packages@.len() ==> (#[trigger] packages@[i])@ == joined(
                    offer_views(all)[i],
                    full_lines(text::lines(installed@)),
                ),
        decreases rest@.len(),
    {
        let ghost done = packages@.len() as int;
        let (arch, mut package) = rest.remove(0);
        assert(offer_views(all)[done] == OfferView { arch: arch@, package: package@ });
        if let Some(version) = version_of(&known, package.name.as_str(), arch.as_str()) {
            package.old_version = version.to_owned();
        }
        packages.push(package);
        assert(rest@ =~= all.subrange(done + 1, all.len() as int));
    }
    packages
}

/// What a check does next.
#[derive(Debug)]
pub enum Outdated {
    /// Nothing is outdated.
    UpToDate,
    /// Query the installed versions with these arguments, then join them with [`with_installed`].
    Query { arguments: Vec<String>, upgrades: Vec<Offer> },
}

/// The arguments of the first query: `--refresh` matches a sync on every check.
pub fn upgrade_query() -> (arguments: Vec<String>)
    ensures
        text::strings(arguments@) == seq!["--refresh"@, "--upgrades"@, "--qf"@, UPGRADE_FORMAT@],
{
    let mut arguments: Vec<String> = Vec::new();
    arguments.push("--refresh".to_owned());
    arguments.push("--upgrades".to_owned());
    arguments.push("--qf".to_owned());
    arguments.push(UPGRADE_FORMAT.to_owned());
    assert(text::strings(arguments@) =~= seq!["--refresh"@, "--upgrades"@, "--qf"@, UPGRADE_FORMAT@]);
    arguments
}

/// What every query says before its own arguments. A repo that fails to refresh fails the check: a
/// skipped one would turn an offline refresh into an empty, successful answer.
pub fn query_prefix() -> (arguments: Vec<String>)
    ensures
        text::strings(arguments@) == seq![
            "repoquery"@,
            "--quiet"@,
            "--latest-limit=1"@,
            "--setopt=skip_if_unavailable=False"@,
        ],
{
    let mut arguments: Vec<String> = Vec::new();
    arguments.push("repoquery".to_owned());
    arguments.push("--quiet".to_owned());
    arguments.push("--latest-limit=1".to_owned());
    arguments.push("--setopt=skip_if_unavailable=False".to_owned());
    assert(text::strings(arguments@) =~= seq![
        "repoquery"@,
        "--quiet"@,
        "--latest-limit=1"@,
        "--setopt=skip_if_unavailable=False"@,
    ]);
    arguments
}

/// Reads the first query's output; which packages' installed versions to ask for.
pub fn outdated(stdout: &str) -> (next: Result<Outdated, String>)
    ensures
        match offers(full_lines(text::lines(stdout@))) {
            Err(line) => next matches Err(message) && message@ == "unreadable dnf line: "@ + line,
            Ok(views) => if views.len() == 0 {
                next matches Ok(Outdated::UpToDate)
            } else {
                next matches Ok(Outdated::Query { arguments, upgrades }) && offer_views(upgrades@) == views
                    && text::strings(arguments@) == seq!["--installed"@, "--qf"@, INSTALLED_FORMAT@] + Seq::new(
                    views.len(),
                    |i: int| views[i].package.name,
                )
            },
        },
{
    let upgrades = match parse_upgrades(stdout) {
        Ok(upgrades) => upgrades,
        Err(message) => return Err(message),
    };
    let ghost views = offer_views(upgrades@);
    if upgrades.len() == 0 {
        return Ok(Outdated::UpToDate);
    }
    let mut arguments: Vec<String> = Vec::new();
    arguments.push("--installed".to_owned());
    arguments.push("--qf".to_owned());
    arguments.push(INSTALLED_FORMAT.to_owned());
    let mut i: usize = 0;
    while i < upgrades.len()
        invariant
            i <= upgrades@.len(),
            views == offer_views(upgrades@),
            arguments@.len() == i + 3,
            arguments@[0]@ == "--installed"@,
            arguments@[1]@ == "--qf"@,
            arguments@[2]@ == INSTALLED_FORMAT@,
            forall|j: int| 3 <= j < i + 3 ==> (#[trigger] arguments@[j])@ == views[j - 3].package.name,
        decreases upgrades@.len() - i,
    {
        arguments.push(upgrades[i].1.name.clone());
        i += 1;
    }
    assert(text::strings(arguments@) =~= seq!["--installed"@, "--qf"@, INSTALLED_FORMAT@] + Seq::new(
        views.len(),
        |i: int| views[i].package.name,
    ));
    Ok(Outdated::Query { arguments, upgrades })
}

// ---- laws ----

/// The lines are those that hold more than whitespace, trimmed, all of them and in their order. Returns
/// where they stand.
pub proof fn every_line_with_text_counts(lines: Seq<Seq<char>>) -> (at: Seq<int>)
    ensures
        at.len() == full_lines(lines).len(),
        forall|i: int| 0 <= i < at.len() ==> 0 <= #[trigger] at[i] < lines.len() && (text::trim(lines[at[i]]).len() > 0),
        forall|i: int| 0 <= i < at.len() ==> (full_lines(lines)[i] == text::trim(lines[#[trigger] at[i]])),
        forall|i: int, j: int| 0 <= i < j < at.len() ==> #[trigger] at[i] < #[trigger] at[j],
        forall|p: int| 0 <= p < lines.len() && (text::trim((#[trigger] lines[p])).len() > 0) ==> at.contains(p),
    decreases lines.len(),
{
    if lines.len() == 0 {
        Seq::empty()
    } else {
        let shorter = lines.drop_last();
        let n = lines.len() - 1;
        let before = every_line_with_text_counts(lines.drop_last());
        assert forall|p: int| 0 <= p < n implies shorter[p] == #[trigger] lines[p] by {}
        if text::trim(lines.last()).len() > 0 {
            let at = before.push(n);
            assert forall|p: int| 0 <= p < lines.len() && (text::trim((#[trigger] lines[p])).len() > 0) implies at.contains(p) by {
                if p < n {
                    assert(shorter[p] == lines[p]);
                    let k = choose|k: int| 0 <= k < before.len() && before[k] == p;
                    assert(at[k] == p);
                } else {
                    assert(at[before.len() as int] == p);
                }
            }
            at
        } else {
            assert forall|p: int| 0 <= p < lines.len() && (text::trim((#[trigger] lines[p])).len() > 0) implies before.contains(
                p,
            ) by {
                assert(p < n);
                assert(shorter[p] == lines[p]);
            }
            before
        }
    }
}

/// A line has its fields between single blanks, and is none of another number.
pub proof fn a_line_has_just_so_many_fields(line: Seq<char>, n: nat)
    ensures
        exactly(line, n) is Some <==> text::split(line, " "@).len() == n,
        exactly(line, n) matches Some(fields) ==> fields == text::split(line, " "@),
{
}

/// An offer is a name, an architecture, a version, a repository and two sizes; what is installed is
/// not told.
pub proof fn an_offer_is_six_fields(line: Seq<char>)
    ensures
        ({
            let fields = text::split(line, " "@);
            &&& offer(line) is Some <==> fields.len() == 6 && text::parse_signed(fields[4]) is Some && text::parse_signed(
                fields[5],
            ) is Some
            &&& offer(line) matches Some(offer) ==> {
                &&& offer.package.name == fields[0]
                &&& offer.arch == fields[1]
                &&& offer.package.new_version == fields[2]
                &&& offer.package.repository == fields[3]
                &&& Some(offer.package.download_size as int) == text::parse_signed(fields[4])
                &&& Some(offer.package.installed_size as int) == text::parse_signed(fields[5])
                &&& offer.package.old_version.len() == 0
            }
        }),
        UPGRADE_FORMAT@ == "%{name} %{arch} %{evr} %{repoid} %{downloadsize} %{installsize}\n"@,
        INSTALLED_FORMAT@ == "%{name} %{arch} %{evr}\n"@,
{
}

/// The offers are those of all lines, one for each and in their order; where a line is none, the first
/// such line is the error.
pub proof fn every_line_is_an_offer(lines: Seq<Seq<char>>)
    ensures
        offers(lines) is Ok <==> forall|i: int| 0 <= i < lines.len() ==> offer(#[trigger] lines[i]) is Some,
        offers(lines) matches Ok(list) ==> list.len() == lines.len() && forall|i: int|
            0 <= i < lines.len() ==> offer(#[trigger] lines[i]) == Some(list[i]),
        offers(lines) matches Err(bad) ==> exists|at: int|
            0 <= at < lines.len() && #[trigger] lines[at] == bad && offer(bad) is None && forall|j: int|
                0 <= j < at ==> offer(#[trigger] lines[j]) is Some,
    decreases lines.len(),
{
    if lines.len() > 0 {
        let shorter = lines.drop_last();
        let n = lines.len() - 1;
        every_line_is_an_offer(shorter);
        assert forall|i: int| 0 <= i < n implies shorter[i] == #[trigger] lines[i] by {}
        match offers(shorter) {
            Err(bad) => {
                let at = choose|at: int|
                    0 <= at < shorter.len() && #[trigger] shorter[at] == bad && offer(bad) is None && forall|j: int|
                        0 <= j < at ==> offer(#[trigger] shorter[j]) is Some;
                assert(lines[at] == bad);
                assert forall|j: int| 0 <= j < at implies offer(#[trigger] lines[j]) is Some by {
                    assert(shorter[j] == lines[j]);
                }
            },
            Ok(before) => {
                assert forall|i: int| 0 <= i < n implies offer(#[trigger] lines[i]) == Some(before[i]) by {
                    assert(shorter[i] == lines[i]);
                }
                if offer(lines.last()) is None {
                    assert(lines[n] == lines.last());
                }
            },
        }
    }
}

/// A package's installed version is that of the last line of its name and architecture.
pub proof fn an_installed_version_is_of_its_name_and_architecture(
    lines: Seq<Seq<char>>,
    name: Seq<char>,
    arch: Seq<char>,
    version: Seq<char>,
    at: int,
)
    ensures
        (0 <= at < lines.len() && text::split(lines[at], " "@) == seq![name, arch, version] && (forall|j: int|
            at < j < lines.len() ==> !(text::split(#[trigger] lines[j], " "@).len() == 3 && text::split(lines[j], " "@)[0]
                == name && text::split(lines[j], " "@)[1] == arch))) ==> installed_version(lines, name, arch) == Some(
            version,
        ),
        (forall|j: int|
            0 <= j < lines.len() ==> !(text::split(#[trigger] lines[j], " "@).len() == 3 && text::split(lines[j], " "@)[0]
                == name && text::split(lines[j], " "@)[1] == arch)) ==> installed_version(lines, name, arch) is None,
    decreases lines.len(),
{
    if lines.len() > 0 {
        let shorter = lines.drop_last();
        let n = lines.len() - 1;
        an_installed_version_is_of_its_name_and_architecture(shorter, name, arch, version, at);
        assert forall|j: int| 0 <= j < n implies shorter[j] == #[trigger] lines[j] by {}
        assert(lines.last() == lines[n]);
    }
}

/// An offer is an upgrade from what is installed of its name and architecture; nothing else of it
/// changes.
pub proof fn an_offer_upgrades_what_is_installed(offer: OfferView, installed: Seq<Seq<char>>)
    ensures
        installed_version(installed, offer.package.name, offer.arch) matches Some(version) ==> joined(offer, installed)
            == (CandidateView { old_version: version, ..offer.package }),
        installed_version(installed, offer.package.name, offer.arch) is None ==> joined(offer, installed)
            == offer.package,
{
}

} // verus!
