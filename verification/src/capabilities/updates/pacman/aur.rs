//! AUR half of the pacman backend: which helper installs, the AUR web API's answer for foreign
//! packages, and the helper's install arguments.

use vstd::prelude::*;

use crate::capabilities::updates::backend::{CandidateView, UpdateCandidate};
use crate::text;

verus! {

pub const NO_HELPER: &'static str = "no AUR helper found (paru, yay)";

pub const INFO_URL: &'static str = "https://aur.archlinux.org/rpc/v5/info";

/// The helper to use of those on the `PATH`: `paru` before `yay`.
pub fn first_helper(paru: bool, yay: bool) -> (helper: Option<&'static str>)
    ensures
        text::optional_str(helper) == (if paru {
            Some("paru"@)
        } else if yay {
            Some("yay"@)
        } else {
            None
        }),
{
    if paru {
        Some("paru")
    } else if yay {
        Some("yay")
    } else {
        None
    }
}

/// What a helper is run with. `--noconfirm` also skips PKGBUILD review, and `--sudo pkexec` sends
/// the elevation prompt to the shell's polkit agent, since no terminal can take a `sudo` password.
/// The sudo loop is forced off: pkexec has no `-v`, and yay retries a failed `-v` forever.
pub open spec fn helper_arguments(helper: Seq<char>) -> Seq<Seq<char>> {
    seq![
        "-Syu"@,
        "--noconfirm"@,
        "--sudo"@,
        "pkexec"@,
        if helper == "yay"@ {
            "--sudoloop=false"@
        } else {
            "--nosudoloop"@
        },
    ]
}

pub fn install_arguments(helper: &str) -> (arguments: Vec<String>)
    ensures
        text::strings(arguments@) == helper_arguments(helper@),
{
    let no_sudo_loop = if text::same(helper, "yay") {
        "--sudoloop=false"
    } else {
        "--nosudoloop"
    };
    let mut arguments: Vec<String> = Vec::new();
    arguments.push("-Syu".to_owned());
    arguments.push("--noconfirm".to_owned());
    arguments.push("--sudo".to_owned());
    arguments.push("pkexec".to_owned());
    arguments.push(no_sudo_loop.to_owned());
    assert(text::strings(arguments@) =~= helper_arguments(helper@));
    arguments
}

/// A foreign package: in no synced repo. Its name and installed version.
pub type ForeignPackage = (String, String);

pub open spec fn foreign_views(list: Seq<ForeignPackage>) -> Seq<(Seq<char>, Seq<char>)> {
    Seq::new(list.len(), |i: int| (list[i].0@, list[i].1@))
}

/// The form fields asking for packages, after the fixed arguments.
pub open spec fn fields(names: Seq<(Seq<char>, Seq<char>)>) -> Seq<Seq<char>>
    decreases names.len(),
{
    if names.len() == 0 {
        Seq::empty()
    } else {
        fields(names.drop_last()).push("--data-urlencode"@).push("arg[]="@ + names.last().0)
    }
}

pub open spec fn fixed_arguments() -> Seq<Seq<char>> {
    seq!["--silent"@, "--show-error"@, "--fail"@, "--max-time"@, "30"@, INFO_URL@]
}

/// The `curl` arguments that ask for all `foreign` packages in one POST; `None` asks nothing, since
/// there is nothing to ask for.
pub fn request(foreign: &Vec<ForeignPackage>) -> (arguments: Option<Vec<String>>)
    ensures
        match arguments {
            None => foreign@.len() == 0,
            Some(list) => foreign@.len() > 0 && text::strings(list@) == fixed_arguments() + fields(
                foreign_views(foreign@),
            ),
        },
{
    if foreign.len() == 0 {
        return None;
    }
    let ghost views = foreign_views(foreign@);
    let mut list: Vec<String> = Vec::new();
    list.push("--silent".to_owned());
    list.push("--show-error".to_owned());
    list.push("--fail".to_owned());
    list.push("--max-time".to_owned());
    list.push("30".to_owned());
    list.push(INFO_URL.to_owned());
    assert(views.subrange(0, 0) =~= Seq::<(Seq<char>, Seq<char>)>::empty());
    assert(text::strings(list@) =~= fixed_arguments() + fields(views.subrange(0, 0)));
    let mut i: usize = 0;
    while i < foreign.len()
        invariant
            i <= foreign@.len(),
            views == foreign_views(foreign@),
            text::strings(list@) == fixed_arguments() + fields(views.subrange(0, i as int)),
        decreases foreign@.len() - i,
    {
        let ghost before = list@;
        assert(views.subrange(0, i + 1).drop_last() =~= views.subrange(0, i as int));
        list.push("--data-urlencode".to_owned());
        list.push("arg[]=".to_owned().concat(foreign[i].0.as_str()));
        assert(text::strings(list@) =~= text::strings(before).push("--data-urlencode"@).push(
            "arg[]="@ + foreign@[i as int].0@,
        ));
        assert(text::strings(list@) =~= fixed_arguments() + fields(views.subrange(0, i + 1)));
        i += 1;
    }
    assert(views.subrange(0, i as int) =~= views);
    Some(list)
}

/// The error of a request that `curl` could not make.
pub fn request_failure(stderr: &str) -> (message: String)
    ensures
        message@ == "AUR request failed: "@ + text::trim(stderr@),
{
    "AUR request failed: ".to_owned().concat(text::str_trim(stderr))
}

/// One package of an answer.
#[derive(Debug, Clone, PartialEq, Eq)]
pub struct Info {
    pub name: String,
    pub version: String,
}

/// The AUR's answer.
#[derive(Debug, Clone, PartialEq, Eq)]
pub struct InfoResponse {
    pub results: Vec<Info>,
    pub error: Option<String>,
}

/// The installed version of a package; the last entry of a name counts.
pub open spec fn installed(foreign: Seq<(Seq<char>, Seq<char>)>, name: Seq<char>) -> Option<Seq<char>>
    decreases foreign.len(),
{
    if foreign.len() == 0 {
        None
    } else if foreign.last().0 == name {
        Some(foreign.last().1)
    } else {
        installed(foreign.drop_last(), name)
    }
}

/// What the AUR offers of the packages asked for.
pub open spec fn answered(results: Seq<Info>, foreign: Seq<(Seq<char>, Seq<char>)>) -> Seq<CandidateView>
    decreases results.len(),
{
    if results.len() == 0 {
        Seq::empty()
    } else {
        let before = answered(results.drop_last(), foreign);
        match installed(foreign, results.last().name@) {
            None => before,
            Some(version) => before.push(
                CandidateView {
                    name: results.last().name@,
                    old_version: version,
                    new_version: results.last().version@,
                    download_size: 0,
                    installed_size: 0,
                    repository: "aur"@,
                },
            ),
        }
    }
}

fn installed_version<'a>(foreign: &'a Vec<ForeignPackage>, name: &str) -> (version: Option<&'a str>)
    ensures
        text::optional_str(version) == installed(foreign_views(foreign@), name@),
{
    let ghost views = foreign_views(foreign@);
    let mut i: usize = foreign.len();
    assert(views.subrange(0, i as int) =~= views);
    while i > 0
        invariant
            i <= foreign@.len(),
            views == foreign_views(foreign@),
            installed(views.subrange(0, i as int), name@) == installed(views, name@),
        decreases i,
    {
        assert(views.subrange(0, i as int).drop_last() =~= views.subrange(0, i - 1));
        assert(views.subrange(0, i as int).last() == views[i - 1]);
        if text::same(foreign[i - 1].0.as_str(), name) {
            return Some(foreign[i - 1].1.as_str());
        }
        i -= 1;
    }
    None
}

/// Reads an answer, or the reason it could not be read. The answer is untrusted: only names in
/// `foreign` survive, still unordered by version.
pub fn parse_info(answer: &Result<InfoResponse, String>, foreign: &Vec<ForeignPackage>) -> (found: Result<
    Vec<UpdateCandidate>,
    String,
>)
    ensures
        match answer {
            Err(reason) => found matches Err(message) && message@ == "unreadable AUR answer: "@ + reason@,
            Ok(response) => match response.error {
                Some(error) => found matches Err(message) && message@ == "AUR answered: "@ + error@,
                None => found matches Ok(list) && crate::capabilities::updates::backend::candidates(list@)
                    == answered(response.results@, foreign_views(foreign@)),
            },
        },
{
    let response = match answer {
        Err(reason) => return Err("unreadable AUR answer: ".to_owned().concat(reason.as_str())),
        Ok(response) => response,
    };
    match &response.error {
        Some(error) => return Err("AUR answered: ".to_owned().concat(error.as_str())),
        None => {},
    }
    let results = &response.results;
    let mut found: Vec<UpdateCandidate> = Vec::new();
    let mut i: usize = 0;
    assert(results@.subrange(0, 0) =~= Seq::<Info>::empty());
    assert(crate::capabilities::updates::backend::candidates(found@) =~= Seq::<CandidateView>::empty());
    while i < results.len()
        invariant
            i <= results@.len(),
            crate::capabilities::updates::backend::candidates(found@) == answered(
                results@.subrange(0, i as int),
                foreign_views(foreign@),
            ),
        decreases results@.len() - i,
    {
        let ghost before = found@;
        assert(results@.subrange(0, i + 1).drop_last() =~= results@.subrange(0, i as int));
        if let Some(version) = installed_version(foreign, results[i].name.as_str()) {
            let next = UpdateCandidate {
                name: results[i].name.clone(),
                old_version: version.to_owned(),
                new_version: results[i].version.clone(),
                download_size: 0,
                installed_size: 0,
                repository: "aur".to_owned(),
            };
            let ghost seen = next@;
            found.push(next);
            assert(crate::capabilities::updates::backend::candidates(found@)
                =~= crate::capabilities::updates::backend::candidates(before).push(seen));
        }
        i += 1;
    }
    assert(results@.subrange(0, i as int) =~= results@);
    Ok(found)
}

/// Whitespace as a byte.
pub open spec fn is_blank(byte: u8) -> bool {
    byte == 0x20 || byte == 0x09 || byte == 0x0a || byte == 0x0c || byte == 0x0d
}

/// Whether an output says `1`, whitespace around it aside.
pub open spec fn says_one(output: Seq<u8>) -> bool {
    exists|i: int|
        0 <= i < output.len() && output[i] == 0x31 && (forall|j: int|
            0 <= j < output.len() && j != i ==> is_blank(#[trigger] output[j]))
}

fn reads_one(output: &Vec<u8>) -> (one: bool)
    ensures
        one == says_one(output@),
{
    let mut at: Option<usize> = None;
    let mut i: usize = 0;
    while i < output.len()
        invariant
            i <= output@.len(),
            match at {
                None => forall|j: int| 0 <= j < i ==> is_blank(#[trigger] output@[j]),
                Some(k) => k < i && output@[k as int] == 0x31 && (forall|j: int|
                    0 <= j < i && j != k ==> is_blank(#[trigger] output@[j])),
            },
        decreases output@.len() - i,
    {
        let byte = output[i];
        let blank = byte == 0x20 || byte == 0x09 || byte == 0x0a || byte == 0x0c || byte == 0x0d;
        if !blank {
            assert(!is_blank(output@[i as int]));
            if byte != 0x31 || at.is_some() {
                return false;
            }
            at = Some(i);
        }
        i += 1;
    }
    at.is_some()
}

/// Whether the AUR's version is newer than the installed one. `verdict` is what pacman's own `vercmp`
/// printed for the two, so an epoch or pkgrel orders exactly as an upgrade will; `None` when it did
/// not run.
pub fn newer(offered: &str, installed: &str, verdict: &Option<Vec<u8>>) -> (newer: bool)
    ensures
        newer == (offered@ != installed@ && (verdict matches Some(output) && says_one(output@))),
{
    if text::same(offered, installed) {
        return false;
    }
    match verdict {
        Some(output) => reads_one(output),
        None => false,
    }
}

/// The candidates whose version is newer; `verdicts` holds what `vercmp` printed for each.
pub open spec fn upgrades(found: Seq<CandidateView>, verdicts: Seq<Option<Vec<u8>>>) -> Seq<CandidateView>
    decreases found.len(),
{
    if found.len() == 0 {
        Seq::empty()
    } else {
        let before = upgrades(found.drop_last(), verdicts.drop_last());
        let last = found.last();
        if last.new_version != last.old_version && (verdicts.last() matches Some(output) && says_one(output@)) {
            before.push(last)
        } else {
            before
        }
    }
}

pub fn newer_only(found: Vec<UpdateCandidate>, verdicts: &Vec<Option<Vec<u8>>>) -> (kept: Vec<UpdateCandidate>)
    requires
        found@.len() == verdicts@.len(),
    ensures
        crate::capabilities::updates::backend::candidates(kept@) == upgrades(
            crate::capabilities::updates::backend::candidates(found@),
            verdicts@,
        ),
{
    let ghost all = found@;
    let ghost views = crate::capabilities::updates::backend::candidates(all);
    let mut rest = found;
    let mut kept: Vec<UpdateCandidate> = Vec::new();
    let mut i: usize = 0;
    assert(all.subrange(0, all.len() as int) =~= all);
    assert(views.subrange(0, 0) =~= Seq::<CandidateView>::empty());
    assert(crate::capabilities::updates::backend::candidates(kept@) =~= Seq::<CandidateView>::empty());
    while i < verdicts.len()
        invariant
            i <= verdicts@.len() == all.len(),
            rest@ == all.subrange(i as int, all.len() as int),
            views == crate::capabilities::updates::backend::candidates(all),
            crate::capabilities::updates::backend::candidates(kept@) == upgrades(
                views.subrange(0, i as int),
                verdicts@.subrange(0, i as int),
            ),
        decreases verdicts@.len() - i,
    {
        let ghost before = kept@;
        let next = rest.remove(0);
        assert(next@ == views[i as int]);
        assert(views.subrange(0, i + 1).drop_last() =~= views.subrange(0, i as int));
        assert(verdicts@.subrange(0, i + 1).drop_last() =~= verdicts@.subrange(0, i as int));
        assert(rest@ =~= all.subrange(i + 1, all.len() as int));
        if newer(next.new_version.as_str(), next.old_version.as_str(), &verdicts[i]) {
            let ghost seen = next@;
            kept.push(next);
            assert(crate::capabilities::updates::backend::candidates(kept@)
                =~= crate::capabilities::updates::backend::candidates(before).push(seen));
        }
        i += 1;
    }
    assert(views.subrange(0, i as int) =~= views);
    assert(verdicts@.subrange(0, i as int) =~= verdicts@);
    kept
}

// ---- laws ----

/// A helper upgrades everything, asks nothing and gets its rights from `pkexec`; `yay` and the others
/// are told in their own words not to renew them.
pub proof fn a_helper_asks_nothing(helper: Seq<char>)
    ensures
        helper == "yay"@ ==> helper_arguments(helper) == seq![
            "-Syu"@,
            "--noconfirm"@,
            "--sudo"@,
            "pkexec"@,
            "--sudoloop=false"@,
        ],
        helper != "yay"@ ==> helper_arguments(helper) == seq![
            "-Syu"@,
            "--noconfirm"@,
            "--sudo"@,
            "pkexec"@,
            "--nosudoloop"@,
        ],
{
}

/// One request asks for every package by its name, in the packages' order.
pub proof fn every_package_is_asked_for(names: Seq<(Seq<char>, Seq<char>)>, i: int)
    ensures
        fields(names).len() == 2 * names.len(),
        0 <= i < names.len() ==> fields(names)[2 * i] == "--data-urlencode"@ && fields(names)[2 * i + 1] == "arg[]="@
            + names[i].0,
        fixed_arguments() == seq![
            "--silent"@,
            "--show-error"@,
            "--fail"@,
            "--max-time"@,
            "30"@,
            "https://aur.archlinux.org/rpc/v5/info"@,
        ],
    decreases names.len(),
{
    if names.len() > 0 {
        every_package_is_asked_for(names.drop_last(), i);
        if 0 <= i < names.len() - 1 {
            assert(names.drop_last()[i] == names[i]);
        }
    }
}

/// A package's installed version is the one it was listed with last.
pub proof fn an_installed_version_is_the_last_listed(foreign: Seq<(Seq<char>, Seq<char>)>, name: Seq<char>, i: int)
    ensures
        (forall|j: int| 0 <= j < foreign.len() ==> (#[trigger] foreign[j]).0 != name) ==> installed(foreign, name) is None,
        0 <= i < foreign.len() && foreign[i].0 == name && (forall|j: int|
            i < j < foreign.len() ==> (#[trigger] foreign[j]).0 != name) ==> installed(foreign, name) == Some(
            foreign[i].1,
        ),
    decreases foreign.len(),
{
    if foreign.len() > 0 {
        an_installed_version_is_the_last_listed(foreign.drop_last(), name, i);
        assert(forall|j: int| 0 <= j < foreign.len() - 1 ==> foreign.drop_last()[j] == #[trigger] foreign[j]);
        assert(foreign.last() == foreign[foreign.len() - 1]);
    }
}

/// Every answer for an installed package is an offer: from the installed version to the answered one,
/// of the AUR and of no known size. They keep their order. Returns where they stand.
pub proof fn every_installed_answer_is_an_offer(results: Seq<Info>, foreign: Seq<(Seq<char>, Seq<char>)>) -> (at: Seq<int>)
    ensures
        at.len() == answered(results, foreign).len(),
        forall|i: int| 0 <= i < at.len() ==> 0 <= #[trigger] at[i] < results.len() && (installed(foreign, results[at[i]].name@) is Some),
        forall|i: int| 0 <= i < at.len() ==> (answered(results, foreign)[i].name == results[#[trigger] at[i]].name@ && Some(answered(results, foreign)[i].old_version) == installed(foreign, results[at[i]].name@) && answered(results, foreign)[i].new_version == results[at[i]].version@ && answered(results, foreign)[i].download_size == 0 && answered(results, foreign)[i].installed_size == 0 && answered(results, foreign)[i].repository == "aur"@),
        forall|i: int, j: int| 0 <= i < j < at.len() ==> #[trigger] at[i] < #[trigger] at[j],
        forall|p: int| 0 <= p < results.len() && (installed(foreign, (#[trigger] results[p]).name@) is Some) ==> at.contains(p),
    decreases results.len(),
{
    if results.len() == 0 {
        Seq::empty()
    } else {
        let shorter = results.drop_last();
        let n = results.len() - 1;
        let before = every_installed_answer_is_an_offer(results.drop_last(), foreign);
        assert forall|p: int| 0 <= p < n implies shorter[p] == #[trigger] results[p] by {}
        if installed(foreign, results.last().name@) is Some {
            let at = before.push(n);
            assert forall|p: int| 0 <= p < results.len() && (installed(foreign, (#[trigger] results[p]).name@) is Some) implies at.contains(p) by {
                if p < n {
                    assert(shorter[p] == results[p]);
                    let k = choose|k: int| 0 <= k < before.len() && before[k] == p;
                    assert(at[k] == p);
                } else {
                    assert(at[before.len() as int] == p);
                }
            }
            at
        } else {
            assert forall|p: int| 0 <= p < results.len() && (installed(foreign, (#[trigger] results[p]).name@) is Some) implies before.contains(
                p,
            ) by {
                assert(p < n);
                assert(shorter[p] == results[p]);
            }
            before
        }
    }
}

/// A verdict is that of a newer version where it is the digit one with nothing but blanks around it.
pub proof fn a_newer_version_is_answered_with_one(before: Seq<u8>, after: Seq<u8>, output: Seq<u8>, i: int, j: int)
    ensures
        (forall|k: int| 0 <= k < before.len() ==> is_blank(#[trigger] before[k])) && (forall|k: int|
            0 <= k < after.len() ==> is_blank(#[trigger] after[k])) ==> says_one(before + seq![0x31u8] + after),
        0 <= i < output.len() && output[i] != 0x31 && output[i] != 0x20 && output[i] != 0x09 && output[i] != 0x0a
            && output[i] != 0x0c && output[i] != 0x0d ==> !says_one(output),
        0 <= i < j < output.len() && output[i] == 0x31 && output[j] == 0x31 ==> !says_one(output),
        !output.contains(0x31u8) ==> !says_one(output),
        is_blank(0x20) && is_blank(0x09) && is_blank(0x0a) && is_blank(0x0c) && is_blank(0x0d),
{
    if (forall|k: int| 0 <= k < before.len() ==> is_blank(#[trigger] before[k])) && (forall|k: int|
        0 <= k < after.len() ==> is_blank(#[trigger] after[k])) {
        let whole = before + seq![0x31u8] + after;
        let n = before.len() as int;
        assert(whole[n] == 0x31);
        assert forall|k: int| 0 <= k < whole.len() && k != n implies is_blank(#[trigger] whole[k]) by {
            if k < n {
                assert(whole[k] == before[k]);
            } else {
                assert(whole[k] == after[k - n - 1]);
            }
        }
    }
}

/// Those kept are the offers of another version that is found newer, all of them and in their order.
/// Returns where they stand.
pub proof fn only_newer_ones_are_upgrades(found: Seq<CandidateView>, verdicts: Seq<Option<Vec<u8>>>) -> (at: Seq<int>)
    requires
        found.len() == verdicts.len(),
    ensures
        at.len() == upgrades(found, verdicts).len(),
        forall|i: int| 0 <= i < at.len() ==> 0 <= #[trigger] at[i] < found.len() && (found[at[i]].new_version != found[at[i]].old_version && (verdicts[at[i]] matches Some(output) && says_one(output@))),
        forall|i: int| 0 <= i < at.len() ==> (upgrades(found, verdicts)[i] == found[#[trigger] at[i]]),
        forall|i: int, j: int| 0 <= i < j < at.len() ==> #[trigger] at[i] < #[trigger] at[j],
        forall|p: int| 0 <= p < found.len() && ((#[trigger] found[p]).new_version != (found[p]).old_version && ((verdicts[p]) matches Some(output) && says_one(output@))) ==> at.contains(p),
    decreases found.len(),
{
    if found.len() == 0 {
        Seq::empty()
    } else {
        let shorter = found.drop_last();
        let n = found.len() - 1;
        let earlier = verdicts.drop_last();
        assert forall|p: int| 0 <= p < n implies earlier[p] == #[trigger] verdicts[p] by {}
        let before = only_newer_ones_are_upgrades(found.drop_last(), verdicts.drop_last());
        assert forall|p: int| 0 <= p < n implies shorter[p] == #[trigger] found[p] by {}
        if found.last().new_version != found.last().old_version && (verdicts.last() matches Some(output) && says_one(output@)) {
            let at = before.push(n);
            assert forall|p: int| 0 <= p < found.len() && ((#[trigger] found[p]).new_version != (found[p]).old_version && ((verdicts[p]) matches Some(output) && says_one(output@))) implies at.contains(p) by {
                if p < n {
                    assert(shorter[p] == found[p] && earlier[p] == verdicts[p]);
                    let k = choose|k: int| 0 <= k < before.len() && before[k] == p;
                    assert(at[k] == p);
                } else {
                    assert(at[before.len() as int] == p);
                }
            }
            at
        } else {
            assert forall|p: int| 0 <= p < found.len() && ((#[trigger] found[p]).new_version != (found[p]).old_version && ((verdicts[p]) matches Some(output) && says_one(output@))) implies before.contains(
                p,
            ) by {
                assert(p < n);
                assert(shorter[p] == found[p] && earlier[p] == verdicts[p]);
            }
            before
        }
    }
}

} // verus!
