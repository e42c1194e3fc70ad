//! Repo half of the pacman check. `curl` refreshes each repo db into a user-owned db root, since
//! `pacman -Sy` refuses a non-root user; `pacman` reads that root.

use vstd::prelude::*;

use super::aur::ForeignPackage;
use crate::capabilities::updates::backend::{warnings, Output, Ran, UpdateCandidate};
use crate::path;
use crate::text;

verus! {

/// Each foreign package's installed name and version: in no synced repo.
pub type Foreign = Vec<ForeignPackage>;

/// A stderr line that is more than a warning.
pub open spec fn is_complaint(line: Seq<char>) -> bool {
    text::trim(line).len() > 0 && !text::starts_with(line, "warning:"@)
}

/// Whether a run that ended so failed.
pub open spec fn run_failed(code: Option<i32>, stderr: Seq<char>) -> bool {
    match code {
        Some(code) => if code == 0 {
            false
        } else if code == 1 {
            exists|i: int| 0 <= i < text::lines(stderr).len() && is_complaint(#[trigger] text::lines(stderr)[i])
        } else {
            true
        },
        None => true,
    }
}

/// Whether a run failed. A query that matches nothing exits 1, so exit 1 fails only on a stderr line
/// that is not a `warning:`, such as a `pacman.conf` that fails to parse.
pub fn failed(code: Option<i32>, stderr: &str) -> (failed: bool)
    ensures
        failed == run_failed(code, stderr@),
{
    let exit = match code {
        Some(exit) => exit,
        None => return true,
    };
    if exit == 0 {
        return false;
    }
    if exit != 1 {
        return true;
    }
    let lines = text::str_lines(stderr);
    let mut i: usize = 0;
    while i < lines.len()
        invariant
            i <= lines@.len(),
            code == Some(1i32),
            text::texts(lines@) == text::lines(stderr@),
            forall|j: int| 0 <= j < i ==> !is_complaint(#[trigger] text::lines(stderr@)[j]),
        decreases lines@.len() - i,
    {
        assert(text::lines(stderr@)[i as int] == lines@[i as int]@);
        if !text::str_trim(lines[i]).is_empty() && !text::str_starts_with(lines[i], "warning:") {
            assert(is_complaint(text::lines(stderr@)[i as int]));
            return true;
        }
        i += 1;
    }
    assert(text::lines(stderr@).len() == lines@.len());
    false
}

/// What a run of `program` gave, or why it failed.
pub fn run(program: &str, output: Result<Output, String>) -> (ran: Result<Ran, String>)
    ensures
        match output {
            Err(reason) => ran matches Err(message) && message@ == "failed to run "@ + program@ + ": "@ + reason@,
            Ok(output) => if run_failed(output.code, output.stderr@) {
                ran matches Err(message) && message@ == program@ + " failed: "@ + text::trim(output.stderr@)
            } else {
                ran matches Ok(ran) && ran.stdout@ == output.stdout@ && text::strings(ran.warnings@)
                    == crate::capabilities::updates::backend::said(text::lines(output.stderr@))
            },
        },
{
    let output = match output {
        Ok(output) => output,
        Err(reason) => return Err(
            "failed to run ".to_owned().concat(program).concat(": ").concat(reason.as_str()),
        ),
    };
    if failed(output.code, output.stderr.as_str()) {
        let detail = text::str_trim(output.stderr.as_str());
        return Err(program.to_owned().concat(" failed: ").concat(detail));
    }
    let warnings = warnings(output.stderr.as_str());
    Ok(Ran { stdout: output.stdout, warnings })
}

/// `pacman`'s arguments against a db root of its own.
pub fn pacman(conf: &str, db_path: &str, query: &Vec<String>) -> (arguments: Vec<String>)
    ensures
        text::strings(arguments@) == seq!["--config"@, conf@, "--dbpath"@, db_path@, "--color"@, "never"@]
            + text::strings(query@),
{
    let mut arguments: Vec<String> = Vec::new();
    arguments.push("--config".to_owned());
    arguments.push(conf.to_owned());
    arguments.push("--dbpath".to_owned());
    arguments.push(db_path.to_owned());
    arguments.push("--color".to_owned());
    arguments.push("never".to_owned());
    let mut i: usize = 0;
    while i < query.len()
        invariant
            i <= query@.len(),
            arguments@.len() == 6 + i,
            arguments@[0]@ == "--config"@,
            arguments@[1]@ == conf@,
            arguments@[2]@ == "--dbpath"@,
            arguments@[3]@ == db_path@,
            arguments@[4]@ == "--color"@,
            arguments@[5]@ == "never"@,
            forall|j: int| 6 <= j < 6 + i ==> (#[trigger] arguments@[j])@ == query@[j - 6]@,
        decreases query@.len() - i,
    {
        arguments.push(query[i].clone());
        i += 1;
    }
    assert(text::strings(arguments@) =~= seq!["--config"@, conf@, "--dbpath"@, db_path@, "--color"@, "never"@]
        + text::strings(query@));
    arguments
}

/// What asks `pacman-conf` for the repos.
pub fn repos_query(conf: &str) -> (arguments: Vec<String>)
    ensures
        text::strings(arguments@) == seq!["--config"@, conf@, "--repo-list"@],
{
    let mut arguments: Vec<String> = Vec::new();
    arguments.push("--config".to_owned());
    arguments.push(conf.to_owned());
    arguments.push("--repo-list".to_owned());
    assert(text::strings(arguments@) =~= seq!["--config"@, conf@, "--repo-list"@]);
    arguments
}

/// What asks `pacman-conf` for a repo's mirrors, which it expands.
pub fn servers_query(conf: &str, repo: &str) -> (arguments: Vec<String>)
    ensures
        text::strings(arguments@) == seq!["--config"@, conf@, "--repo"@, repo@, "Server"@],
{
    let mut arguments: Vec<String> = Vec::new();
    arguments.push("--config".to_owned());
    arguments.push(conf.to_owned());
    arguments.push("--repo".to_owned());
    arguments.push(repo.to_owned());
    arguments.push("Server".to_owned());
    assert(text::strings(arguments@) =~= seq!["--config"@, conf@, "--repo"@, repo@, "Server"@]);
    arguments
}

/// The repos to sync, a line each.
pub fn repo_list(stdout: &str, conf: &str) -> (repos: Result<Vec<String>, String>)
    ensures
        if text::trim(stdout@).len() == 0 {
            repos matches Err(message) && message@ == "no repos configured in "@ + conf@
        } else {
            repos matches Ok(list) && text::strings(list@) == text::lines(stdout@)
        },
{
    if text::str_trim(stdout).is_empty() {
        Err("no repos configured in ".to_owned().concat(conf))
    } else {
        Ok(text::owned(&text::str_lines(stdout)))
    }
}

/// How one mirror answered.
#[derive(Debug, Clone, PartialEq, Eq)]
pub enum Attempt {
    /// `curl` did not run.
    NotRun(String),
    /// `curl` failed, saying this.
    Refused(String),
    /// `curl` wrote a new db.
    Downloaded,
    /// `curl` succeeded and wrote nothing: a 304, or an unmet time condition it reports as success.
    Unchanged,
}

/// What to do about a repo's db next.
#[derive(Debug, Clone, PartialEq, Eq)]
pub enum FetchStep {
    /// Ask the mirror of this number.
    Download(usize),
    /// Swap the download in; a killed download leaves only the part file.
    Store,
    /// The db is current.
    Keep,
    Fail(String),
}

/// The next step for a repo with `servers` mirrors, after the attempts so far: each mirror in order
/// until one answers.
pub fn fetch_db(repo: &str, servers: usize, attempts: &Vec<Attempt>) -> (step: FetchStep)
    requires
        attempts@.len() <= servers,
    ensures
        if attempts@.len() == 0 {
            if servers == 0 {
                step matches FetchStep::Fail(message) && message@ == "failed to sync "@ + repo@ + ": "@
                    + "no Server configured"@
            } else {
                step == FetchStep::Download(0)
            }
        } else {
            match attempts@.last() {
                Attempt::NotRun(reason) => step matches FetchStep::Fail(message) && message@
                    == "failed to run curl: "@ + reason@,
                Attempt::Refused(stderr) => if attempts@.len() < servers {
                    step == FetchStep::Download(attempts@.len() as usize)
                } else {
                    step matches FetchStep::Fail(message) && message@ == "failed to sync "@ + repo@ + ": "@
                        + text::trim(stderr@)
                },
                Attempt::Downloaded => step == FetchStep::Store,
                Attempt::Unchanged => step == FetchStep::Keep,
            }
        },
{
    let n: usize = attempts.len();
    let mut failure = "no Server configured";
    if n > 0 {
        match &attempts[n - 1] {
            Attempt::NotRun(reason) => return FetchStep::Fail(
                "failed to run curl: ".to_owned().concat(reason.as_str()),
            ),
            Attempt::Refused(stderr) => {
                failure = text::str_trim(stderr.as_str());
            },
            Attempt::Downloaded => return FetchStep::Store,
            Attempt::Unchanged => return FetchStep::Keep,
        }
    }
    if n < servers {
        return FetchStep::Download(n);
    }
    FetchStep::Fail("failed to sync ".to_owned().concat(repo).concat(": ").concat(failure))
}

/// The db of a repo in a sync directory, and its part file.
pub fn db_paths(sync_dir: &str, repo: &str) -> (paths: (String, String))
    ensures
        paths.0@ == path::joined(sync_dir@, repo@ + ".db"@),
        paths.1@ == path::joined(sync_dir@, repo@ + ".db.part"@),
{
    let db = repo.to_owned().concat(".db");
    let part = repo.to_owned().concat(".db.part");
    (path::join(sync_dir, db.as_str()), path::join(sync_dir, part.as_str()))
}

/// The `curl` arguments that fetch a repo's db from a mirror. Timeouts match libalpm's; a db that is
/// there already is fetched only if the mirror's is newer.
pub open spec fn curl_arguments(
    server: Seq<char>,
    repo: Seq<char>,
    part: Seq<char>,
    known: Option<Seq<char>>,
) -> Seq<Seq<char>> {
    seq![
        "--silent"@,
        "--show-error"@,
        "--fail"@,
        "--location"@,
        "--remote-time"@,
        "--connect-timeout"@,
        "10"@,
        "--speed-limit"@,
        "1"@,
        "--speed-time"@,
        "10"@,
        "--output"@,
        part,
    ] + (match known {
        Some(db) => seq!["--time-cond"@, db],
        None => Seq::empty(),
    }) + seq![server + "/"@ + repo + ".db"@]
}

pub fn fetch_arguments(server: &str, repo: &str, part: &str, known: Option<&str>) -> (arguments: Vec<String>)
    ensures
        text::strings(arguments@) == curl_arguments(server@, repo@, part@, text::optional_str(known)),
{
    let mut list: Vec<String> = Vec::new();
    list.push("--silent".to_owned());
    list.push("--show-error".to_owned());
    list.push("--fail".to_owned());
    list.push("--location".to_owned());
    list.push("--remote-time".to_owned());
    list.push("--connect-timeout".to_owned());
    list.push("10".to_owned());
    list.push("--speed-limit".to_owned());
    list.push("1".to_owned());
    list.push("--speed-time".to_owned());
    list.push("10".to_owned());
    list.push("--output".to_owned());
    list.push(part.to_owned());
    if let Some(db) = known {
        list.push("--time-cond".to_owned());
        list.push(db.to_owned());
    }
    list.push(server.to_owned().concat("/").concat(repo).concat(".db"));
    assert(text::strings(list@) =~= curl_arguments(server@, repo@, part@, text::optional_str(known)));
    list
}

/// A package with its installed and offered versions.
pub type Upgrade = (String, String, String);

pub open spec fn upgrade_views(list: Seq<Upgrade>) -> Seq<(Seq<char>, Seq<char>, Seq<char>)> {
    Seq::new(list.len(), |i: int| (list[i].0@, list[i].1@, list[i].2@))
}

/// `name old -> new`. An `[ignored]` package is left out: an upgrade will not take it.
pub open spec fn upgrade_of(line: Seq<char>) -> Option<(Seq<char>, Seq<char>, Seq<char>)> {
    let words = text::words(line);
    if !text::ends_with(line, "[ignored]"@) && words.len() == 4 && words[2] == "->"@ {
        Some((words[0], words[1], words[3]))
    } else {
        None
    }
}

pub open spec fn upgrades_in(lines: Seq<Seq<char>>) -> Seq<(Seq<char>, Seq<char>, Seq<char>)>
    decreases lines.len(),
{
    if lines.len() == 0 {
        Seq::empty()
    } else {
        match upgrade_of(lines.last()) {
            Some(next) => upgrades_in(lines.drop_last()).push(next),
            None => upgrades_in(lines.drop_last()),
        }
    }
}

fn parse_upgrade(line: &str) -> (out: Option<Upgrade>)
    ensures
        upgrade_of(line@) == (match out {
            Some((name, old_version, new_version)) => Some((name@, old_version@, new_version@)),
            None => None,
        }),
{
    let words = text::str_words(line);
    assert(text::texts(words@).len() == words@.len());
    if text::str_ends_with(line, "[ignored]") || words.len() != 4 {
        return None;
    }
    assert(text::texts(words@)[0] == words@[0]@ && text::texts(words@)[1] == words@[1]@ && text::texts(words@)[2]
        == words@[2]@ && text::texts(words@)[3] == words@[3]@);
    if text::same(words[2], "->") {
        Some((words[0].to_owned(), words[1].to_owned(), words[3].to_owned()))
    } else {
        None
    }
}

/// `-Qu`'s `name old -> new` lines.
pub fn parse_upgrades(text: &str) -> (upgrades: Vec<Upgrade>)
    ensures
        upgrade_views(upgrades@) == upgrades_in(text::lines(text@)),
{
    let all = text::str_lines(text);
    let ghost views = text::texts(all@);
    let mut out: Vec<Upgrade> = Vec::new();
    let mut i: usize = 0;
    assert(views.subrange(0, 0) =~= Seq::<Seq<char>>::empty());
    assert(upgrade_views(out@) =~= Seq::<(Seq<char>, Seq<char>, Seq<char>)>::empty());
    while i < all.len()
        invariant
            i <= all@.len(),
            views == text::texts(all@),
            upgrade_views(out@) == upgrades_in(views.subrange(0, i as int)),
        decreases all@.len() - i,
    {
        let ghost before = out@;
        assert(views.subrange(0, i + 1).drop_last() =~= views.subrange(0, i as int));
        assert(views.subrange(0, i + 1).last() == all@[i as int]@);
        if let Some(next) = parse_upgrade(all[i]) {
            out.push(next);
            assert(upgrade_views(out@) =~= upgrade_views(before).push((next.0@, next.1@, next.2@)));
        }
        i += 1;
    }
    assert(views.subrange(0, i as int) =~= views);
    out
}

/// The foreign packages of `-Qm`'s `name version` lines.
pub open spec fn foreign_in(lines: Seq<Seq<char>>) -> Seq<(Seq<char>, Seq<char>)>
    decreases lines.len(),
{
    if lines.len() == 0 {
        Seq::empty()
    } else {
        match text::split_once(lines.last(), " "@) {
            Some(package) => foreign_in(lines.drop_last()).push(package),
            None => foreign_in(lines.drop_last()),
        }
    }
}

/// The installed packages no synced repo carries.
pub fn foreign(stdout: &str) -> (packages: Foreign)
    ensures
        super::aur::foreign_views(packages@) == foreign_in(text::lines(stdout@)),
{
    let all = text::str_lines(stdout);
    let ghost views = text::texts(all@);
    let mut out: Foreign = Vec::new();
    let mut i: usize = 0;
    assert(views.subrange(0, 0) =~= Seq::<Seq<char>>::empty());
    assert(super::aur::foreign_views(out@) =~= Seq::<(Seq<char>, Seq<char>)>::empty());
    while i < all.len()
        invariant
            i <= all@.len(),
            views == text::texts(all@),
            super::aur::foreign_views(out@) == foreign_in(views.subrange(0, i as int)),
        decreases all@.len() - i,
    {
        let ghost before = out@;
        assert(views.subrange(0, i + 1).drop_last() =~= views.subrange(0, i as int));
        assert(views.subrange(0, i + 1).last() == all@[i as int]@);
        if let Some((name, version)) = text::str_split_once(all[i], " ") {
            out.push((name.to_owned(), version.to_owned()));
            assert(super::aur::foreign_views(out@) =~= super::aur::foreign_views(before).push((name@, version@)));
        }
        i += 1;
    }
    assert(views.subrange(0, i as int) =~= views);
    out
}

/// A name and its download bytes.
pub type Download = (String, i64);

pub open spec fn download_views(list: Seq<Download>) -> Seq<(Seq<char>, i64)> {
    Seq::new(list.len(), |i: int| (list[i].0@, list[i].1))
}

/// The lines that name a package and its size.
pub open spec fn downloads_in(lines: Seq<Seq<char>>) -> Seq<(Seq<char>, i64)>
    decreases lines.len(),
{
    if lines.len() == 0 {
        Seq::empty()
    } else {
        let before = downloads_in(lines.drop_last());
        match text::split_once(lines.last(), " "@) {
            None => before,
            Some((name, size)) => match text::parse_signed(size) {
                Some(bytes) => before.push((name, bytes as i64)),
                None => before,
            },
        }
    }
}

/// The bytes of a package; the last entry of a name counts.
pub open spec fn download_in(list: Seq<(Seq<char>, i64)>, name: Seq<char>) -> Option<i64>
    decreases list.len(),
{
    if list.len() == 0 {
        None
    } else if list.last().0 == name {
        Some(list.last().1)
    } else {
        download_in(list.drop_last(), name)
    }
}

/// `--print-format '%n %s'` lines: name and download bytes.
pub fn parse_downloads(text: &str) -> (downloads: Vec<Download>)
    ensures
        download_views(downloads@) == downloads_in(text::lines(text@)),
{
    let all = text::str_lines(text);
    let ghost views = text::texts(all@);
    let mut out: Vec<Download> = Vec::new();
    let mut i: usize = 0;
    assert(views.subrange(0, 0) =~= Seq::<Seq<char>>::empty());
    assert(download_views(out@) =~= Seq::<(Seq<char>, i64)>::empty());
    while i < all.len()
        invariant
            i <= all@.len(),
            views == text::texts(all@),
            download_views(out@) == downloads_in(views.subrange(0, i as int)),
        decreases all@.len() - i,
    {
        let ghost before = out@;
        assert(views.subrange(0, i + 1).drop_last() =~= views.subrange(0, i as int));
        assert(views.subrange(0, i + 1).last() == all@[i as int]@);
        if let Some((name, size)) = text::str_split_once(all[i], " ") {
            if let Some(bytes) = text::str_parse_i64(size) {
                out.push((name.to_owned(), bytes));
                assert(download_views(out@) =~= download_views(before).push((name@, bytes)));
            }
        }
        i += 1;
    }
    assert(views.subrange(0, i as int) =~= views);
    out
}

pub fn download_of(downloads: &Vec<Download>, name: &str) -> (bytes: Option<i64>)
    ensures
        bytes == download_in(download_views(downloads@), name@),
{
    let ghost views = download_views(downloads@);
    let mut i: usize = downloads.len();
    assert(views.subrange(0, i as int) =~= views);
    while i > 0
        invariant
            i <= downloads@.len(),
            views == download_views(downloads@),
            download_in(views.subrange(0, i as int), name@) == download_in(views, name@),
        decreases i,
    {
        assert(views.subrange(0, i as int).drop_last() =~= views.subrange(0, i - 1));
        assert(views.subrange(0, i as int).last() == views[i - 1]);
        if text::same(downloads[i - 1].0.as_str(), name) {
            return Some(downloads[i - 1].1);
        }
        i -= 1;
    }
    None
}

/// A printed size, such as `9820.16 KiB`: the number as printed, and the power of 1024 its unit is.
#[derive(Debug, Clone, PartialEq, Eq)]
pub struct PrintedSize {
    pub value: String,
    pub power: u32,
}

pub open spec fn unit_power(unit: Seq<char>) -> Option<u32> {
    if unit == "B"@ {
        Some(0)
    } else if unit == "KiB"@ {
        Some(1)
    } else if unit == "MiB"@ {
        Some(2)
    } else if unit == "GiB"@ {
        Some(3)
    } else if unit == "TiB"@ {
        Some(4)
    } else {
        None
    }
}

pub open spec fn size_in(text: Seq<char>) -> Option<(Seq<char>, u32)> {
    match text::split_once(text, " "@) {
        None => None,
        Some((value, unit)) => match unit_power(unit) {
            Some(power) => Some((value, power)),
            None => None,
        },
    }
}

pub open spec fn size_view(size: Option<PrintedSize>) -> Option<(Seq<char>, u32)> {
    match size {
        Some(size) => Some((size.value@, size.power)),
        None => None,
    }
}

/// pacman's `9820.16 KiB` or `50.66 MiB`: two decimals, so up to ~5 KiB off at MiB.
pub fn size_parts(text: &str) -> (size: Option<PrintedSize>)
    ensures
        size_view(size) == size_in(text@),
{
    let (value, unit) = match text::str_split_once(text, " ") {
        Some(halves) => halves,
        None => return None,
    };
    let power: u32 = if text::same(unit, "B") {
        0
    } else if text::same(unit, "KiB") {
        1
    } else if text::same(unit, "MiB") {
        2
    } else if text::same(unit, "GiB") {
        3
    } else if text::same(unit, "TiB") {
        4
    } else {
        return None;
    };
    Some(PrintedSize { value: value.to_owned(), power })
}

/// What `-Si` says of a package.
#[derive(Debug, Clone, PartialEq, Eq)]
pub struct PackageInfo {
    pub name: String,
    pub repository: String,
    pub installed_size: Option<PrintedSize>,
}

pub struct InfoView {
    pub name: Seq<char>,
    pub repository: Seq<char>,
    pub installed_size: Option<(Seq<char>, u32)>,
}

impl View for PackageInfo {
    type V = InfoView;

    open spec fn view(&self) -> InfoView {
        InfoView {
            name: self.name@,
            repository: self.repository@,
            installed_size: size_view(self.installed_size),
        }
    }
}

pub open spec fn info_views(list: Seq<PackageInfo>) -> Seq<InfoView> {
    Seq::new(list.len(), |i: int| list[i]@)
}

/// The value of the first line, from one on, that gives a key one.
pub open spec fn field_from(lines: Seq<Seq<char>>, key: Seq<char>, from: int) -> Option<Seq<char>>
    decreases lines.len() - from,
{
    if from < 0 || from >= lines.len() {
        None
    } else {
        match text::split_once(lines[from], " : "@) {
            Some((name, value)) if text::trim_end(name) == key => Some(text::trim(value)),
            _ => field_from(lines, key, from + 1),
        }
    }
}

pub open spec fn field(block: Seq<char>, key: Seq<char>) -> Option<Seq<char>> {
    field_from(text::lines(block), key, 0)
}

fn block_field<'a>(block: &'a str, key: &str) -> (value: Option<&'a str>)
    ensures
        text::optional_str(value) == field(block@, key@),
{
    let lines = text::str_lines(block);
    let ghost views = text::texts(lines@);
    let mut i: usize = 0;
    while i < lines.len()
        invariant
            i <= lines@.len(),
            views == text::texts(lines@),
            views == text::lines(block@),
            field_from(views, key@, i as int) == field_from(views, key@, 0),
        decreases lines@.len() - i,
    {
        assert(views[i as int] == lines@[i as int]@);
        if let Some((name, value)) = text::str_split_once(lines[i], " : ") {
            if text::same(text::str_trim_end(name), key) {
                return Some(text::str_trim(value));
            }
        }
        i += 1;
    }
    assert(views.len() == lines@.len());
    None
}

/// A block that names a package and its repository.
pub open spec fn info_of(block: Seq<char>) -> Option<InfoView> {
    match (field(block, "Repository"@), field(block, "Name"@)) {
        (Some(repository), Some(name)) => Some(
            InfoView {
                name,
                repository,
                installed_size: match field(block, "Installed Size"@) {
                    Some(size) => size_in(size),
                    None => None,
                },
            },
        ),
        _ => None,
    }
}

pub open spec fn names_package(list: Seq<InfoView>, name: Seq<char>) -> bool {
    exists|i: int| 0 <= i < list.len() && (#[trigger] list[i]).name == name
}

/// The packages of blocks. A name in several repos keeps the first, the one an install takes.
pub open spec fn infos_in(blocks: Seq<Seq<char>>) -> Seq<InfoView>
    decreases blocks.len(),
{
    if blocks.len() == 0 {
        Seq::empty()
    } else {
        let before = infos_in(blocks.drop_last());
        match info_of(blocks.last()) {
            Some(next) if !names_package(before, next.name) => before.push(next),
            _ => before,
        }
    }
}

fn parse_block(block: &str) -> (info: Option<PackageInfo>)
    ensures
        info_of(block@) == (match info {
            Some(info) => Some(info@),
            None => None,
        }),
{
    match (block_field(block, "Repository"), block_field(block, "Name")) {
        (Some(repository), Some(name)) => {
            let installed_size = match block_field(block, "Installed Size") {
                Some(size) => size_parts(size),
                None => None,
            };
            Some(PackageInfo { name: name.to_owned(), repository: repository.to_owned(), installed_size })
        },
        _ => None,
    }
}

fn find_info<'a>(list: &'a Vec<PackageInfo>, name: &str) -> (at: Option<usize>)
    ensures
        match at {
            Some(i) => i < list@.len() && list@[i as int].name@ == name@ && (forall|j: int|
                0 <= j < i ==> (#[trigger] list@[j]).name@ != name@),
            None => !names_package(info_views(list@), name@),
        },
{
    let mut i: usize = 0;
    while i < list.len()
        invariant
            i <= list@.len(),
            forall|j: int| 0 <= j < i ==> (#[trigger] list@[j]).name@ != name@,
        decreases list@.len() - i,
    {
        if text::same(list[i].name.as_str(), name) {
            return Some(i);
        }
        i += 1;
    }
    assert forall|j: int| 0 <= j < list@.len() implies (#[trigger] info_views(list@)[j]).name != name@ by {
        assert(list@[j].name@ != name@);
    }
    None
}

/// `-Si` blocks: each name's repository and installed size.
pub fn parse_info(text: &str) -> (info: Vec<PackageInfo>)
    ensures
        info_views(info@) == infos_in(text::split(text@, "\n\n"@)),
{
    proof {
        reveal_strlit("\n\n");
    }
    let blocks = text::str_split(text, "\n\n");
    let ghost views = text::texts(blocks@);
    let mut out: Vec<PackageInfo> = Vec::new();
    let mut i: usize = 0;
    assert(views.subrange(0, 0) =~= Seq::<Seq<char>>::empty());
    assert(info_views(out@) =~= Seq::<InfoView>::empty());
    while i < blocks.len()
        invariant
            i <= blocks@.len(),
            views == text::texts(blocks@),
            info_views(out@) == infos_in(views.subrange(0, i as int)),
        decreases blocks@.len() - i,
    {
        let ghost before = out@;
        assert(views.subrange(0, i + 1).drop_last() =~= views.subrange(0, i as int));
        assert(views.subrange(0, i + 1).last() == blocks@[i as int]@);
        if let Some(next) = parse_block(blocks[i]) {
            match find_info(&out, next.name.as_str()) {
                Some(at) => {
                    assert(info_views(out@)[at as int].name == next.name@);
                },
                None => {
                    let ghost seen = next@;
                    out.push(next);
                    assert(info_views(out@) =~= info_views(before).push(seen));
                },
            }
        }
        i += 1;
    }
    assert(views.subrange(0, i as int) =~= views);
    out
}

/// No name comes twice in what a parse gives, whatever the text.
pub proof fn a_name_is_kept_once(blocks: Seq<Seq<char>>, i: int, j: int)
    requires
        0 <= i < j < infos_in(blocks).len(),
    ensures
        infos_in(blocks)[i].name != infos_in(blocks)[j].name,
    decreases blocks.len(),
{
    let before = infos_in(blocks.drop_last());
    if j < before.len() {
        a_name_is_kept_once(blocks.drop_last(), i, j);
    } else {
        assert(before[i] == infos_in(blocks)[i]);
    }
}

/// What is known of a package: the first entry of its name.
pub open spec fn info_from(list: Seq<InfoView>, name: Seq<char>, from: int) -> Option<InfoView>
    decreases list.len() - from,
{
    if from < 0 || from >= list.len() {
        None
    } else if list[from].name == name {
        Some(list[from])
    } else {
        info_from(list, name, from + 1)
    }
}

proof fn lemma_info_at(list: Seq<InfoView>, name: Seq<char>, from: int, at: int)
    requires
        0 <= from <= at <= list.len(),
        forall|j: int| from <= j < at ==> (#[trigger] list[j]).name != name,
        at < list.len() ==> list[at].name == name,
    ensures
        info_from(list, name, from) == (if at < list.len() {
            Some(list[at])
        } else {
            None
        }),
    decreases at - from,
{
    if from < at {
        assert(list[from].name != name);
        lemma_info_at(list, name, from + 1, at);
    }
}

/// What a check does next.
#[derive(Debug)]
pub enum Outdated {
    UpToDate,
    /// Ask for the downloads and for what the repos say of the packages, with these arguments, then
    /// join the answers with [`with_sizes`].
    Query { downloads: Vec<String>, info: Vec<String>, upgrades: Vec<Upgrade> },
}

/// The names of upgrades.
pub open spec fn upgrade_names(upgrades: Seq<(Seq<char>, Seq<char>, Seq<char>)>) -> Seq<Seq<char>> {
    Seq::new(upgrades.len(), |i: int| upgrades[i].0)
}

fn push_names(arguments: Vec<String>, upgrades: &Vec<Upgrade>) -> (list: Vec<String>)
    ensures
        text::strings(list@) == text::strings(arguments@) + upgrade_names(upgrade_views(upgrades@)),
{
    let ghost start = arguments@;
    let mut list = arguments;
    let mut i: usize = 0;
    while i < upgrades.len()
        invariant
            i <= upgrades@.len(),
            list@.len() == start.len() + i,
            forall|j: int| 0 <= j < start.len() ==> list@[j] == start[j],
            forall|j: int| start.len() <= j < start.len() + i ==> (#[trigger] list@[j])@ == upgrades@[j - start.len()].0@,
        decreases upgrades@.len() - i,
    {
        list.push(upgrades[i].0.clone());
        i += 1;
    }
    assert(text::strings(list@) =~= text::strings(start) + upgrade_names(upgrade_views(upgrades@)));
    list
}

/// Reads `-Qu`'s output; what to ask of the packages it names. `-Sp` sizes the download as pacman
/// would, `0` once cached; only `-Si` has the installed size.
pub fn outdated(stdout: &str) -> (next: Outdated)
    ensures
        ({
            let views = upgrades_in(text::lines(stdout@));
            if views.len() == 0 {
                next is UpToDate
            } else {
                next matches Outdated::Query { downloads, info, upgrades } && upgrade_views(upgrades@) == views
                    && text::strings(downloads@) == seq!["-Sddp"@, "--print-format"@, "%n %s"@] + upgrade_names(views)
                    && text::strings(info@) == seq!["-Si"@] + upgrade_names(views)
            }
        }),
{
    let upgrades = parse_upgrades(stdout);
    assert(upgrade_views(upgrades@).len() == upgrades@.len());
    if upgrades.len() == 0 {
        return Outdated::UpToDate;
    }
    let mut downloads: Vec<String> = Vec::new();
    downloads.push("-Sddp".to_owned());
    downloads.push("--print-format".to_owned());
    downloads.push("%n %s".to_owned());
    assert(text::strings(downloads@) =~= seq!["-Sddp"@, "--print-format"@, "%n %s"@]);
    let mut info: Vec<String> = Vec::new();
    info.push("-Si".to_owned());
    assert(text::strings(info@) =~= seq!["-Si"@]);
    Outdated::Query {
        downloads: push_names(downloads, &upgrades),
        info: push_names(info, &upgrades),
        upgrades,
    }
}

/// A package on offer with its installed size as printed; the candidate's own is zero until it is
/// worked out.
#[derive(Debug)]
pub struct Sized {
    pub candidate: UpdateCandidate,
    pub installed_size: Option<PrintedSize>,
}

/// An upgrade with what the downloads and the repos say of it.
pub open spec fn sized_as(
    sized: Sized,
    upgrade: (Seq<char>, Seq<char>, Seq<char>),
    downloads: Seq<(Seq<char>, i64)>,
    info: Seq<InfoView>,
) -> bool {
    let known = info_from(info, upgrade.0, 0);
    &&& sized.candidate.name@ == upgrade.0
    &&& sized.candidate.old_version@ == upgrade.1
    &&& sized.candidate.new_version@ == upgrade.2
    &&& sized.candidate.installed_size == 0
    &&& sized.candidate.download_size == (match download_in(downloads, upgrade.0) {
        Some(bytes) => bytes,
        None => 0,
    })
    &&& sized.candidate.repository@ == (match known {
        Some(known) => known.repository,
        None => Seq::empty(),
    })
    &&& size_view(sized.installed_size) == (match known {
        Some(known) => known.installed_size,
        None => None,
    })
}

fn sized(upgrade: Upgrade, downloads: &Vec<Download>, info: &Vec<PackageInfo>) -> (out: Sized)
    ensures
        sized_as(
            out,
            (upgrade.0@, upgrade.1@, upgrade.2@),
            download_views(downloads@),
            info_views(info@),
        ),
{
    let ghost views = info_views(info@);
    let (name, old_version, new_version) = upgrade;
    let download_size: i64 = match download_of(downloads, name.as_str()) {
        Some(bytes) => bytes,
        None => 0,
    };
    let mut repository = String::new();
    let mut installed_size: Option<PrintedSize> = None;
    match find_info(info, name.as_str()) {
        Some(at) => {
            proof {
                assert forall|j: int| 0 <= j < at implies (#[trigger] views[j]).name != name@ by {
                    assert(info@[j].name@ != name@);
                }
                lemma_info_at(views, name@, 0, at as int);
            }
            repository = info[at].repository.clone();
            installed_size = match &info[at].installed_size {
                Some(size) => Some(PrintedSize { value: size.value.clone(), power: size.power }),
                None => None,
            };
        },
        None => {
            proof {
                lemma_info_at(views, name@, 0, views.len() as int);
            }
        },
    }
    Sized {
        candidate: UpdateCandidate {
            name,
            old_version,
            new_version,
            download_size,
            installed_size: 0,
            repository,
        },
        installed_size,
    }
}

/// Joins upgrades with the two answers about them.
pub fn with_sizes(upgrades: Vec<Upgrade>, downloads: &str, info: &str) -> (packages: Vec<Sized>)
    ensures
        packages@.len() == upgrades@.len(),
        forall|i: int|
            0 <= i < upgrades@.len() ==> sized_as(
                #[trigger] packages@[i],
                upgrade_views(upgrades@)[i],
                downloads_in(text::lines(downloads@)),
                infos_in(text::split(info@, "\n\n"@)),
            ),
{
    let sizes = parse_downloads(downloads);
    let known = parse_info(info);
    let ghost all = upgrades@;
    let mut rest = upgrades;
    let mut packages: Vec<Sized> = Vec::new();
    assert(all.subrange(0, all.len() as int) =~= all);
    while rest.len() > 0
        invariant
            packages@.len() + rest@.len() == all.len(),
            download_views(sizes@) == downloads_in(text::lines(downloads@)),
            info_views(known@) == infos_in(text::split(info@, "\n\n"@)),
            rest@ == all.subrange(packages@.len() as int, all.len() as int),
            forall|i: int|
                0 <= i < packages@.len() ==> sized_as(
                    #[trigger] packages@[i],
                    upgrade_views(all)[i],
                    downloads_in(text::lines(downloads@)),
                    infos_in(text::split(info@, "\n\n"@)),
                ),
        decreases rest@.len(),
    {
        let ghost done = packages@.len() as int;
        let next = rest.remove(0);
        assert(upgrade_views(all)[done] == (next.0@, next.1@, next.2@));
        packages.push(sized(next, &sizes, &known));
        assert(rest@ =~= all.subrange(done + 1, all.len() as int));
    }
    packages
}

// ---- laws ----

/// A run that ends with zero has not failed. One that ends with one has where a line of its stderr is
/// neither blank nor a warning. Any other end is a failure.
pub proof fn a_run_fails_by_its_code_or_its_complaint(code: i32, stderr: Seq<char>)
    ensures
        !run_failed(Some(0), stderr),
        code != 0 && code != 1 ==> run_failed(Some(code), stderr),
        run_failed(None, stderr),
        run_failed(Some(1), stderr) <==> exists|i: int|
            0 <= i < text::lines(stderr).len() && text::trim(#[trigger] text::lines(stderr)[i]).len() > 0
                && !text::starts_with(text::lines(stderr)[i], "warning:"@),
{
    if exists|i: int|
        0 <= i < text::lines(stderr).len() && text::trim(#[trigger] text::lines(stderr)[i]).len() > 0
            && !text::starts_with(text::lines(stderr)[i], "warning:"@) {
        let i = choose|i: int|
            0 <= i < text::lines(stderr).len() && text::trim(#[trigger] text::lines(stderr)[i]).len() > 0
                && !text::starts_with(text::lines(stderr)[i], "warning:"@);
        assert(is_complaint(text::lines(stderr)[i]));
    }
}

/// A database is downloaded from the server's directory to its part file, quietly and failing on what
/// is refused, and only where it is newer than the one that is known.
pub proof fn a_database_is_asked_for_where_it_is_newer(server: Seq<char>, repo: Seq<char>, part: Seq<char>, db: Seq<char>)
    ensures
        curl_arguments(server, repo, part, None) == seq![
            "--silent"@,
            "--show-error"@,
            "--fail"@,
            "--location"@,
            "--remote-time"@,
            "--connect-timeout"@,
            "10"@,
            "--speed-limit"@,
            "1"@,
            "--speed-time"@,
            "10"@,
            "--output"@,
            part,
            server + "/"@ + repo + ".db"@,
        ],
        curl_arguments(server, repo, part, Some(db)) == seq![
            "--silent"@,
            "--show-error"@,
            "--fail"@,
            "--location"@,
            "--remote-time"@,
            "--connect-timeout"@,
            "10"@,
            "--speed-limit"@,
            "1"@,
            "--speed-time"@,
            "10"@,
            "--output"@,
            part,
            "--time-cond"@,
            db,
            server + "/"@ + repo + ".db"@,
        ],
{
}

/// An upgrade is a line of a name, a version, an arrow and a version, unless it ends in its being
/// ignored.
pub proof fn an_upgrade_is_a_name_and_two_versions(line: Seq<char>, name: Seq<char>, old: Seq<char>, new: Seq<char>)
    ensures
        upgrade_of(line) == Some((name, old, new)) <==> text::words(line) == seq![name, old, "->"@, new]
            && !text::ends_with(line, "[ignored]"@),
        upgrade_of(line) is None <==> text::ends_with(line, "[ignored]"@) || text::words(line).len() != 4
            || text::words(line)[2] != "->"@,
{
    if upgrade_of(line) == Some((name, old, new)) {
        assert(text::words(line) =~= seq![name, old, "->"@, new]);
    }
}

/// The upgrades are those of the lines that are one, all of them and in their order. Returns where they
/// stand.
pub proof fn every_upgrade_is_listed(lines: Seq<Seq<char>>) -> (at: Seq<int>)
    ensures
        at.len() == upgrades_in(lines).len(),
        forall|i: int| 0 <= i < at.len() ==> 0 <= #[trigger] at[i] < lines.len() && (upgrade_of(lines[at[i]]) is Some),
        forall|i: int| 0 <= i < at.len() ==> (upgrade_of(lines[#[trigger] at[i]]) == Some(upgrades_in(lines)[i])),
        forall|i: int, j: int| 0 <= i < j < at.len() ==> #[trigger] at[i] < #[trigger] at[j],
        forall|p: int| 0 <= p < lines.len() && (upgrade_of((#[trigger] lines[p])) is Some) ==> at.contains(p),
    decreases lines.len(),
{
    if lines.len() == 0 {
        Seq::empty()
    } else {
        let shorter = lines.drop_last();
        let n = lines.len() - 1;
        let before = every_upgrade_is_listed(lines.drop_last());
        assert forall|p: int| 0 <= p < n implies shorter[p] == #[trigger] lines[p] by {}
        if upgrade_of(lines.last()) is Some {
            let at = before.push(n);
            assert forall|p: int| 0 <= p < lines.len() && (upgrade_of((#[trigger] lines[p])) is Some) implies at.contains(p) by {
                if p < n {
                    assert(shorter[p] == lines[p]);
                    let k = choose|k: int| 0 <= k < before.len() && before[k] == p;
                    assert(at[k] == p);
                } else {
                    assert(at[before.len() as int] == p);
                }
            }
            at
        } else {
            assert forall|p: int| 0 <= p < lines.len() && (upgrade_of((#[trigger] lines[p])) is Some) implies before.contains(
                p,
            ) by {
                assert(p < n);
                assert(shorter[p] == lines[p]);
            }
            before
        }
    }
}

/// The foreign packages are the lines of a name and a version, parted at the first blank, all of them
/// and in their order. Returns where they stand.
pub proof fn every_foreign_package_is_listed(lines: Seq<Seq<char>>) -> (at: Seq<int>)
    ensures
        at.len() == foreign_in(lines).len(),
        forall|i: int| 0 <= i < at.len() ==> 0 <= #[trigger] at[i] < lines.len() && (text::split_once(lines[at[i]], " "@) is Some),
        forall|i: int| 0 <= i < at.len() ==> (text::split_once(lines[#[trigger] at[i]], " "@) == Some(foreign_in(lines)[i])),
        forall|i: int, j: int| 0 <= i < j < at.len() ==> #[trigger] at[i] < #[trigger] at[j],
        forall|p: int| 0 <= p < lines.len() && (text::split_once((#[trigger] lines[p]), " "@) is Some) ==> at.contains(p),
    decreases lines.len(),
{
    if lines.len() == 0 {
        Seq::empty()
    } else {
        let shorter = lines.drop_last();
        let n = lines.len() - 1;
        let before = every_foreign_package_is_listed(lines.drop_last());
        assert forall|p: int| 0 <= p < n implies shorter[p] == #[trigger] lines[p] by {}
        if text::split_once(lines.last(), " "@) is Some {
            let at = before.push(n);
            assert forall|p: int| 0 <= p < lines.len() && (text::split_once((#[trigger] lines[p]), " "@) is Some) implies at.contains(p) by {
                if p < n {
                    assert(shorter[p] == lines[p]);
                    let k = choose|k: int| 0 <= k < before.len() && before[k] == p;
                    assert(at[k] == p);
                } else {
                    assert(at[before.len() as int] == p);
                }
            }
            at
        } else {
            assert forall|p: int| 0 <= p < lines.len() && (text::split_once((#[trigger] lines[p]), " "@) is Some) implies before.contains(
                p,
            ) by {
                assert(p < n);
                assert(shorter[p] == lines[p]);
            }
            before
        }
    }
}

/// The downloads are the lines of a name and a number of bytes, all of them and in their order. Returns
/// where they stand.
pub proof fn every_download_is_listed(lines: Seq<Seq<char>>) -> (at: Seq<int>)
    ensures
        at.len() == downloads_in(lines).len(),
        forall|i: int| 0 <= i < at.len() ==> 0 <= #[trigger] at[i] < lines.len() && ((text::split_once(lines[at[i]], " "@) matches Some(pair) && text::parse_signed(pair.1) is Some)),
        forall|i: int| 0 <= i < at.len() ==> ((text::split_once(lines[#[trigger] at[i]], " "@) matches Some(pair) && downloads_in(lines)[i].0 == pair.0 && text::parse_signed(pair.1) == Some(downloads_in(lines)[i].1 as int))),
        forall|i: int, j: int| 0 <= i < j < at.len() ==> #[trigger] at[i] < #[trigger] at[j],
        forall|p: int| 0 <= p < lines.len() && ((text::split_once((#[trigger] lines[p]), " "@) matches Some(pair) && text::parse_signed(pair.1) is Some)) ==> at.contains(p),
    decreases lines.len(),
{
    if lines.len() == 0 {
        Seq::empty()
    } else {
        let shorter = lines.drop_last();
        let n = lines.len() - 1;
        let before = every_download_is_listed(lines.drop_last());
        assert forall|p: int| 0 <= p < n implies shorter[p] == #[trigger] lines[p] by {}
        if (text::split_once(lines.last(), " "@) matches Some(pair) && text::parse_signed(pair.1) is Some) {
            let at = before.push(n);
            assert forall|p: int| 0 <= p < lines.len() && ((text::split_once((#[trigger] lines[p]), " "@) matches Some(pair) && text::parse_signed(pair.1) is Some)) implies at.contains(p) by {
                if p < n {
                    assert(shorter[p] == lines[p]);
                    let k = choose|k: int| 0 <= k < before.len() && before[k] == p;
                    assert(at[k] == p);
                } else {
                    assert(at[before.len() as int] == p);
                }
            }
            at
        } else {
            assert forall|p: int| 0 <= p < lines.len() && ((text::split_once((#[trigger] lines[p]), " "@) matches Some(pair) && text::parse_signed(pair.1) is Some)) implies before.contains(
                p,
            ) by {
                assert(p < n);
                assert(shorter[p] == lines[p]);
            }
            before
        }
    }
}

/// A package's download is as large as it was listed last.
pub proof fn a_download_is_the_last_listed(list: Seq<(Seq<char>, i64)>, name: Seq<char>, i: int)
    ensures
        (forall|j: int| 0 <= j < list.len() ==> (#[trigger] list[j]).0 != name) ==> download_in(list, name) is None,
        0 <= i < list.len() && list[i].0 == name && (forall|j: int|
            i < j < list.len() ==> (#[trigger] list[j]).0 != name) ==> download_in(list, name) == Some(list[i].1),
    decreases list.len(),
{
    if list.len() > 0 {
        a_download_is_the_last_listed(list.drop_last(), name, i);
        assert(forall|j: int| 0 <= j < list.len() - 1 ==> list.drop_last()[j] == #[trigger] list[j]);
        assert(list.last() == list[list.len() - 1]);
    }
}

/// A size is a number and a unit, each a thousand and twenty-four times the one before.
pub proof fn a_unit_is_a_power(value: Seq<char>, unit: Seq<char>)
    ensures
        unit_power("B"@) == Some(0u32),
        unit_power("KiB"@) == Some(1u32),
        unit_power("MiB"@) == Some(2u32),
        unit_power("GiB"@) == Some(3u32),
        unit_power("TiB"@) == Some(4u32),
        unit != "B"@ && unit != "KiB"@ && unit != "MiB"@ && unit != "GiB"@ && unit != "TiB"@ ==> unit_power(unit) is None,
        !value.contains(' ') && unit_power(unit) is None ==> size_in(value + " "@ + unit) is None,
        !value.contains(' ') && unit_power(unit) is Some ==> size_in(value + " "@ + unit) == Some(
            (value, unit_power(unit)->Some_0),
        ),
        !value.contains(' ') ==> size_in(value) is None,
{
    reveal_strlit("B");
    reveal_strlit("KiB");
    reveal_strlit("MiB");
    reveal_strlit("GiB");
    reveal_strlit("TiB");
    reveal_strlit(" ");
    assert("KiB"@[0] == 'K' && "MiB"@[0] == 'M' && "GiB"@[0] == 'G' && "TiB"@[0] == 'T');
    text::a_text_is_parted_at_the_first_place(value, " "@, unit);
}

/// A field is the trimmed value of the first line that has its name.
pub proof fn a_field_is_the_first_of_its_name(lines: Seq<Seq<char>>, key: Seq<char>, from: int, at: int)
    requires
        0 <= from <= lines.len(),
    ensures
        from <= at < lines.len() && (text::split_once(lines[at], " : "@) matches Some(pair) && text::trim_end(pair.0) == key)
            && (forall|j: int|
            from <= j < at ==> !(text::split_once(#[trigger] lines[j], " : "@) matches Some(pair) && text::trim_end(pair.0)
                == key)) ==> field_from(lines, key, from) == Some(
            text::trim(text::split_once(lines[at], " : "@)->Some_0.1),
        ),
        (forall|j: int|
            from <= j < lines.len() ==> !(text::split_once(#[trigger] lines[j], " : "@) matches Some(pair)
                && text::trim_end(pair.0) == key)) ==> field_from(lines, key, from) is None,
    decreases lines.len() - from,
{
    if from < lines.len() {
        a_field_is_the_first_of_its_name(lines, key, from + 1, at);
    }
}

/// A block is about a package where it names it and its repository; its size is the one printed.
pub proof fn a_block_names_its_package(block: Seq<char>)
    ensures
        info_of(block) is Some <==> field_from(text::lines(block), "Repository"@, 0) is Some && field_from(
            text::lines(block),
            "Name"@,
            0,
        ) is Some,
        info_of(block) matches Some(info) ==> {
            &&& field_from(text::lines(block), "Name"@, 0) == Some(info.name)
            &&& field_from(text::lines(block), "Repository"@, 0) == Some(info.repository)
            &&& match field_from(text::lines(block), "Installed Size"@, 0) {
                Some(size) => info.installed_size == size_in(size),
                None => info.installed_size is None,
            }
        },
{
}

/// Of the blocks about one package the first counts, and nothing is told that no block tells.
pub proof fn the_first_block_of_a_package_counts(blocks: Seq<Seq<char>>, i: int, k: int)
    ensures
        0 <= i < blocks.len() && (info_of(blocks[i]) is Some) && (forall|j: int|
            0 <= j < i ==> !(info_of(#[trigger] blocks[j]) matches Some(info) && info.name == info_of(
                blocks[i],
            )->Some_0.name)) ==> infos_in(blocks).contains(info_of(blocks[i])->Some_0),
        0 <= k < infos_in(blocks).len() ==> exists|j: int|
            0 <= j < blocks.len() && info_of(#[trigger] blocks[j]) == Some(infos_in(blocks)[k]),
    decreases blocks.len(),
{
    if blocks.len() > 0 {
        let shorter = blocks.drop_last();
        let n = blocks.len() - 1;
        let before = infos_in(shorter);
        let all = infos_in(blocks);
        the_first_block_of_a_package_counts(shorter, i, k);
        assert forall|j: int| 0 <= j < n implies shorter[j] == #[trigger] blocks[j] by {}
        if 0 <= k < all.len() {
            if k < before.len() {
                let j = choose|j: int| 0 <= j < shorter.len() && info_of(#[trigger] shorter[j]) == Some(before[k]);
                assert(info_of(blocks[j]) == Some(all[k]));
            } else {
                assert(info_of(blocks[n]) == Some(all[k]));
            }
        }
        if 0 <= i < blocks.len() && info_of(blocks[i]) is Some && (forall|j: int|
            0 <= j < i ==> !(info_of(#[trigger] blocks[j]) matches Some(info) && info.name == info_of(
                blocks[i],
            )->Some_0.name)) {
            let wanted = info_of(blocks[i])->Some_0;
            if i < n {
                assert forall|j: int| 0 <= j < i implies !(info_of(#[trigger] shorter[j]) matches Some(info) && info.name
                    == wanted.name) by {
                    assert(shorter[j] == blocks[j]);
                }
                assert(before.contains(wanted));
                let m = choose|m: int| 0 <= m < before.len() && before[m] == wanted;
                assert(all[m] == wanted);
            } else {
                if names_package(before, wanted.name) {
                    let m = choose|m: int| 0 <= m < before.len() && (#[trigger] before[m]).name == wanted.name;
                    the_first_block_of_a_package_counts(shorter, -1, m);
                    let j = choose|j: int| 0 <= j < shorter.len() && info_of(#[trigger] shorter[j]) == Some(before[m]);
                    assert(shorter[j] == blocks[j]);
                }
                assert(all[before.len() as int] == wanted);
            }
        }
    }
}

/// A package's entry is the first of its name.
pub proof fn an_entry_is_found_by_its_name(list: Seq<InfoView>, name: Seq<char>, from: int)
    requires
        0 <= from <= list.len(),
    ensures
        info_from(list, name, from) matches Some(info) ==> info.name == name && exists|at: int|
            from <= at < list.len() && #[trigger] list[at] == info && forall|j: int|
                from <= j < at ==> (#[trigger] list[j]).name != name,
        info_from(list, name, from) is None ==> forall|j: int|
            from <= j < list.len() ==> (#[trigger] list[j]).name != name,
    decreases list.len() - from,
{
    if from < list.len() {
        if list[from].name == name {
            assert(list[from] == info_from(list, name, from)->Some_0);
        } else {
            an_entry_is_found_by_its_name(list, name, from + 1);
            if let Some(info) = info_from(list, name, from) {
                let at = choose|at: int|
                    from + 1 <= at < list.len() && #[trigger] list[at] == info && forall|j: int|
                        from + 1 <= j < at ==> (#[trigger] list[j]).name != name;
                assert(list[at] == info);
                assert forall|j: int| from <= j < at implies (#[trigger] list[j]).name != name by {}
            }
        }
    }
}

/// An upgrade goes by its own name and versions, with the download and the entry of its name; what is
/// not listed is zero, empty or unknown.
pub proof fn an_upgrade_has_the_sizes_of_its_name(
    sized: Sized,
    upgrade: (Seq<char>, Seq<char>, Seq<char>),
    downloads: Seq<(Seq<char>, i64)>,
    info: Seq<InfoView>,
)
    requires
        sized_as(sized, upgrade, downloads, info),
    ensures
        sized.candidate.name@ == upgrade.0 && sized.candidate.old_version@ == upgrade.1 && sized.candidate.new_version@
            == upgrade.2,
        download_in(downloads, upgrade.0) matches Some(bytes) ==> sized.candidate.download_size == bytes,
        download_in(downloads, upgrade.0) is None ==> sized.candidate.download_size == 0,
        info_from(info, upgrade.0, 0) matches Some(known) ==> sized.candidate.repository@ == known.repository && size_view(
            sized.installed_size,
        ) == known.installed_size,
        info_from(info, upgrade.0, 0) is None ==> sized.candidate.repository@.len() == 0 && sized.installed_size is None,
        sized.candidate.installed_size == 0,
{
}

/// Each list is told item by item, in its order.
pub proof fn a_list_is_told_item_by_item(
    upgrades: Seq<Upgrade>,
    downloads: Seq<Download>,
    infos: Seq<PackageInfo>,
    names: Seq<(Seq<char>, Seq<char>, Seq<char>)>,
    i: int,
)
    ensures
        upgrade_views(upgrades).len() == upgrades.len(),
        0 <= i < upgrades.len() ==> upgrade_views(upgrades)[i] == (upgrades[i].0@, upgrades[i].1@, upgrades[i].2@),
        download_views(downloads).len() == downloads.len(),
        0 <= i < downloads.len() ==> download_views(downloads)[i] == (downloads[i].0@, downloads[i].1),
        info_views(infos).len() == infos.len(),
        0 <= i < infos.len() ==> info_views(infos)[i].name == infos[i].name@ && info_views(infos)[i].repository
            == infos[i].repository@ && info_views(infos)[i].installed_size == size_view(infos[i].installed_size),
        upgrade_names(names).len() == names.len(),
        0 <= i < names.len() ==> upgrade_names(names)[i] == names[i].0,
{
}

} // verus!
