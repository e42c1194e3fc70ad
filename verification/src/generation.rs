//! A renderer generation: what it is told, how its end is classified and reported, and
//! [`RestartBrake`], which a respawn consults.

use vstd::prelude::*;

use crate::path;
use crate::text;

verus! {

/// Three deaths in a minute respawn at once; a fourth waits the cooldown, so a config that kills
/// every renderer cannot strobe the lock screen and a GPU out of memory gets time.
pub const RESTART_LIMIT: usize = 3;

/// Nanoseconds.
pub const RESTART_WINDOW: u64 = 60_000_000_000;

/// Nanoseconds.
pub const RESTART_COOLDOWN: u64 = 30_000_000_000;

/// Installed renderer filename. `renderer` is too generic for a user's `$PATH`.
pub const RENDERER_BINARY: &'static str = "mantle-renderer";

/// The EGL vendors glvnd loads; without it a machine that renders only on NVIDIA also maps Mesa's
/// libraries into the renderer.
pub const EGL_VENDOR_ENV: &'static str = "__EGL_VENDOR_LIBRARY_FILENAMES";

/// The renderer beside the running supervisor, which keeps it off `$PATH` in an install.
pub fn renderer_binary_path(exe: &str) -> (renderer: String)
    ensures
        renderer@ == path::renamed_text(exe@, RENDERER_BINARY@),
{
    path::with_file_name(exe, RENDERER_BINARY)
}

// ---- the EGL vendor ----

/// A node under the graphics class: its name, and where its driver link points if it could be read.
#[derive(Debug, Clone, PartialEq, Eq)]
pub struct GraphicsNode {
    pub name: String,
    pub driver: Option<String>,
}

/// A render node bound to the `nvidia` driver.
pub open spec fn is_nvidia(node: GraphicsNode) -> bool {
    node.driver matches Some(driver) && path::file_name_text(driver@) == Some("nvidia"@)
}

pub open spec fn is_render_node(node: GraphicsNode) -> bool {
    text::starts_with(node.name@, "renderD"@)
}

/// Whether there is a render node and every one is bound to the `nvidia` driver. A hybrid machine
/// needs Mesa.
pub open spec fn only_nvidia(nodes: Seq<GraphicsNode>) -> bool {
    &&& exists|i: int| 0 <= i < nodes.len() && is_render_node(#[trigger] nodes[i])
    &&& forall|i: int| 0 <= i < nodes.len() && is_render_node(#[trigger] nodes[i]) ==> is_nvidia(nodes[i])
}

/// Whether a driver link's name is the `nvidia` driver's.
pub fn names_nvidia(name: &Option<String>) -> (is_it: bool)
    ensures
        is_it == (text::optional(*name) == Some("nvidia"@)),
{
    match name {
        Some(name) => text::same(name.as_str(), "nvidia"),
        None => false,
    }
}

pub fn every_render_node_is_nvidia(nodes: &Vec<GraphicsNode>) -> (every: bool)
    ensures
        every == only_nvidia(nodes@),
{
    let mut found = false;
    let mut i: usize = 0;
    while i < nodes.len()
        invariant
            i <= nodes@.len(),
            found == exists|j: int| 0 <= j < i && is_render_node(#[trigger] nodes@[j]),
            forall|j: int| 0 <= j < i && is_render_node(#[trigger] nodes@[j]) ==> is_nvidia(nodes@[j]),
        decreases nodes@.len() - i,
    {
        let ghost node = nodes@[i as int];
        if text::str_starts_with(nodes[i].name.as_str(), "renderD") {
            assert(is_render_node(node));
            found = true;
            let nvidia = match &nodes[i].driver {
                Some(driver) => names_nvidia(&path::file_name_of(driver.as_str())),
                None => false,
            };
            if !nvidia {
                assert(!is_nvidia(node));
                return false;
            }
        } else {
            assert(!is_render_node(node));
        }
        i += 1;
    }
    found
}

/// An EGL vendor file of NVIDIA's, by its name.
pub open spec fn is_nvidia_vendor(name: Seq<char>) -> bool {
    text::ends_with(name, ".json"@) && name.len() > 5 && text::contains(name, "nvidia"@)
}

/// The first file, from one on, that is NVIDIA's.
pub open spec fn vendor_from(names: Seq<Seq<char>>, from: int) -> Option<int>
    decreases names.len() - from,
{
    if from < 0 || from >= names.len() {
        None
    } else if is_nvidia_vendor(names[from]) {
        Some(from)
    } else {
        vendor_from(names, from + 1)
    }
}

/// The place of NVIDIA's file among the names of the vendor directory.
pub fn nvidia_vendor_file(files: &Vec<String>) -> (vendor: Option<usize>)
    ensures
        match vendor_from(text::strings(files@), 0) {
            Some(at) => vendor matches Some(v) && v == at,
            None => vendor is None,
        },
{
    let ghost views = text::strings(files@);
    let mut i: usize = 0;
    while i < files.len()
        invariant
            i <= files@.len(),
            views == text::strings(files@),
            vendor_from(views, i as int) == vendor_from(views, 0),
        decreases files@.len() - i,
    {
        let name = files[i].as_str();
        assert(views[i as int] == name@);
        if text::str_ends_with(name, ".json") && name.unicode_len() > 5 && text::str_contains(name, "nvidia") {
            return Some(i);
        }
        i += 1;
    }
    assert(views.len() == files@.len());
    None
}

/// NVIDIA's EGL vendor file, by its place among the names of the vendor directory, when every render
/// node is bound to the `nvidia` driver. `None` for a directory means that it could not be read.
pub fn nvidia_egl_vendor(nodes: &Option<Vec<GraphicsNode>>, vendor_files: &Option<Vec<String>>) -> (vendor: Option<
    usize,
>)
    ensures
        match (nodes, vendor_files) {
            (Some(nodes), Some(files)) => if only_nvidia(nodes@) {
                match vendor_from(text::strings(files@), 0) {
                    Some(at) => vendor matches Some(v) && v == at,
                    None => vendor is None,
                }
            } else {
                vendor is None
            },
            _ => vendor is None,
        },
{
    match (nodes, vendor_files) {
        (Some(nodes), Some(files)) => if every_render_node_is_nvidia(nodes) {
            nvidia_vendor_file(files)
        } else {
            None
        },
        _ => None,
    }
}

// ---- what a renderer is told ----

/// The names of the variables a renderer reads.
#[derive(Debug, Clone, PartialEq, Eq)]
pub struct EnvNames {
    pub instance_dir: String,
    pub config_dir: String,
    pub profile: String,
    pub verbose: String,
    pub generation_id: String,
}

/// The renderer binary and what every generation is told. Passed on each spawn, never set on the
/// supervisor, so what the shell launches inherits only the supervisor's own environment.
#[derive(Debug)]
pub struct Renderer {
    path: String,
    env: Vec<(String, String)>,
}

/// What a renderer is told: its instance and config, and what was asked for beyond them.
pub open spec fn told(
    names: EnvNames,
    instance_dir: Seq<char>,
    config_dir: Seq<char>,
    profile: Option<u64>,
    verbose: u8,
    egl_vendor: Option<Seq<char>>,
) -> Seq<(Seq<char>, Seq<char>)> {
    seq![(names.instance_dir@, instance_dir), (names.config_dir@, config_dir)] + (match profile {
        Some(secs) => seq![(names.profile@, text::decimal(secs as nat))],
        None => Seq::empty(),
    }) + (match egl_vendor {
        Some(path) => seq![(EGL_VENDOR_ENV@, path)],
        None => Seq::empty(),
    }) + (if verbose > 0 {
        seq![(names.verbose@, text::decimal(verbose as nat))]
    } else {
        Seq::empty()
    })
}

impl Renderer {
    pub closed spec fn spec_path(self) -> Seq<char> {
        self.path@
    }

    pub closed spec fn spec_env(self) -> Seq<(Seq<char>, Seq<char>)> {
        crate::json::pairs(self.env@)
    }

    /// `verbose` is sent only when it says something: an absent variable and a `0` both read back as
    /// no `-v` at all.
    pub fn new(
        path: String,
        names: &EnvNames,
        instance_dir: &str,
        config_dir: &str,
        profile: Option<u64>,
        verbose: u8,
        egl_vendor: Option<&str>,
    ) -> (renderer: Self)
        ensures
            renderer.spec_path() == path@,
            renderer.spec_env() == told(
                *names,
                instance_dir@,
                config_dir@,
                profile,
                verbose,
                text::optional_str(egl_vendor),
            ),
    {
        let mut env: Vec<(String, String)> = Vec::new();
        env.push((names.instance_dir.clone(), instance_dir.to_owned()));
        env.push((names.config_dir.clone(), config_dir.to_owned()));
        if let Some(secs) = profile {
            env.push((names.profile.clone(), text::decimal_of(secs)));
        }
        if let Some(vendor) = egl_vendor {
            env.push((EGL_VENDOR_ENV.to_owned(), vendor.to_owned()));
        }
        if verbose > 0 {
            env.push((names.verbose.clone(), text::decimal_of(verbose as u64)));
        }
        assert(crate::json::pairs(env@) =~= told(
            *names,
            instance_dir@,
            config_dir@,
            profile,
            verbose,
            text::optional_str(egl_vendor),
        ));
        Renderer { path, env }
    }

    pub fn path(&self) -> (path: &str)
        ensures
            path@ == self.spec_path(),
    {
        self.path.as_str()
    }

    /// The variables a generation is spawned with: every generation's, and its own id.
    pub fn spawn(&self, names: &EnvNames, generation_id: u32) -> (env: Vec<(String, String)>)
        ensures
            crate::json::pairs(env@) == self.spec_env().push(
                (names.generation_id@, text::decimal(generation_id as nat)),
            ),
    {
        let mut env: Vec<(String, String)> = Vec::new();
        let mut i: usize = 0;
        while i < self.env.len()
            invariant
                i <= self.env@.len(),
                env@.len() == i,
                forall|j: int|
                    0 <= j < i ==> (#[trigger] env@[j]).0@ == self.env@[j].0@ && env@[j].1@ == self.env@[j].1@,
            decreases self.env@.len() - i,
        {
            env.push((self.env[i].0.clone(), self.env[i].1.clone()));
            i += 1;
        }
        env.push((names.generation_id.clone(), text::decimal_of(generation_id as u64)));
        assert(crate::json::pairs(env@) =~= self.spec_env().push(
            (names.generation_id@, text::decimal(generation_id as nat)),
        ));
        env
    }
}

// ---- how a renderer ends ----

/// How the authoritative renderer ended. `Clean` is not a crash, so a shutdown's own reap is never
/// reported as one.
#[derive(Debug, Clone, Copy, PartialEq, Eq, Structural)]
pub enum RendererDeparture {
    Clean,
    Failed { code: i32 },
    Signalled { signal: i32 },
}

/// Classifies an exit status by its signal and code. The signal counts first: a signalled child has
/// no exit code. A status with neither is outside the normal shapes, and reads as a failure.
pub fn classify_departure(signal: Option<i32>, code: Option<i32>) -> (departure: RendererDeparture)
    ensures
        departure == (match (signal, code) {
            (Some(signal), _) => RendererDeparture::Signalled { signal },
            (None, Some(code)) => if code == 0 {
                RendererDeparture::Clean
            } else {
                RendererDeparture::Failed { code }
            },
            (None, None) => RendererDeparture::Failed { code: -1i32 },
        }),
{
    if let Some(signal) = signal {
        return RendererDeparture::Signalled { signal };
    }
    match code {
        Some(code) => if code == 0 {
            RendererDeparture::Clean
        } else {
            RendererDeparture::Failed { code }
        },
        None => RendererDeparture::Failed { code: -1 },
    }
}

pub open spec fn departure_text(departure: RendererDeparture) -> Seq<char> {
    match departure {
        RendererDeparture::Clean => "exited cleanly"@,
        RendererDeparture::Failed { code } => "exited with code "@ + text::signed_decimal(code as int),
        RendererDeparture::Signalled { signal } => "was killed by signal "@ + text::signed_decimal(signal as int),
    }
}

/// A renderer's departure for people, with the lock. The compositor does not unlock when a lock
/// client dies, so losing a renderer that holds the lock costs the session, not just the bar.
pub fn departure_report(departure: RendererDeparture, generation_id: u32, lock_active: bool) -> (report: String)
    ensures
        report@ == "generation "@ + text::decimal(generation_id as nat) + "'s renderer "@ + departure_text(departure)
            + (if lock_active {
            ", and it held the session lock: the compositor does not unlock when a lock client dies, so the session stays locked until a replacement takes the lock over (ADR-0058)"@
        } else {
            ""@
        }),
{
    let what = match departure {
        RendererDeparture::Clean => "exited cleanly".to_owned(),
        RendererDeparture::Failed { code } => {
            let code = text::signed_decimal_of(code as i64);
            "exited with code ".to_owned().concat(code.as_str())
        },
        RendererDeparture::Signalled { signal } => {
            let signal = text::signed_decimal_of(signal as i64);
            "was killed by signal ".to_owned().concat(signal.as_str())
        },
    };
    let lock = if lock_active {
        ", and it held the session lock: the compositor does not unlock when a lock client dies, so the session stays locked until a replacement takes the lock over (ADR-0058)"
    } else {
        ""
    };
    let id = text::decimal_of(generation_id as u64);
    "generation ".to_owned().concat(id.as_str()).concat("'s renderer ").concat(what.as_str()).concat(lock)
}

// ---- the restart brake ----

/// Whether a restart is out of the window at `now`; one in the future is not.
pub open spec fn is_past(at: u64, now: u64) -> bool {
    now - at >= RESTART_WINDOW
}

/// The restarts left once those out of the window are dropped, oldest first.
pub open spec fn in_window(recent: Seq<u64>, now: u64) -> Seq<u64>
    decreases recent.len(),
{
    if recent.len() > 0 && is_past(recent[0], now) {
        in_window(recent.subrange(1, recent.len() as int), now)
    } else {
        recent
    }
}

/// Whether an attempt at `now` may proceed.
pub open spec fn allowed(recent: Seq<u64>, now: u64) -> bool {
    in_window(recent, now).len() < RESTART_LIMIT
}

/// The restarts counted after an attempt: a refusal clears the window for the cooldown.
pub open spec fn counted(recent: Seq<u64>, now: u64) -> Seq<u64> {
    if allowed(recent, now) {
        in_window(recent, now).push(now)
    } else {
        Seq::empty()
    }
}

/// At most [`RESTART_LIMIT`] restarts inside [`RESTART_WINDOW`], and a [`RESTART_COOLDOWN`] wait.
///
/// A sliding window, not a total count: a renderer dying once a day for a month is a logged bug, not
/// a restart loop.
#[derive(Debug)]
pub struct RestartBrake {
    /// Restart times in the current window, oldest first; bounded by [`RESTART_LIMIT`].
    recent: Vec<u64>,
}

impl Default for RestartBrake {
    fn default() -> (brake: Self)
        ensures
            brake@ == Seq::<u64>::empty(),
    {
        RestartBrake { recent: Vec::new() }
    }
}

impl View for RestartBrake {
    type V = Seq<u64>;

    closed spec fn view(&self) -> Seq<u64> {
        self.recent@
    }
}

impl RestartBrake {
    /// Records an attempt at `now`, in nanoseconds since some fixed moment, and says whether it may
    /// proceed.
    pub fn allow(&mut self, now: u64) -> (proceed: bool)
        ensures
            proceed == allowed(old(self)@, now),
            final(self)@ == counted(old(self)@, now),
    {
        while self.recent.len() > 0 && now >= self.recent[0] && now - self.recent[0] >= RESTART_WINDOW
            invariant
                in_window(self.recent@, now) == in_window(old(self).recent@, now),
            decreases self.recent@.len(),
        {
            let ghost before = self.recent@;
            self.recent.remove(0);
            assert(self.recent@ =~= before.subrange(1, before.len() as int));
        }
        if self.recent.len() >= RESTART_LIMIT {
            self.recent = Vec::new();
            return false;
        }
        self.recent.push(now);
        true
    }
}

/// The restarts counted after attempts at these times, from a fresh brake.
pub open spec fn counted_after(times: Seq<u64>) -> Seq<u64>
    decreases times.len(),
{
    if times.len() == 0 {
        Seq::empty()
    } else {
        counted(counted_after(times.drop_last()), times.last())
    }
}

/// Whether the attempt of a number among these was allowed.
pub open spec fn allowed_at(times: Seq<u64>, i: int) -> bool {
    allowed(counted_after(times.subrange(0, i)), times[i])
}

pub open spec fn in_order(times: Seq<u64>) -> bool {
    forall|i: int, j: int| 0 <= i <= j < times.len() ==> (#[trigger] times[i]) <= (#[trigger] times[j])
}

proof fn lemma_in_window(recent: Seq<u64>, now: u64)
    ensures
        in_window(recent, now).len() <= recent.len(),
        in_window(recent, now) == recent.subrange(
            recent.len() - in_window(recent, now).len(),
            recent.len() as int,
        ),
        in_window(recent, now).len() < recent.len() ==> is_past(
            recent[recent.len() - in_window(recent, now).len() - 1],
            now,
        ),
    decreases recent.len(),
{
    if recent.len() > 0 && is_past(recent[0], now) {
        let rest = recent.subrange(1, recent.len() as int);
        lemma_in_window(rest, now);
        let kept = in_window(recent, now).len();
        assert(in_window(recent, now) =~= recent.subrange(recent.len() - kept, recent.len() as int));
        if kept < rest.len() {
            assert(rest[rest.len() - kept - 1] == recent[recent.len() - kept - 1]);
        }
    } else {
        assert(recent.subrange(0, recent.len() as int) =~= recent);
    }
}

/// What the brake counts is the end of what was attempted, and what came just before it was refused
/// or is out of the window.
proof fn lemma_counted(times: Seq<u64>)
    requires
        in_order(times),
    ensures
        counted_after(times).len() <= times.len(),
        counted_after(times).len() <= RESTART_LIMIT,
        counted_after(times) == times.subrange(times.len() - counted_after(times).len(), times.len() as int),
        counted_after(times).len() < times.len() ==> {
            let k = times.len() - counted_after(times).len() - 1;
            !allowed_at(times, k) || is_past(times[k], times.last())
        },
    decreases times.len(),
{
    if times.len() == 0 {
        assert(counted_after(times) =~= times.subrange(0, 0));
    } else {
        let before = times.drop_last();
        assert(in_order(before)) by {
            assert forall|i: int, j: int| 0 <= i <= j < before.len() implies (#[trigger] before[i]) <= (
            #[trigger] before[j]) by {
                assert(before[i] == times[i] && before[j] == times[j]);
            }
        }
        lemma_counted(before);
        let recent = counted_after(before);
        let now = times.last();
        lemma_in_window(recent, now);
        let n = times.len() as int;
        assert(times.subrange(0, n - 1) =~= before);
        if allowed(recent, now) {
            let kept = in_window(recent, now);
            assert(counted_after(times) =~= times.subrange(n - 1 - kept.len(), n)) by {
                assert forall|i: int| 0 <= i < kept.len() implies kept[i] == times[n - 1 - kept.len() + i] by {
                    assert(kept[i] == recent[recent.len() - kept.len() + i]);
                    assert(recent[recent.len() - kept.len() + i] == before[before.len() - kept.len() + i]);
                }
            }
            let k = n - counted_after(times).len() - 1;
            if k >= 0 {
                if kept.len() < recent.len() {
                    assert(recent[recent.len() - kept.len() - 1] == before[before.len() - kept.len() - 1]);
                    assert(is_past(times[k], now));
                } else {
                    assert(k == before.len() - recent.len() - 1);
                    assert(before.subrange(0, k) =~= times.subrange(0, k));
                    assert(before[k] == times[k]);
                    if allowed_at(times, k) {
                        assert(allowed_at(before, k));
                        assert(before.last() <= now) by {
                            assert(times[n - 2] <= times[n - 1]);
                        }
                        assert(is_past(times[k], now));
                    }
                }
            }
        } else {
            assert(counted_after(times) =~= times.subrange(n, n));
            assert(!allowed_at(times, n - 1));
        }
    }
}

/// Of four attempts in a row that were all allowed, the last is a window or more after the first: no
/// more than the limit go ahead within a window.
pub proof fn no_more_than_the_limit_restart_in_a_window(times: Seq<u64>)
    requires
        in_order(times),
        times.len() > RESTART_LIMIT,
        forall|i: int|
            times.len() - RESTART_LIMIT - 1 <= i < times.len() ==> #[trigger] allowed_at(times, i),
    ensures
        times.last() - times[times.len() - RESTART_LIMIT - 1] >= RESTART_WINDOW,
{
    lemma_counted(times);
    let n = times.len() as int;
    let k = n - counted_after(times).len() - 1;
    assert(k >= n - RESTART_LIMIT - 1);
    assert(times.subrange(0, n - 1) =~= times.drop_last());
    assert(allowed_at(times, n - 1));
    assert(counted_after(times).len() > 0);
    assert(allowed_at(times, k));
    assert(is_past(times[k], times.last()));
    assert(times[n - RESTART_LIMIT - 1] <= times[k]);
}

/// Attempts a window or more apart are all allowed: a slow crash loop never trips the brake.
pub proof fn a_slow_crash_loop_is_never_refused(times: Seq<u64>, i: int)
    requires
        0 <= i < times.len(),
        forall|j: int|
            #![trigger times[j]]
            0 < j < times.len() ==> times[j] - times[j - 1] >= RESTART_WINDOW,
    ensures
        allowed_at(times, i),
{
    let before = times.subrange(0, i);
    lemma_slow(before);
    if i > 0 {
        assert(times[i] - times[i - 1] >= RESTART_WINDOW);
        assert(before.last() == times[i - 1]);
        let recent = counted_after(before);
        assert(recent.subrange(1, recent.len() as int) =~= Seq::<u64>::empty());
        assert(in_window(Seq::<u64>::empty(), times[i]) == Seq::<u64>::empty());
        assert(in_window(recent, times[i]) == Seq::<u64>::empty());
    }
}

proof fn lemma_slow(times: Seq<u64>)
    requires
        forall|j: int|
            #![trigger times[j]]
            0 < j < times.len() ==> times[j] - times[j - 1] >= RESTART_WINDOW,
    ensures
        times.len() == 0 ==> counted_after(times) == Seq::<u64>::empty(),
        times.len() > 0 ==> counted_after(times) == seq![times.last()],
    decreases times.len(),
{
    if times.len() > 0 {
        let before = times.drop_last();
        assert forall|j: int| #![trigger before[j]] 0 < j < before.len() implies before[j] - before[j - 1]
            >= RESTART_WINDOW by {
            assert(times[j] - times[j - 1] >= RESTART_WINDOW);
        }
        lemma_slow(before);
        let recent = counted_after(before);
        if before.len() > 0 {
            assert(times[times.len() - 1] - times[times.len() - 2] >= RESTART_WINDOW);
            assert(recent[0] == before.last());
            assert(recent.subrange(1, recent.len() as int) =~= Seq::<u64>::empty());
        }
        assert(in_window(Seq::<u64>::empty(), times.last()) == Seq::<u64>::empty());
        assert(in_window(recent, times.last()) == Seq::<u64>::empty());
        assert(counted_after(times) =~= seq![times.last()]);
    }
}

/// What is counted went ahead.
proof fn lemma_counted_went_ahead(times: Seq<u64>, j: int)
    requires
        in_order(times),
        times.len() - counted_after(times).len() <= j < times.len(),
    ensures
        allowed_at(times, j),
    decreases times.len(),
{
    let n = times.len() as int;
    lemma_counted(times);
    let before = times.drop_last();
    assert(in_order(before)) by {
        assert forall|i: int, k: int| 0 <= i <= k < before.len() implies (#[trigger] before[i]) <= (
        #[trigger] before[k]) by {
            assert(before[i] == times[i] && before[k] == times[k]);
        }
    }
    assert(times.subrange(0, n - 1) =~= before);
    let recent = counted_after(before);
    let now = times.last();
    assert(allowed(recent, now));
    lemma_in_window(recent, now);
    if j < n - 1 {
        lemma_counted_went_ahead(before, j);
        assert(before.subrange(0, j) =~= times.subrange(0, j));
        assert(before[j] == times[j]);
    }
}

/// An attempt is refused exactly where the three before it all went ahead and the first of them is
/// less than a minute old: deaths leave the window one by one, each a minute after it happened.
pub proof fn an_attempt_is_refused_after_three_in_a_minute(times: Seq<u64>, i: int)
    requires
        0 <= i < times.len(),
        forall|j: int, k: int| 0 <= j <= k < times.len() ==> (#[trigger] times[j]) <= (#[trigger] times[k]),
    ensures
        !allowed_at(times, i) <==> {
            &&& i >= 3
            &&& allowed_at(times, i - 1)
            &&& allowed_at(times, i - 2)
            &&& allowed_at(times, i - 3)
            &&& times[i] - times[i - 3] < 60_000_000_000
        },
{
    let before = times.subrange(0, i);
    let now = times[i];
    assert(in_order(before)) by {
        assert forall|j: int, k: int| 0 <= j <= k < before.len() implies (#[trigger] before[j]) <= (
        #[trigger] before[k]) by {
            assert(before[j] == times[j] && before[k] == times[k]);
        }
    }
    lemma_counted(before);
    let recent = counted_after(before);
    lemma_in_window(recent, now);
    assert forall|j: int| 0 <= j < i implies #[trigger] allowed_at(before, j) == allowed_at(times, j) by {
        assert(before.subrange(0, j) =~= times.subrange(0, j));
        assert(before[j] == times[j]);
    }
    if !allowed(recent, now) {
        assert(recent.len() == 3);
        lemma_counted_went_ahead(before, i - 1);
        lemma_counted_went_ahead(before, i - 2);
        lemma_counted_went_ahead(before, i - 3);
        assert(recent[0] == before[i - 3]);
        assert(in_window(recent, now) == recent);
        assert(!is_past(recent[0], now)) by {
            if is_past(recent[0], now) {
                let rest = recent.subrange(1, 3);
                lemma_in_window(rest, now);
                assert(in_window(recent, now) == in_window(rest, now));
            }
        }
    } else if i >= 3 && allowed_at(times, i - 1) && allowed_at(times, i - 2) && allowed_at(times, i - 3) && now
        - times[i - 3] < 60_000_000_000 {
        if recent.len() < 3 {
            let k = i - recent.len() - 1;
            assert(allowed_at(before, k) == allowed_at(times, k));
            assert(is_past(before[k], before.last()));
            assert(before[k] == times[k] && before.last() == times[i - 1]);
            assert(times[i - 3] <= times[k] && times[i - 1] <= times[i]);
            assert(false);
        }
        assert(recent[0] == before[i - 3]);
        assert(in_window(recent, now) == recent);
        assert(false);
    }
}

/// Where fewer than three attempts lie within the last minute, the next goes ahead, whatever came
/// earlier.
pub proof fn fewer_than_three_in_a_minute_go_ahead(times: Seq<u64>, i: int)
    requires
        0 <= i < times.len(),
        forall|j: int, k: int| 0 <= j <= k < times.len() ==> (#[trigger] times[j]) <= (#[trigger] times[k]),
        i < 3 || times[i] - times[i - 3] >= 60_000_000_000,
    ensures
        allowed_at(times, i),
{
    an_attempt_is_refused_after_three_in_a_minute(times, i);
}

/// A refusal clears the window: the next attempt is allowed.
pub proof fn a_refusal_clears_the_window(recent: Seq<u64>, now: u64, next: u64)
    requires
        !allowed(recent, now),
    ensures
        allowed(counted(recent, now), next),
{
}

/// One render node of another driver is enough to keep Mesa, and so is having none at all; nodes that
/// do not render count for nothing.
pub proof fn one_other_render_node_keeps_mesa(nodes: Seq<GraphicsNode>, i: int)
    ensures
        only_nvidia(nodes) && 0 <= i < nodes.len() && text::starts_with(nodes[i].name@, "renderD"@) ==> (
        nodes[i].driver matches Some(driver) && path::file_name_text(driver@) == Some("nvidia"@)),
        (forall|j: int| 0 <= j < nodes.len() ==> !text::starts_with((#[trigger] nodes[j]).name@, "renderD"@))
            ==> !only_nvidia(nodes),
        0 <= i < nodes.len() && text::starts_with(nodes[i].name@, "renderD"@) && (forall|j: int|
            0 <= j < nodes.len() && text::starts_with((#[trigger] nodes[j]).name@, "renderD"@) ==> (
            nodes[j].driver matches Some(driver) && path::file_name_text(driver@) == Some("nvidia"@)))
            ==> only_nvidia(nodes),
{
    if 0 <= i < nodes.len() && text::starts_with(nodes[i].name@, "renderD"@) {
        assert(is_render_node(nodes[i]));
    }
    assert forall|j: int| 0 <= j < nodes.len() implies is_render_node(#[trigger] nodes[j]) == text::starts_with(
        nodes[j].name@,
        "renderD"@,
    ) by {}
}

/// The vendor file is the first whose name ends in `.json` and holds `nvidia`, and there is none
/// exactly where no name does.
pub proof fn the_first_vendor_file_is_taken(names: Seq<Seq<char>>, from: int)
    requires
        0 <= from,
    ensures
        match vendor_from(names, from) {
            Some(at) => from <= at < names.len() && text::ends_with(names[at], ".json"@) && text::contains(
                names[at],
                "nvidia"@,
            ) && names[at].len() > 5 && forall|j: int|
                from <= j < at ==> !(text::ends_with(#[trigger] names[j], ".json"@) && text::contains(
                    names[j],
                    "nvidia"@,
                ) && names[j].len() > 5),
            None => forall|j: int|
                from <= j < names.len() ==> !(text::ends_with(#[trigger] names[j], ".json"@) && text::contains(
                    names[j],
                    "nvidia"@,
                ) && names[j].len() > 5),
        },
    decreases names.len() - from,
{
    if from < names.len() && !is_nvidia_vendor(names[from]) {
        the_first_vendor_file_is_taken(names, from + 1);
    }
}

/// A renderer is always told its instance and its config, the profile and the vendor file exactly
/// where there is one, and the verbosity exactly where it says something; nothing else.
pub proof fn a_renderer_is_told_what_was_asked_for(
    names: EnvNames,
    instance_dir: Seq<char>,
    config_dir: Seq<char>,
    profile: Option<u64>,
    verbose: u8,
    egl_vendor: Option<Seq<char>>,
)
    ensures
        ({
            let env = told(names, instance_dir, config_dir, profile, verbose, egl_vendor);
            &&& env.len() == 2 + (if profile is Some {
                1int
            } else {
                0
            }) + (if egl_vendor is Some {
                1int
            } else {
                0
            }) + (if verbose > 0 {
                1int
            } else {
                0
            })
            &&& env[0] == (names.instance_dir@, instance_dir)
            &&& env[1] == (names.config_dir@, config_dir)
            &&& profile matches Some(secs) ==> env.contains((names.profile@, text::decimal(secs as nat)))
            &&& egl_vendor matches Some(file) ==> env.contains(("__EGL_VENDOR_LIBRARY_FILENAMES"@, file))
            &&& verbose > 0 ==> env.last() == (names.verbose@, text::decimal(verbose as nat))
        }),
{
    let env = told(names, instance_dir, config_dir, profile, verbose, egl_vendor);
    if profile is Some {
        assert(env[2] == (names.profile@, text::decimal(profile->Some_0 as nat)));
    }
    if egl_vendor is Some {
        let at = if profile is Some {
            3int
        } else {
            2
        };
        assert(env[at] == ("__EGL_VENDOR_LIBRARY_FILENAMES"@, egl_vendor->Some_0));
    }
}

/// A departure is reported by how it came about.
pub proof fn a_departure_says_how(n: i32)
    ensures
        departure_text(RendererDeparture::Clean) == "exited cleanly"@,
        departure_text(RendererDeparture::Failed { code: n }) == "exited with code "@ + text::signed_decimal(n as int),
        departure_text(RendererDeparture::Signalled { signal: n }) == "was killed by signal "@ + text::signed_decimal(
            n as int,
        ),
{
}

} // verus!
