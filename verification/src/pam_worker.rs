//! The rules of a PAM conversation: which service stack answers, how frames are cut, what each
//! message leads to, and what the outcome of every way a conversation can end is.
//!
//! The blocking conversation runs in a worker of its own, which relays masked prompts over its
//! standard streams; polkit's own helper speaks a line protocol instead.

use vstd::prelude::*;

use crate::capabilities::lock::state::PamOutcome;
use crate::text;

verus! {

/// Admin PAM service-stack directory.
pub const PAM_CONFIG_DIR: &'static str = "/etc/pam.d";

/// PAM 1.7+ vendor stack directory, where a package (not an admin) installs a stack.
pub const PAM_VENDOR_DIR: &'static str = "/usr/lib/pam.d";

/// Service name of the installed stack.
pub const MANTLE_SERVICE: &'static str = "mantle";

/// The service used when that stack is not installed.
pub const FALLBACK_SERVICE: &'static str = "login";

/// Path this process re-execs to reach its worker branch. The magic link, not the pathname it reads
/// as: executing the link resolves to the file this process already holds, even after an upgrade
/// replaced it.
pub const SELF_EXE: &'static str = "/proc/self/exe";

/// Polkit's helper, which the system starts as root for each connection.
pub const POLKIT_HELPER_SOCKET: &'static str = "/run/polkit/agent-helper.socket";

/// Seconds the whole worker exchange may take, not one PAM call: PAM may be human-paced.
pub const PAM_EXCHANGE_TIMEOUT: u64 = 30;

/// The service to authenticate with: the installed stack, otherwise the console login's. Naming a
/// stack that is not there would select PAM's own fallback, which rejects every correct password.
/// Both directories that libpam itself would read count.
pub fn pam_service_in(in_config_dir: bool, in_vendor_dir: bool) -> (service: &'static str)
    ensures
        service@ == (if in_config_dir || in_vendor_dir {
            MANTLE_SERVICE@
        } else {
            FALLBACK_SERVICE@
        }),
{
    if in_config_dir || in_vendor_dir {
        MANTLE_SERVICE
    } else {
        FALLBACK_SERVICE
    }
}

// ---- frames ----

/// One message between the supervisor and its worker.
#[derive(Debug, PartialEq, Eq)]
pub enum PamMessage {
    Prompt { text: String, echo: bool },
    Response { secret: Vec<u8> },
    Outcome(PamOutcome),
}

/// A length as four bytes, most significant first.
#[verifier::opaque]
pub open spec fn length_bytes(len: nat) -> Seq<u8> {
    seq![
        (len / 16777216 % 256) as u8,
        (len / 65536 % 256) as u8,
        (len / 256 % 256) as u8,
        (len % 256) as u8,
    ]
}

/// The length four bytes give, most significant first.
pub open spec fn length_of(bytes: Seq<u8>) -> nat {
    (bytes[0] * 16777216 + bytes[1] * 65536 + bytes[2] * 256 + bytes[3]) as nat
}

/// A length reads back as it was written.
pub proof fn lemma_length_reads_back(len: nat)
    requires
        len <= u32::MAX,
    ensures
        length_bytes(len).len() == 4,
        length_of(length_bytes(len)) == len,
{
    reveal(length_bytes);
    let a = len / 16777216 % 256;
    let b = len / 65536 % 256;
    let c = len / 256 % 256;
    let d = len % 256;
    assert(a * 16777216 + b * 65536 + c * 256 + d == len);
}

/// A message's frame.
pub open spec fn framed(payload: Seq<u8>) -> Seq<u8> {
    length_bytes(payload.len()) + payload
}

/// The error of a length over the limit.
pub open spec fn too_long(len: nat) -> Seq<char> {
    "frame length "@ + text::decimal(len) + " exceeds the limit"@
}

fn too_long_text(len: u64) -> (message: String)
    ensures
        message@ == too_long(len as nat),
{
    let n = text::decimal_of(len);
    "frame length ".to_owned().concat(n.as_str()).concat(" exceeds the limit")
}

/// The frame of a serialized message: its length and its bytes. `max_len` is the limit both sides
/// hold to.
pub fn write_frame(payload: &Vec<u8>, max_len: u32) -> (frame: Result<Vec<u8>, String>)
    ensures
        if payload@.len() > max_len {
            frame matches Err(message) && message@ == too_long(payload@.len())
        } else {
            frame matches Ok(bytes) && bytes@ == framed(payload@)
        },
{
    let n: usize = payload.len();
    if n as u64 > max_len as u64 {
        return Err(too_long_text(n as u64));
    }
    let len: u32 = n as u32;
    let mut bytes: Vec<u8> = Vec::new();
    bytes.push((len / 16777216 % 256) as u8);
    bytes.push((len / 65536 % 256) as u8);
    bytes.push((len / 256 % 256) as u8);
    bytes.push((len % 256) as u8);
    assert(bytes@ =~= length_bytes(payload@.len())) by {
        reveal(length_bytes);
    }
    let mut body = payload.clone();
    assert(body@ =~= payload@);
    bytes.append(&mut body);
    assert(bytes@ =~= framed(payload@));
    Ok(bytes)
}

/// What the bytes read so far come to.
#[derive(Debug, PartialEq, Eq)]
pub enum FrameRead {
    /// This many more bytes are owed before more can be said.
    Partial(u64),
    /// The message's bytes, and how many bytes the frame took.
    Payload(Vec<u8>, usize),
    TooLong(String),
}

/// Reads a frame at the start of `bytes`.
pub fn read_frame(bytes: &Vec<u8>, max_len: u32) -> (read: FrameRead)
    ensures
        if bytes@.len() < 4 {
            read == FrameRead::Partial((4 - bytes@.len()) as u64)
        } else if length_of(bytes@) > max_len {
            read matches FrameRead::TooLong(message) && message@ == too_long(length_of(bytes@))
        } else if bytes@.len() < 4 + length_of(bytes@) {
            read == FrameRead::Partial((4 + length_of(bytes@) - bytes@.len()) as u64)
        } else {
            read matches FrameRead::Payload(payload, taken) && payload@ == bytes@.subrange(
                4,
                4 + length_of(bytes@) as int,
            ) && taken == 4 + length_of(bytes@)
        },
{
    if bytes.len() < 4 {
        return FrameRead::Partial((4 - bytes.len()) as u64);
    }
    let len: u64 = bytes[0] as u64 * 16777216 + bytes[1] as u64 * 65536 + bytes[2] as u64 * 256 + bytes[3] as u64;
    assert(len == length_of(bytes@));
    if len > max_len as u64 {
        return FrameRead::TooLong(too_long_text(len));
    }
    let had: u64 = (bytes.len() - 4) as u64;
    if had < len {
        return FrameRead::Partial(len - had);
    }
    let n: usize = len as usize;
    let mut payload: Vec<u8> = Vec::new();
    let mut i: usize = 0;
    while i < n
        invariant
            i <= n,
            n + 4 <= bytes@.len(),
            payload@ == bytes@.subrange(4, 4 + i),
        decreases n - i,
    {
        assert(4 + i < bytes.len());
        payload.push(bytes[4 + i]);
        assert(payload@ =~= bytes@.subrange(4, 4 + i + 1));
        i += 1;
    }
    FrameRead::Payload(payload, 4 + n)
}

/// A frame reads back as the message it was written for, whatever follows it.
pub proof fn a_frame_reads_back(payload: Seq<u8>, rest: Seq<u8>)
    requires
        payload.len() <= u32::MAX,
    ensures
        (framed(payload) + rest).len() >= 4 + payload.len(),
        length_of(framed(payload) + rest) == payload.len(),
        (framed(payload) + rest).subrange(4, 4 + payload.len() as int) == payload,
{
    lemma_length_reads_back(payload.len());
    let bytes = framed(payload) + rest;
    let prefix = length_bytes(payload.len());
    assert(bytes[0] == prefix[0] && bytes[1] == prefix[1] && bytes[2] == prefix[2] && bytes[3] == prefix[3]);
    assert(bytes.subrange(4, 4 + payload.len() as int) =~= payload);
}

// ---- the worker's side ----

/// What the worker asks for a prompt of PAM's. An echo-on prompt has no safe answer: PAM treats its
/// answer as displayable, and the only secret held is the lock password. Refusing keeps the password
/// out of a channel PAM considers no secret.
pub fn relayed_prompt(text: &str, echo: bool) -> (message: Option<PamMessage>)
    ensures
        if echo {
            message is None
        } else {
            message matches Some(PamMessage::Prompt { text: asked, echo: shown }) && asked@ == text@ && !shown
        },
{
    if echo {
        None
    } else {
        Some(PamMessage::Prompt { text: text.to_owned(), echo: false })
    }
}

/// The secret that answers a relayed prompt; `None` is a conversation error.
pub fn relayed_answer(reply: Option<PamMessage>) -> (secret: Option<Vec<u8>>)
    ensures
        secret == (match reply {
            Some(PamMessage::Response { secret }) => Some(secret),
            _ => None,
        }),
{
    match reply {
        Some(PamMessage::Response { secret }) => Some(secret),
        _ => None,
    }
}

/// The outcome of a PAM failure, by the name of its code.
pub open spec fn failure_outcome(code: Seq<char>, outcome: PamOutcome) -> bool {
    if code == "MaxTries"@ {
        outcome is MaxTries
    } else if code == "AuthenticationError"@ || code == "PermissionDenied"@ || code == "UserUnknown"@ || code
        == "CredentialsInsufficient"@ || code == "CredentialsExpired"@ {
        outcome is AuthFailed
    } else {
        outcome matches PamOutcome::PamError(text) && text@ == code
    }
}

/// Maps a PAM failure to the outcome the supervisor handles.
pub fn outcome_for_error(code: &str) -> (outcome: PamOutcome)
    ensures
        failure_outcome(code@, outcome),
{
    if text::same(code, "MaxTries") {
        PamOutcome::MaxTries
    } else if text::same(code, "AuthenticationError") || text::same(code, "PermissionDenied") || text::same(
        code,
        "UserUnknown",
    ) || text::same(code, "CredentialsInsufficient") || text::same(code, "CredentialsExpired") {
        PamOutcome::AuthFailed
    } else {
        PamOutcome::PamError(code.to_owned())
    }
}

/// The outcome of a conversation: whether it started, whether the password was accepted, and whether
/// the account may be used, each with the name of its failure. A step after a failed one did not run
/// and is not looked at.
pub fn conversation_outcome(
    started: &Result<(), String>,
    authenticated: &Result<(), String>,
    account: &Result<(), String>,
) -> (outcome: PamOutcome)
    ensures
        match (started, authenticated, account) {
            (Err(code), _, _) => outcome matches PamOutcome::StartFailed(text) && text@ == code@,
            (Ok(_), Err(code), _) => failure_outcome(code@, outcome),
            (Ok(_), Ok(_), Err(code)) => failure_outcome(code@, outcome),
            (Ok(_), Ok(_), Ok(_)) => outcome is Success,
        },
{
    if let Err(code) = started {
        return PamOutcome::StartFailed(code.clone());
    }
    if let Err(code) = authenticated {
        return outcome_for_error(code.as_str());
    }
    if let Err(code) = account {
        return outcome_for_error(code.as_str());
    }
    PamOutcome::Success
}

/// Only a conversation whose every step succeeded ends in success.
pub proof fn only_a_whole_conversation_succeeds(code: Seq<char>, outcome: PamOutcome)
    requires
        failure_outcome(code, outcome),
    ensures
        !(outcome is Success),
{
}

// ---- the supervisor's side ----

/// What a message from the worker leads to.
#[derive(Debug, PartialEq, Eq)]
pub enum ExchangeStep {
    /// Answer with the secret: the lock has one password, so every prompt gets it.
    Answer,
    Done(PamOutcome),
    Fail(String),
}

/// The next step of an exchange with the worker. A response from it is a violation of the protocol.
pub fn exchange_step(message: Result<PamMessage, String>) -> (step: ExchangeStep)
    ensures
        match message {
            Err(reason) => step == ExchangeStep::Fail(reason),
            Ok(PamMessage::Outcome(outcome)) => step == ExchangeStep::Done(outcome),
            Ok(PamMessage::Prompt { .. }) => step is Answer,
            Ok(PamMessage::Response { .. }) => step matches ExchangeStep::Fail(text) && text@
                == "the worker sent a Response, which is the Supervisor's to send"@,
        },
{
    match message {
        Err(reason) => ExchangeStep::Fail(reason),
        Ok(PamMessage::Outcome(outcome)) => ExchangeStep::Done(outcome),
        Ok(PamMessage::Prompt { .. }) => ExchangeStep::Answer,
        Ok(PamMessage::Response { .. }) => ExchangeStep::Fail(
            "the worker sent a Response, which is the Supervisor's to send".to_owned(),
        ),
    }
}

/// How a reaped worker ended: its signal, its code, and how its status reads.
#[derive(Debug, Clone, PartialEq, Eq)]
pub struct WorkerEnd {
    pub signal: Option<i32>,
    pub code: Option<i32>,
    pub status: String,
}

pub open spec fn end_text(reaped: Result<WorkerEnd, String>) -> Seq<char> {
    match reaped {
        Err(reason) => "could not be reaped, so how it died is unknown: "@ + reason@,
        Ok(end) => match (end.signal, end.code) {
            (Some(signal), _) => "was killed by signal "@ + text::signed_decimal(signal as int),
            (None, Some(code)) => "exited with status "@ + text::signed_decimal(code as int),
            (None, None) => "ended in a way no exit status describes: "@ + end.status@,
        },
    }
}

/// How the worker died, for an exchange that never got a frame.
pub fn post_mortem(reaped: &Result<WorkerEnd, String>) -> (account: String)
    ensures
        account@ == end_text(*reaped),
{
    let end = match reaped {
        Err(reason) => return "could not be reaped, so how it died is unknown: ".to_owned().concat(
            reason.as_str(),
        ),
        Ok(end) => end,
    };
    if let Some(signal) = end.signal {
        let n = text::signed_decimal_of(signal as i64);
        return "was killed by signal ".to_owned().concat(n.as_str());
    }
    match end.code {
        Some(code) => {
            let n = text::signed_decimal_of(code as i64);
            "exited with status ".to_owned().concat(n.as_str())
        },
        None => "ended in a way no exit status describes: ".to_owned().concat(end.status.as_str()),
    }
}

/// The result of an exchange whose worker was reaped; `None` for one that took too long. One that
/// failed carries how the worker died, because the lock screen otherwise reports an I/O error with
/// no subject.
pub fn exchange_over(exchange: Option<Result<PamOutcome, String>>, reaped: &Result<WorkerEnd, String>) -> (result:
    Result<PamOutcome, String>)
    ensures
        match exchange {
            Some(Ok(outcome)) => result == Ok::<PamOutcome, String>(outcome),
            Some(Err(reason)) => result matches Err(message) && message@ == reason@ + "; the worker "@ + end_text(
                *reaped,
            ),
            None => result matches Err(message) && message@ == "pam worker did not respond within the timeout"@
                + "; the worker "@ + end_text(*reaped),
        },
{
    let reason = match exchange {
        Some(Ok(outcome)) => return Ok(outcome),
        Some(Err(reason)) => reason,
        None => "pam worker did not respond within the timeout".to_owned(),
    };
    let account = post_mortem(reaped);
    Err(reason.concat("; the worker ").concat(account.as_str()))
}

/// The result of authenticating a user whom the password database knows, from the exchange with the
/// worker.
pub fn authenticate_uid(exchange: Result<PamOutcome, String>) -> (result: Result<PamOutcome, String>)
    ensures
        match exchange {
            Ok(outcome) => result == Ok::<PamOutcome, String>(outcome),
            Err(reason) => result matches Err(message) && message@ == "pam worker failed: "@ + reason@,
        },
{
    match exchange {
        Ok(outcome) => Ok(outcome),
        Err(reason) => Err("pam worker failed: ".to_owned().concat(reason.as_str())),
    }
}

/// How a conversation with polkit's helper ended.
#[derive(Debug, PartialEq, Eq)]
pub enum HelperEnd {
    /// The socket did not connect.
    Unreachable(String),
    /// The exchange ended, or broke.
    Exchange(Result<PamOutcome, String>),
    /// It took too long.
    Late,
}

/// The result of authenticating through polkit's helper.
pub fn authenticate_via_helper(end: HelperEnd) -> (result: Result<PamOutcome, String>)
    ensures
        match end {
            HelperEnd::Exchange(Ok(outcome)) => result == Ok::<PamOutcome, String>(outcome),
            HelperEnd::Exchange(Err(reason)) => result matches Err(message) && message@
                == "polkit helper exchange failed: "@ + reason@,
            HelperEnd::Unreachable(reason) => result matches Err(message) && message@ == "could not connect to "@
                + POLKIT_HELPER_SOCKET@ + ": "@ + reason@,
            HelperEnd::Late => result matches Err(message) && message@
                == "the polkit helper did not respond within the timeout"@,
        },
{
    match end {
        HelperEnd::Exchange(Ok(outcome)) => Ok(outcome),
        HelperEnd::Exchange(Err(reason)) => Err(
            "polkit helper exchange failed: ".to_owned().concat(reason.as_str()),
        ),
        HelperEnd::Unreachable(reason) => Err(
            "could not connect to ".to_owned().concat(POLKIT_HELPER_SOCKET).concat(": ").concat(reason.as_str()),
        ),
        HelperEnd::Late => Err("the polkit helper did not respond within the timeout".to_owned()),
    }
}

/// The user an id names, from what the password database said.
pub fn username_for(uid: u32, found: Result<Option<String>, String>) -> (name: Result<String, String>)
    ensures
        match found {
            Ok(Some(user)) => name == Ok::<String, String>(user),
            Ok(None) => name matches Err(message) && message@ == "uid "@ + text::decimal(uid as nat)
                + " has no passwd entry"@,
            Err(reason) => name matches Err(message) && message@ == "failed to resolve uid "@ + text::decimal(
                uid as nat,
            ) + ": "@ + reason@,
        },
{
    let id = text::decimal_of(uid as u64);
    match found {
        Ok(Some(user)) => Ok(user),
        Ok(None) => Err("uid ".to_owned().concat(id.as_str()).concat(" has no passwd entry")),
        Err(reason) => Err(
            "failed to resolve uid ".to_owned().concat(id.as_str()).concat(": ").concat(reason.as_str()),
        ),
    }
}

/// The outcome an authentication reports. A failure before PAM is one to start.
pub fn reported(result: Result<PamOutcome, String>) -> (outcome: PamOutcome)
    ensures
        outcome == (match result {
            Ok(outcome) => outcome,
            Err(reason) => PamOutcome::StartFailed(reason),
        }),
{
    match result {
        Ok(outcome) => outcome,
        Err(reason) => PamOutcome::StartFailed(reason),
    }
}

/// The variables that make a re-exec of this binary a worker for a user.
pub fn worker_env(username: &str) -> (env: Vec<(String, String)>)
    ensures
        crate::json::pairs(env@) == seq![("MANTLE_PAM_WORKER"@, "1"@), ("MANTLE_PAM_USERNAME"@, username@)],
{
    let mut env: Vec<(String, String)> = Vec::new();
    env.push(("MANTLE_PAM_WORKER".to_owned(), "1".to_owned()));
    env.push(("MANTLE_PAM_USERNAME".to_owned(), username.to_owned()));
    assert(crate::json::pairs(env@) =~= seq![
        ("MANTLE_PAM_WORKER"@, "1"@),
        ("MANTLE_PAM_USERNAME"@, username@),
    ]);
    env
}

// ---- polkit's helper ----

/// What the supervisor says first: the user's name and the request's cookie, a line each.
pub fn helper_opening(username: &str, cookie: &str) -> (opening: String)
    ensures
        opening@ == username@ + "\n"@ + cookie@ + "\n"@,
{
    username.to_owned().concat("\n").concat(cookie).concat("\n")
}

/// What a line of the helper's leads to.
#[derive(Debug, PartialEq, Eq)]
pub enum HelperStep {
    /// Answer with the secret on a line.
    Answer,
    Verdict(PamOutcome),
    /// A message for the log.
    Note,
    /// The helper closed.
    Fail(String),
}

/// The next step of an exchange with polkit's helper: every prompt is answered with the one password,
/// a verdict ends it, and anything else is logged. `None` is the end of its output.
pub fn drive_helper(line: Option<&str>) -> (step: HelperStep)
    ensures
        match line {
            None => step matches HelperStep::Fail(text) && text@ == "the helper closed without a verdict"@,
            Some(line) => if text::starts_with(line@, "PAM_PROMPT_ECHO_OFF"@) || text::starts_with(
                line@,
                "PAM_PROMPT_ECHO_ON"@,
            ) {
                step is Answer
            } else if line@ == "SUCCESS"@ {
                step == HelperStep::Verdict(PamOutcome::Success)
            } else if line@ == "FAILURE"@ {
                step == HelperStep::Verdict(PamOutcome::AuthFailed)
            } else {
                step is Note
            },
        },
{
    let line = match line {
        Some(line) => line,
        None => return HelperStep::Fail("the helper closed without a verdict".to_owned()),
    };
    if text::str_starts_with(line, "PAM_PROMPT_ECHO_OFF") || text::str_starts_with(line, "PAM_PROMPT_ECHO_ON") {
        HelperStep::Answer
    } else if text::same(line, "SUCCESS") {
        HelperStep::Verdict(PamOutcome::Success)
    } else if text::same(line, "FAILURE") {
        HelperStep::Verdict(PamOutcome::AuthFailed)
    } else {
        HelperStep::Note
    }
}

// ---- one report for each authentication ----

/// The report an authentication owes. The request waits for one outcome and only an outcome ends the
/// wait, so every way the task can end gives exactly one.
#[derive(Debug)]
pub struct ReportOnDrop<T> {
    pending: Option<T>,
}

impl<T> ReportOnDrop<T> {
    /// The tag of the request still owed its report.
    pub closed spec fn owed(self) -> Option<T> {
        self.pending
    }

    pub fn new(tag: T) -> (guard: Self)
        ensures
            guard.owed() == Some(tag),
    {
        ReportOnDrop { pending: Some(tag) }
    }

    /// The one outcome this authentication owes, with its tag; nothing if it was given before.
    pub fn report(&mut self, outcome: PamOutcome) -> (report: Option<(T, PamOutcome)>)
        ensures
            final(self).owed() is None,
            report == (match old(self).owed() {
                Some(tag) => Some((tag, outcome)),
                None => None,
            }),
    {
        match self.pending.take() {
            Some(tag) => Some((tag, outcome)),
            None => None,
        }
    }

    /// The report of a task that ended without giving one: a panic, or a future that was given up.
    pub fn dropped(&mut self) -> (report: Option<(T, PamOutcome)>)
        ensures
            final(self).owed() is None,
            match old(self).owed() {
                Some(tag) => report matches Some((t, PamOutcome::PamError(text))) && t == tag && text@
                    == "pam authentication task ended without reporting an outcome"@,
                None => report is None,
            },
    {
        self.report(
            PamOutcome::PamError("pam authentication task ended without reporting an outcome".to_owned()),
        )
    }
}

/// A password that PAM looked at and refused is a failed attempt, too many of them is that, and every
/// other failure keeps PAM's own name for it: what is no verdict on the password counts as none.
pub proof fn a_failure_is_a_verdict_or_keeps_its_name(code: Seq<char>, outcome: PamOutcome)
    requires
        failure_outcome(code, outcome),
    ensures
        outcome is MaxTries <==> code == "MaxTries"@,
        outcome is AuthFailed <==> code == "AuthenticationError"@ || code == "PermissionDenied"@ || code
            == "UserUnknown"@ || code == "CredentialsInsufficient"@ || code == "CredentialsExpired"@,
        outcome matches PamOutcome::PamError(text) ==> text@ == code,
        !(outcome is StartFailed),
{
    reveal_strlit("MaxTries");
    reveal_strlit("AuthenticationError");
    reveal_strlit("PermissionDenied");
    reveal_strlit("UserUnknown");
    reveal_strlit("CredentialsInsufficient");
    reveal_strlit("CredentialsExpired");
    assert("MaxTries"@[0] == 'M');
    assert("AuthenticationError"@[0] == 'A' && "PermissionDenied"@[0] == 'P' && "UserUnknown"@[0] == 'U'
        && "CredentialsInsufficient"@[0] == 'C' && "CredentialsExpired"@[0] == 'C');
}

/// A worker's end says its signal where one killed it, its status where it exited, and what there is
/// to say otherwise.
pub proof fn an_end_says_how_the_worker_died(end: WorkerEnd, reason: String, signal: i32, code: i32)
    ensures
        end_text(Err(reason)) == "could not be reaped, so how it died is unknown: "@ + reason@,
        end.signal == Some(signal) ==> end_text(Ok(end)) == "was killed by signal "@ + text::signed_decimal(
            signal as int,
        ),
        end.signal is None && end.code == Some(code) ==> end_text(Ok(end)) == "exited with status "@
            + text::signed_decimal(code as int),
        end.signal is None && end.code is None ==> end_text(Ok(end)) == "ended in a way no exit status describes: "@
            + end.status@,
{
}

/// A frame begins with its length, most significant byte first.
pub proof fn a_frame_begins_with_its_length(payload: Seq<u8>)
    requires
        payload.len() <= u32::MAX,
    ensures
        framed(payload).len() == 4 + payload.len(),
        framed(payload)[0] * 16777216 + framed(payload)[1] * 65536 + framed(payload)[2] * 256 + framed(payload)[3]
            == payload.len(),
        framed(payload).subrange(4, framed(payload).len() as int) == payload,
{
    lemma_length_reads_back(payload.len());
    let prefix = length_bytes(payload.len());
    assert(framed(payload)[0] == prefix[0] && framed(payload)[1] == prefix[1] && framed(payload)[2] == prefix[2]
        && framed(payload)[3] == prefix[3]);
    assert(framed(payload).subrange(4, framed(payload).len() as int) =~= payload);
}

/// A frame that is too long is said to be, with its length.
pub proof fn a_frame_too_long_is_said(len: nat)
    ensures
        too_long(len) == "frame length "@ + text::decimal(len) + " exceeds the limit"@,
{
}

} // verus!
