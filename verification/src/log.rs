//! The shell's own output, kept where a run without a terminal can be read from: how it is cut into
//! lines for painting, and when a reader that follows it stops.

use vstd::prelude::*;
use vstd::utf8;

use crate::process::lines;

verus! {

/// Milliseconds between looks for new bytes while following.
pub const POLL: u64 = 200;

/// The lines a newline ends, each with it.
pub open spec fn whole_lines(bytes: Seq<u8>) -> Seq<Seq<u8>> {
    Seq::new(lines::ended_lines(bytes).len(), |i: int| lines::ended_lines(bytes)[i].push(0x0au8))
}

/// Lines one after the other.
pub open spec fn laid_out(list: Seq<Seq<u8>>) -> Seq<u8>
    decreases list.len(),
{
    if list.len() == 0 {
        Seq::empty()
    } else {
        laid_out(list.drop_last()) + list.last()
    }
}

/// Cutting an output into whole lines and an unfinished one loses no byte and moves none.
pub proof fn painting_loses_no_byte(bytes: Seq<u8>)
    ensures
        laid_out(whole_lines(bytes)) + lines::open_line(bytes) == bytes,
    decreases bytes.len(),
{
    if bytes.len() > 0 {
        let before = bytes.drop_last();
        let shown = laid_out(whole_lines(before));
        let open = lines::open_line(before);
        painting_loses_no_byte(before);
        if bytes.last() == 0x0a {
            let line = lines::open_line(before).push(0x0au8);
            assert(whole_lines(bytes) =~= whole_lines(before).push(line));
            assert(whole_lines(bytes).drop_last() =~= whole_lines(before));
            assert(laid_out(whole_lines(bytes)) == shown + line);
            assert(shown + line + Seq::<u8>::empty() =~= (shown + open).push(0x0au8));
            assert(before.push(bytes.last()) =~= bytes);
        } else {
            assert(whole_lines(bytes) =~= whole_lines(before));
            assert(shown + open.push(bytes.last()) =~= (shown + open).push(bytes.last()));
            assert(before.push(bytes.last()) =~= bytes);
        }
    } else {
        assert(whole_lines(bytes) =~= Seq::<Seq<u8>>::empty());
        assert(laid_out(whole_lines(bytes)) + lines::open_line(bytes) =~= bytes);
    }
}

/// Takes more of the output; the whole lines to paint. `pending` holds a line split across two
/// reads, which following produces whenever it catches the writer mid-line.
pub fn paint(bytes: &Vec<u8>, pending: &mut Vec<u8>) -> (whole: Vec<Vec<u8>>)
    requires
        lines::open_line(old(pending)@) == old(pending)@,
        lines::ended_lines(old(pending)@).len() == 0,
    ensures
        lines::byte_views(whole@) == whole_lines(old(pending)@ + bytes@),
        final(pending)@ == lines::open_line(old(pending)@ + bytes@),
        lines::open_line(final(pending)@) == final(pending)@,
        lines::ended_lines(final(pending)@).len() == 0,
{
    let ghost start = pending@;
    let mut whole: Vec<Vec<u8>> = Vec::new();
    let mut i: usize = 0;
    proof {
        assert(bytes@.subrange(0, 0) =~= Seq::<u8>::empty());
        assert(start + bytes@.subrange(0, 0) =~= start);
        assert(whole_lines(start) =~= Seq::<Seq<u8>>::empty());
        assert(lines::byte_views(whole@) =~= Seq::<Seq<u8>>::empty());
    }
    while i < bytes.len()
        invariant
            i <= bytes@.len(),
            lines::byte_views(whole@) == whole_lines(start + bytes@.subrange(0, i as int)),
            pending@ == lines::open_line(start + bytes@.subrange(0, i as int)),
        decreases bytes@.len() - i,
    {
        let ghost before = start + bytes@.subrange(0, i as int);
        let ghost after = start + bytes@.subrange(0, i + 1);
        let ghost known = whole@;
        assert(after.drop_last() =~= before);
        assert(after.last() == bytes@[i as int]);
        let byte = bytes[i];
        if byte == 0x0a {
            let mut line: Vec<u8> = Vec::new();
            std::mem::swap(&mut line, pending);
            line.push(0x0a);
            let ghost view = line@;
            whole.push(line);
            assert(lines::byte_views(whole@) =~= lines::byte_views(known).push(view));
            assert(whole_lines(after) =~= whole_lines(before).push(view));
        } else {
            pending.push(byte);
            assert(whole_lines(after) =~= whole_lines(before));
        }
        i += 1;
    }
    proof {
        assert(bytes@.subrange(0, i as int) =~= bytes@);
        lines::lemma_open_line_is_open(start + bytes@);
    }
    whole
}

/// Calls `std::str::from_utf8`: a text exactly where the bytes are UTF-8, and what they encode.
#[verifier::external_body]
pub(crate) fn utf8_text(bytes: &Vec<u8>) -> (text: Option<String>)
    ensures
        text is Some <==> utf8::valid_utf8(bytes@),
        text matches Some(text) ==> text@ == utf8::decode_utf8(bytes@),
{
    std::str::from_utf8(bytes).ok().map(|text| text.to_owned())
}

/// A line as text to paint; one that is not UTF-8 is shown as it is.
pub fn paintable(line: &Vec<u8>) -> (text: Option<String>)
    ensures
        text is Some <==> utf8::valid_utf8(line@),
        text matches Some(text) ==> text@ == utf8::decode_utf8(line@),
{
    utf8_text(line)
}

/// Why a log cannot be shown: it is not there to be read.
pub fn no_log(path: &str, reason: &str) -> (message: String)
    ensures
        message@ == "no log at "@ + path@ + ": "@ + reason@,
{
    "no log at ".to_owned().concat(path).concat(": ").concat(reason)
}

/// Why a log cannot be shown: its shell never came to hold its directory.
pub fn no_lock(dir: &str, reason: &str) -> (message: String)
    ensures
        message@ == dir@ + " has no lock, so its shell died starting: "@ + reason@,
{
    dir.to_owned().concat(" has no lock, so its shell died starting: ").concat(reason)
}

/// What is said once before a dead run's output, which otherwise looks like a live one's.
pub fn last_run_note(path: &str, locked: bool) -> (note: Option<String>)
    ensures
        crate::text::optional(note) == (if locked {
            None
        } else {
            Some("no shell is writing "@ + path@ + "; this is the last run's output"@)
        }),
{
    if locked {
        None
    } else {
        Some("no shell is writing ".to_owned().concat(path).concat("; this is the last run's output"))
    }
}

/// What goes on from a drained descriptor.
#[derive(Debug, PartialEq, Eq)]
pub enum Onward {
    /// Lines to paint.
    Painted(Vec<Vec<u8>>),
    /// The bytes as they came.
    Plain,
}

/// What a chunk of output becomes beside its copy in the log, which is verbatim: painted lines where
/// the output goes to a terminal, the bytes as they came otherwise.
pub fn pump(bytes: &Vec<u8>, colour: bool, pending: &mut Vec<u8>) -> (onward: Onward)
    requires
        lines::open_line(old(pending)@) == old(pending)@,
        lines::ended_lines(old(pending)@).len() == 0,
    ensures
        lines::open_line(final(pending)@) == final(pending)@,
        lines::ended_lines(final(pending)@).len() == 0,
        if colour {
            &&& onward matches Onward::Painted(whole) && lines::byte_views(whole@) == whole_lines(
                old(pending)@ + bytes@,
            )
            &&& final(pending)@ == lines::open_line(old(pending)@ + bytes@)
        } else {
            onward is Plain && final(pending)@ == old(pending)@
        },
{
    if colour {
        Onward::Painted(paint(bytes, pending))
    } else {
        Onward::Plain
    }
}

/// Where a standard stream goes once the log takes it.
#[derive(Debug, Clone, Copy, PartialEq, Eq, Structural)]
pub enum Capture {
    /// Nothing is lost: the stream becomes the log.
    Redirect,
    /// Someone chose the destination: it gets a copy.
    Tee,
}

pub fn capture(goes_to_dev_null: bool) -> (capture: Capture)
    ensures
        capture == (if goes_to_dev_null {
            Capture::Redirect
        } else {
            Capture::Tee
        }),
{
    if goes_to_dev_null {
        Capture::Redirect
    } else {
        Capture::Tee
    }
}

/// What a reader of the log does after it has shown everything there is.
#[derive(Debug, Clone, Copy, PartialEq, Eq, Structural)]
pub enum PrintStep {
    /// Show a last line that no newline ended, and stop.
    Finish,
    /// Ask whether the writer still holds its lock, and tell [`Follow::asked`].
    Ask,
}

/// A reader that follows the log until its writer leaves.
#[derive(Debug, Clone, Copy, PartialEq, Eq, Structural)]
pub struct Follow {
    pub follow: bool,
    pub writer_left: bool,
}

impl Follow {
    pub fn new(follow: bool) -> (reader: Self)
        ensures
            reader == (Follow { follow, writer_left: false }),
    {
        Follow { follow, writer_left: false }
    }

    pub fn shown(&self) -> (step: PrintStep)
        ensures
            step == (if !self.follow || self.writer_left {
                PrintStep::Finish
            } else {
                PrintStep::Ask
            }),
    {
        if !self.follow || self.writer_left {
            PrintStep::Finish
        } else {
            PrintStep::Ask
        }
    }

    /// Takes the answer; whether to wait before looking again. It is acted on after one more look,
    /// so that a last line written between the look and the writer's exit is still shown.
    pub fn asked(&mut self, locked: bool) -> (wait: bool)
        ensures
            *final(self) == (Follow { writer_left: !locked, ..*old(self) }),
            wait == locked,
    {
        self.writer_left = !locked;
        locked
    }
}

} // verus!
