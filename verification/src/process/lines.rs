//! A child's output, a line at a time, with a ceiling on a line.

use vstd::prelude::*;
use vstd::utf8;

use crate::capabilities::{self, truncate_utf8_bytes};
use crate::text;

verus! {

/// The most bytes one child output line contributes to a frame. A child that never writes a newline
/// would otherwise grow one line without limit, before any frame limit sees it. Past this the line is
/// delivered cut, its tail is dropped, and the next line starts clean.
pub const MAX_LINE_BYTES: usize = 65536;

/// A line without what is past the ceiling.
pub open spec fn cut(line: Seq<u8>) -> Seq<u8> {
    if line.len() > MAX_LINE_BYTES {
        line.subrange(0, MAX_LINE_BYTES as int)
    } else {
        line
    }
}

/// Every line of a list, cut.
pub open spec fn cut_all(lines: Seq<Seq<u8>>) -> Seq<Seq<u8>> {
    Seq::new(lines.len(), |i: int| cut(lines[i]))
}

/// What follows the last newline.
pub open spec fn open_line(bytes: Seq<u8>) -> Seq<u8>
    decreases bytes.len(),
{
    if bytes.len() == 0 || bytes.last() == 0x0a {
        Seq::empty()
    } else {
        open_line(bytes.drop_last()).push(bytes.last())
    }
}

/// The lines that a newline ends, without it.
pub open spec fn ended_lines(bytes: Seq<u8>) -> Seq<Seq<u8>>
    decreases bytes.len(),
{
    if bytes.len() == 0 {
        Seq::empty()
    } else if bytes.last() == 0x0a {
        ended_lines(bytes.drop_last()).push(open_line(bytes.drop_last()))
    } else {
        ended_lines(bytes.drop_last())
    }
}

/// Every line of an output: those a newline ends, and a last one without a newline if it has any
/// bytes.
pub open spec fn all_lines(bytes: Seq<u8>) -> Seq<Seq<u8>> {
    if open_line(bytes).len() > 0 {
        ended_lines(bytes).push(open_line(bytes))
    } else {
        ended_lines(bytes)
    }
}

pub open spec fn byte_views(lines: Seq<Vec<u8>>) -> Seq<Seq<u8>> {
    Seq::new(lines.len(), |i: int| lines[i]@)
}

/// The text `String::from_utf8_lossy` gives for bytes.
pub uninterp spec fn lossy_text(bytes: Seq<u8>) -> Seq<char>;

/// Calls `String::from_utf8_lossy`. The text is a function of the bytes, and bytes that are UTF-8 are
/// read as what they encode.
#[verifier::external_body]
pub(crate) fn decode(bytes: &Vec<u8>) -> (out: String)
    ensures
        out@ == lossy_text(bytes@),
        utf8::valid_utf8(bytes@) ==> out@ == utf8::decode_utf8(bytes@),
{
    String::from_utf8_lossy(bytes).into_owned()
}

/// A line as it is delivered: the text of what is within the ceiling, and of that text the longest
/// start that encodes within it. A stray byte is replaced, by more bytes than it had.
pub open spec fn delivered(line: Seq<u8>) -> Seq<char> {
    capabilities::truncated(lossy_text(cut(line)), MAX_LINE_BYTES as int)
}

/// Every line of a list, delivered.
pub open spec fn delivered_all(lines: Seq<Seq<u8>>) -> Seq<Seq<char>> {
    Seq::new(lines.len(), |i: int| delivered(lines[i]))
}

/// Whether the text of what is within the ceiling passes it.
pub open spec fn text_cut(line: Seq<u8>) -> bool {
    utf8::encode_utf8(lossy_text(cut(line))).len() > MAX_LINE_BYTES
}

/// Whether some line of an output was cut: its bytes passed the ceiling, or its text did when it
/// ended.
pub open spec fn cut_any(bytes: Seq<u8>) -> bool
    decreases bytes.len(),
{
    bytes.len() > 0 && (cut_any(bytes.drop_last()) || (if bytes.last() == 0x0a {
        text_cut(open_line(bytes.drop_last()))
    } else {
        open_line(bytes).len() > MAX_LINE_BYTES
    }))
}

/// A line as it is delivered, and whether its text was cut for it.
fn line_text(line: &Vec<u8>) -> (out: (String, bool))
    requires
        line@.len() <= MAX_LINE_BYTES,
    ensures
        out.0@ == delivered(line@),
        out.1 == text_cut(line@),
        utf8::encode_utf8(out.0@).len() <= MAX_LINE_BYTES,
        utf8::valid_utf8(line@) ==> out.0@ == utf8::decode_utf8(line@),
{
    let text = decode(line);
    proof {
        capabilities::lemma_truncated(text@, MAX_LINE_BYTES as int);
        if utf8::valid_utf8(line@) {
            utf8::decode_utf8_encode_utf8(line@);
        }
    }
    let longer = text.as_str().as_bytes().len() > MAX_LINE_BYTES;
    (truncate_utf8_bytes(text.as_str(), MAX_LINE_BYTES), longer)
}

/// The lines of one output stream. The line under way lives here, so that a read that is given up
/// loses none of it.
#[derive(Debug)]
pub struct BoundedLines {
    /// Never longer than [`MAX_LINE_BYTES`].
    line: Vec<u8>,
    /// Names the stream in the one truncation warning it may log.
    label: String,
    /// Whether a line was cut so far.
    cut: bool,
    /// Whether that warning was given, so that a runaway child says it once, not once per line.
    warned: bool,
}

impl BoundedLines {
    /// The start of the line under way.
    pub closed spec fn open(self) -> Seq<u8> {
        self.line@
    }

    pub closed spec fn spec_label(self) -> Seq<char> {
        self.label@
    }

    pub closed spec fn spec_cut(self) -> bool {
        self.cut
    }

    pub closed spec fn spec_warned(self) -> bool {
        self.warned
    }

    /// The line is within the ceiling and holds no newline.
    pub open spec fn wf(self) -> bool {
        &&& self.open().len() <= MAX_LINE_BYTES
        &&& forall|i: int| 0 <= i < self.open().len() ==> #[trigger] self.open()[i] != 0x0a
    }

    pub fn new(label: String) -> (lines: Self)
        ensures
            lines.wf(),
            lines.open().len() == 0,
            lines.spec_label() == label@,
            !lines.spec_cut(),
            !lines.spec_warned(),
    {
        BoundedLines { line: Vec::new(), label, cut: false, warned: false }
    }

    /// Takes more output; the lines it ends, each within the ceiling. One that is UTF-8 and within it
    /// is what it encodes.
    pub fn feed(&mut self, bytes: &Vec<u8>) -> (lines: Vec<String>)
        requires
            old(self).wf(),
        ensures
            final(self).wf(),
            text::strings(lines@) == delivered_all(ended_lines(old(self).open() + bytes@)),
            forall|i: int|
                0 <= i < lines@.len() ==> utf8::encode_utf8(#[trigger] lines@[i]@).len() <= MAX_LINE_BYTES,
            forall|i: int|
                0 <= i < lines@.len() && utf8::valid_utf8(cut(ended_lines(old(self).open() + bytes@)[i]))
                    ==> #[trigger] lines@[i]@ == utf8::decode_utf8(cut(ended_lines(old(self).open() + bytes@)[i])),
            final(self).open() == cut(open_line(old(self).open() + bytes@)),
            final(self).spec_cut() == (old(self).spec_cut() || cut_any(old(self).open() + bytes@)),
            final(self).spec_label() == old(self).spec_label(),
            final(self).spec_warned() == old(self).spec_warned(),
    {
        let ghost start = self.line@;
        let mut lines: Vec<String> = Vec::new();
        let mut i: usize = 0;
        proof {
            lemma_no_newline(start);
            lemma_cut_any_open(start);
            assert(bytes@.subrange(0, 0) =~= Seq::<u8>::empty());
            assert(start + Seq::<u8>::empty() =~= start);
            assert(text::strings(lines@) =~= Seq::<Seq<char>>::empty());
            assert(delivered_all(ended_lines(start)) =~= Seq::<Seq<char>>::empty());
        }
        while i < bytes.len()
            invariant
                i <= bytes@.len(),
                self.wf(),
                self.label == old(self).label,
                self.warned == old(self).warned,
                text::strings(lines@) == delivered_all(ended_lines(start + bytes@.subrange(0, i as int))),
                forall|k: int|
                    0 <= k < lines@.len() ==> utf8::encode_utf8(#[trigger] lines@[k]@).len() <= MAX_LINE_BYTES,
                forall|k: int|
                    0 <= k < lines@.len() && utf8::valid_utf8(
                        cut(ended_lines(start + bytes@.subrange(0, i as int))[k]),
                    ) ==> #[trigger] lines@[k]@ == utf8::decode_utf8(
                        cut(ended_lines(start + bytes@.subrange(0, i as int))[k]),
                    ),
                self.line@ == cut(open_line(start + bytes@.subrange(0, i as int))),
                self.cut == (old(self).cut || cut_any(start + bytes@.subrange(0, i as int))),
            decreases bytes@.len() - i,
        {
            let ghost before = start + bytes@.subrange(0, i as int);
            let ghost after = start + bytes@.subrange(0, i + 1);
            let ghost known = lines@;
            assert(after.drop_last() =~= before);
            assert(after.last() == bytes@[i as int]);
            assert(text::strings(known).len() == known.len());
            let byte = bytes[i];
            if byte == 0x0a {
                let mut ended: Vec<u8> = Vec::new();
                std::mem::swap(&mut ended, &mut self.line);
                let (line, longer) = line_text(&ended);
                let ghost view = line@;
                assert(cut(ended@) =~= ended@);
                lines.push(line);
                if longer {
                    self.cut = true;
                }
                assert(text::strings(lines@) =~= text::strings(known).push(view));
                assert(delivered_all(ended_lines(after)) =~= delivered_all(ended_lines(before)).push(
                    delivered(open_line(before)),
                ));
                assert forall|k: int| 0 <= k < lines@.len() && utf8::valid_utf8(cut(ended_lines(after)[k])) implies #[trigger] lines@[k]@
                    == utf8::decode_utf8(cut(ended_lines(after)[k])) by {
                    if k < known.len() {
                        assert(lines@[k] == known[k]);
                        assert(ended_lines(after)[k] == ended_lines(before)[k]);
                    }
                }
                assert forall|k: int| 0 <= k < lines@.len() implies utf8::encode_utf8(#[trigger] lines@[k]@).len()
                    <= MAX_LINE_BYTES by {
                    if k < known.len() {
                        assert(lines@[k] == known[k]);
                    }
                }
            } else {
                let ghost held = self.line@;
                if self.line.len() < MAX_LINE_BYTES {
                    self.line.push(byte);
                    assert(self.line@ =~= cut(open_line(after)));
                    assert forall|k: int| 0 <= k < self.open().len() implies #[trigger] self.open()[k] != 0x0a by {
                        if k < held.len() {
                            assert(held[k] != 0x0a);
                        }
                    }
                } else {
                    self.cut = true;
                    assert(self.line@ =~= cut(open_line(after)));
                }
            }
            i += 1;
        }
        assert(bytes@.subrange(0, i as int) =~= bytes@);
        lines
    }

    /// The output ended. A child that exits without a last newline still wrote a line.
    pub fn finish(&mut self) -> (line: Option<String>)
        requires
            old(self).wf(),
        ensures
            final(self).wf(),
            final(self).open().len() == 0,
            final(self).spec_label() == old(self).spec_label(),
            final(self).spec_warned() == old(self).spec_warned(),
            final(self).spec_cut() == (old(self).spec_cut() || old(self).open().len() > 0 && text_cut(
                old(self).open(),
            )),
            match line {
                None => old(self).open().len() == 0,
                Some(line) => {
                    &&& old(self).open().len() > 0
                    &&& line@ == delivered(old(self).open())
                    &&& utf8::encode_utf8(line@).len() <= MAX_LINE_BYTES
                    &&& utf8::valid_utf8(old(self).open()) ==> line@ == utf8::decode_utf8(old(self).open())
                },
            },
    {
        if self.line.len() == 0 {
            return None;
        }
        let mut last: Vec<u8> = Vec::new();
        std::mem::swap(&mut last, &mut self.line);
        let (line, longer) = line_text(&last);
        if longer {
            self.cut = true;
        }
        Some(line)
    }

    /// The warning to log once a line was cut, the first time only.
    pub fn warning(&mut self) -> (message: Option<String>)
        ensures
            final(self).open() == old(self).open(),
            final(self).spec_label() == old(self).spec_label(),
            final(self).spec_cut() == old(self).spec_cut(),
            final(self).spec_warned() == (old(self).spec_warned() || old(self).spec_cut()),
            text::optional(message) == (if !old(self).spec_warned() && old(self).spec_cut() {
                Some(
                    old(self).spec_label() + ": a line exceeded 65536 bytes and was truncated; further truncations on this stream are not reported"@,
                )
            } else {
                None
            }),
    {
        if self.warned || !self.cut {
            return None;
        }
        self.warned = true;
        Some(
            self.label.clone().concat(
                ": a line exceeded 65536 bytes and was truncated; further truncations on this stream are not reported",
            ),
        )
    }
}

proof fn lemma_no_newline(bytes: Seq<u8>)
    requires
        forall|i: int| 0 <= i < bytes.len() ==> #[trigger] bytes[i] != 0x0a,
    ensures
        ended_lines(bytes) == Seq::<Seq<u8>>::empty(),
        open_line(bytes) == bytes,
    decreases bytes.len(),
{
    if bytes.len() > 0 {
        lemma_no_newline(bytes.drop_last());
        assert(bytes.drop_last().push(bytes.last()) =~= bytes);
    }
}

/// Cutting the line under way changes no line that comes of it, only drops bytes that would be cut
/// later.
proof fn lemma_cut_early(line: Seq<u8>, bytes: Seq<u8>)
    requires
        forall|i: int| 0 <= i < line.len() ==> #[trigger] line[i] != 0x0a,
    ensures
        cut_all(ended_lines(cut(line) + bytes)) == cut_all(ended_lines(line + bytes)),
        cut(open_line(cut(line) + bytes)) == cut(open_line(line + bytes)),
    decreases bytes.len(),
{
    if bytes.len() == 0 {
        assert(cut(line) + bytes =~= cut(line));
        assert(line + bytes =~= line);
        lemma_no_newline(line);
        lemma_no_newline(cut(line));
    } else {
        let short = cut(line) + bytes;
        let long = line + bytes;
        assert(short.drop_last() =~= cut(line) + bytes.drop_last());
        assert(long.drop_last() =~= line + bytes.drop_last());
        lemma_cut_early(line, bytes.drop_last());
        let a = open_line(short.drop_last());
        let b = open_line(long.drop_last());
        if bytes.last() == 0x0a {
            assert(cut_all(ended_lines(short)) =~= cut_all(ended_lines(short.drop_last())).push(cut(a)));
            assert(cut_all(ended_lines(long)) =~= cut_all(ended_lines(long.drop_last())).push(cut(b)));
        } else {
            assert(cut(a.push(bytes.last())) =~= cut(b.push(bytes.last()))) by {
                assert(cut(a) == cut(b));
                assert(cut(a).len() == cut(b).len());
                assert forall|k: int|
                    0 <= k < cut(a.push(bytes.last())).len() && k < cut(b.push(bytes.last())).len() implies cut(
                    a.push(bytes.last()),
                )[k] == cut(b.push(bytes.last()))[k] by {
                    if k < cut(a).len() {
                        assert(cut(a)[k] == cut(b)[k]);
                    }
                }
            }
        }
    }
}

proof fn lemma_after(head: Seq<u8>, tail: Seq<u8>)
    ensures
        ended_lines(head + tail) == ended_lines(head) + ended_lines(open_line(head) + tail),
        open_line(head + tail) == open_line(open_line(head) + tail),
    decreases tail.len(),
{
    lemma_open_has_no_newline(head);
    if tail.len() == 0 {
        assert(head + tail =~= head);
        assert(open_line(head) + tail =~= open_line(head));
        lemma_no_newline(open_line(head));
        assert(ended_lines(head) + Seq::<Seq<u8>>::empty() =~= ended_lines(head));
    } else {
        lemma_after(head, tail.drop_last());
        assert((head + tail).drop_last() =~= head + tail.drop_last());
        assert((open_line(head) + tail).drop_last() =~= open_line(head) + tail.drop_last());
        if tail.last() == 0x0a {
            assert(ended_lines(head + tail) =~= ended_lines(head) + ended_lines(open_line(head) + tail));
        }
    }
}

proof fn lemma_open_has_no_newline(bytes: Seq<u8>)
    ensures
        forall|i: int| 0 <= i < open_line(bytes).len() ==> #[trigger] open_line(bytes)[i] != 0x0a,
    decreases bytes.len(),
{
    if bytes.len() > 0 && bytes.last() != 0x0a {
        lemma_open_has_no_newline(bytes.drop_last());
        let head = open_line(bytes.drop_last());
        assert forall|i: int| 0 <= i < open_line(bytes).len() implies #[trigger] open_line(bytes)[i] != 0x0a by {
            if i < head.len() {
                assert(open_line(bytes)[i] == head[i]);
            }
        }
    }
}

/// The line under way is all of itself that is under way.
pub proof fn lemma_open_line_is_open(bytes: Seq<u8>)
    ensures
        open_line(open_line(bytes)) == open_line(bytes),
        ended_lines(open_line(bytes)).len() == 0,
{
    lemma_open_has_no_newline(bytes);
    lemma_no_newline(open_line(bytes));
}

proof fn lemma_cut_any_after(head: Seq<u8>, tail: Seq<u8>)
    ensures
        cut_any(head + tail) == (cut_any(head) || cut_any(open_line(head) + tail)),
        open_line(head).len() > MAX_LINE_BYTES ==> cut_any(head),
    decreases head.len(), tail.len(),
{
    lemma_open_has_no_newline(head);
    if tail.len() == 0 {
        assert(head + tail =~= head);
        assert(open_line(head) + tail =~= open_line(head));
        if head.len() > 0 {
            lemma_cut_any_after(head.drop_last(), tail);
            assert(head.drop_last() + tail =~= head.drop_last());
        }
        lemma_cut_any_open(open_line(head));
    } else {
        lemma_cut_any_after(head, tail.drop_last());
        lemma_after(head, tail);
        lemma_after(head, tail.drop_last());
        assert((head + tail).drop_last() =~= head + tail.drop_last());
        assert((open_line(head) + tail).drop_last() =~= open_line(head) + tail.drop_last());
    }
}

/// A line under way was cut exactly where it passes the ceiling.
proof fn lemma_cut_any_open(line: Seq<u8>)
    requires
        forall|i: int| 0 <= i < line.len() ==> #[trigger] line[i] != 0x0a,
    ensures
        cut_any(line) == (line.len() > MAX_LINE_BYTES),
    decreases line.len(),
{
    lemma_no_newline(line);
    if line.len() > 0 {
        assert forall|i: int| 0 <= i < line.drop_last().len() implies #[trigger] line.drop_last()[i] != 0x0a by {
            assert(line[i] != 0x0a);
        }
        lemma_cut_any_open(line.drop_last());
    }
}

/// How the output arrives does not matter: what two feeds give is what one feed of both gives, it
/// leaves the same line under way, and a line that was cut is known either way.
pub proof fn two_feeds_are_one(open: Seq<u8>, first: Seq<u8>, second: Seq<u8>)
    ensures
        delivered_all(ended_lines(open + first)) + delivered_all(
            ended_lines(cut(open_line(open + first)) + second),
        ) == delivered_all(ended_lines(open + (first + second))),
        cut(open_line(cut(open_line(open + first)) + second)) == cut(open_line(open + (first + second))),
        (cut_any(open + first) || cut_any(cut(open_line(open + first)) + second)) == cut_any(
            open + (first + second),
        ),
{
    let head = open + first;
    assert(open + (first + second) =~= head + second);
    lemma_after(head, second);
    lemma_open_has_no_newline(head);
    lemma_cut_early(open_line(head), second);
    let early = ended_lines(cut(open_line(head)) + second);
    let late = ended_lines(open_line(head) + second);
    assert(delivered_all(early) =~= delivered_all(late)) by {
        assert(cut_all(early).len() == cut_all(late).len());
        assert forall|i: int| 0 <= i < early.len() implies delivered_all(early)[i] == delivered_all(late)[i] by {
            assert(cut_all(early)[i] == cut_all(late)[i]);
        }
    }
    assert(delivered_all(ended_lines(head + second)) =~= delivered_all(ended_lines(head)) + delivered_all(late));
    lemma_cut_any_after(head, second);
}

/// A whole output, fed and finished, gives its lines, the next one after a cut one starting clean.
/// Each encodes to no more bytes than the ceiling.
pub proof fn an_output_gives_its_lines(output: Seq<u8>)
    ensures
        delivered_all(all_lines(output)) == (if cut(open_line(output)).len() > 0 {
            delivered_all(ended_lines(output)).push(delivered(cut(open_line(output))))
        } else {
            delivered_all(ended_lines(output))
        }),
        forall|i: int|
            0 <= i < all_lines(output).len() ==> utf8::encode_utf8(
                #[trigger] delivered_all(all_lines(output))[i],
            ).len() <= MAX_LINE_BYTES,
{
    assert(cut(cut(open_line(output))) =~= cut(open_line(output)));
    assert(delivered_all(all_lines(output)) =~= (if cut(open_line(output)).len() > 0 {
        delivered_all(ended_lines(output)).push(delivered(cut(open_line(output))))
    } else {
        delivered_all(ended_lines(output))
    }));
    assert forall|i: int| 0 <= i < all_lines(output).len() implies utf8::encode_utf8(
        #[trigger] delivered_all(all_lines(output))[i],
    ).len() <= MAX_LINE_BYTES by {
        capabilities::lemma_truncated(lossy_text(cut(all_lines(output)[i])), MAX_LINE_BYTES as int);
    }
}

/// A line that passes the ceiling is known as cut, whatever stands around it.
pub proof fn an_over_long_line_is_known(output: Seq<u8>, i: int)
    requires
        0 <= i < all_lines(output).len(),
        all_lines(output)[i].len() > MAX_LINE_BYTES,
    ensures
        cut_any(output),
    decreases output.len(),
{
    if output.len() > 0 {
        let shorter = output.drop_last();
        lemma_cut_any_after(output, Seq::empty());
        lemma_cut_any_after(shorter, Seq::empty());
        if i < ended_lines(shorter).len() {
            assert(ended_lines(output)[i] == ended_lines(shorter)[i]);
            an_over_long_line_is_known(shorter, i);
        }
    }
}

} // verus!
