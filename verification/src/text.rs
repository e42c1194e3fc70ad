//! Text primitives, stated over the characters of a string.

use vstd::prelude::*;

verus! {

/// `String::push` appends one character.
pub assume_specification[ String::push ](s: &mut String, c: char)
    ensures
        final(s)@ == old(s)@.push(c),
;

/// The texts of a list of string slices.
pub open spec fn texts(list: Seq<&str>) -> Seq<Seq<char>> {
    Seq::new(list.len(), |i: int| list[i]@)
}

/// The texts of a list of strings.
pub open spec fn strings(list: Seq<String>) -> Seq<Seq<char>> {
    Seq::new(list.len(), |i: int| list[i]@)
}

/// The text an optional string holds.
pub open spec fn optional(text: Option<String>) -> Option<Seq<char>> {
    match text {
        Some(t) => Some(t@),
        None => None,
    }
}

/// The text an optional string slice holds.
pub open spec fn optional_str(text: Option<&str>) -> Option<Seq<char>> {
    match text {
        Some(t) => Some(t@),
        None => None,
    }
}

// ---- quoting ----

/// What `Debug` prints for a string: quoted, with its special characters escaped.
pub uninterp spec fn debug_text(raw: Seq<char>) -> Seq<char>;

/// Formats a string with its `Debug`. The result is a function of the text.
#[verifier::external_body]
pub(crate) fn debug_of(raw: &str) -> (out: String)
    ensures
        out@ == debug_text(raw@),
{
    format!("{raw:?}")
}

// ---- searching ----

/// The first place at or after `from` where `pat` stands in `s`.
pub open spec fn find_from(s: Seq<char>, pat: Seq<char>, from: int) -> Option<int>
    decreases s.len() - from + 1,
{
    if from < 0 || from + pat.len() > s.len() {
        None
    } else if s.subrange(from, from + pat.len()) == pat {
        Some(from)
    } else {
        find_from(s, pat, from + 1)
    }
}

/// The last place at or before `upto` where `pat` stands in `s`.
pub open spec fn rfind_upto(s: Seq<char>, pat: Seq<char>, upto: int) -> Option<int>
    decreases upto + 1,
{
    if upto < 0 {
        None
    } else if upto + pat.len() <= s.len() && s.subrange(upto, upto + pat.len()) == pat {
        Some(upto)
    } else {
        rfind_upto(s, pat, upto - 1)
    }
}

/// `find_from` answers with an occurrence, and with the earliest one.
pub proof fn find_from_is_first(s: Seq<char>, pat: Seq<char>, from: int)
    requires
        0 <= from,
    ensures
        find_from(s, pat, from) matches Some(i) ==> from <= i && i + pat.len() <= s.len()
            && s.subrange(i, i + pat.len()) == pat,
        forall|j: int|
            from <= j && j + pat.len() <= s.len() && (find_from(s, pat, from) matches Some(i) ==> j < i)
                ==> #[trigger] s.subrange(j, j + pat.len()) != pat,
    decreases s.len() - from + 1,
{
    if from + pat.len() <= s.len() && s.subrange(from, from + pat.len()) != pat {
        find_from_is_first(s, pat, from + 1);
    }
}

/// `rfind_upto` answers with an occurrence, and with the latest one.
pub proof fn rfind_upto_is_last(s: Seq<char>, pat: Seq<char>, upto: int)
    ensures
        rfind_upto(s, pat, upto) matches Some(i) ==> 0 <= i <= upto && i + pat.len() <= s.len()
            && s.subrange(i, i + pat.len()) == pat,
        forall|j: int|
            0 <= j <= upto && j + pat.len() <= s.len() && (rfind_upto(s, pat, upto) matches Some(i) ==> i
                < j) ==> #[trigger] s.subrange(j, j + pat.len()) != pat,
    decreases upto + 1,
{
    if upto >= 0 && !(upto + pat.len() <= s.len() && s.subrange(upto, upto + pat.len()) == pat) {
        rfind_upto_is_last(s, pat, upto - 1);
    }
}

/// Whether `pat` occurs in `s`.
pub open spec fn contains(s: Seq<char>, pat: Seq<char>) -> bool {
    find_from(s, pat, 0) is Some
}

/// What stands before and after the first occurrence of `pat`.
pub open spec fn split_once(s: Seq<char>, pat: Seq<char>) -> Option<(Seq<char>, Seq<char>)> {
    match find_from(s, pat, 0) {
        Some(i) => Some((s.subrange(0, i), s.subrange(i + pat.len(), s.len() as int))),
        None => None,
    }
}

/// What stands before and after the last occurrence of `pat`.
pub open spec fn rsplit_once(s: Seq<char>, pat: Seq<char>) -> Option<(Seq<char>, Seq<char>)> {
    match rfind_upto(s, pat, s.len() as int) {
        Some(i) => Some((s.subrange(0, i), s.subrange(i + pat.len(), s.len() as int))),
        None => None,
    }
}

pub open spec fn starts_with(s: Seq<char>, pat: Seq<char>) -> bool {
    pat.len() <= s.len() && s.subrange(0, pat.len() as int) == pat
}

pub open spec fn ends_with(s: Seq<char>, pat: Seq<char>) -> bool {
    pat.len() <= s.len() && s.subrange(s.len() - pat.len(), s.len() as int) == pat
}

/// What follows `pat` at the start of `s`.
pub open spec fn strip_prefix(s: Seq<char>, pat: Seq<char>) -> Option<Seq<char>> {
    if starts_with(s, pat) {
        Some(s.subrange(pat.len() as int, s.len() as int))
    } else {
        None
    }
}

/// The pieces of `s` from `start` on, parted by `pat`.
pub open spec fn split_from(s: Seq<char>, pat: Seq<char>, start: int) -> Seq<Seq<char>>
    decreases s.len() - start,
{
    if start < 0 || start > s.len() || pat.len() == 0 {
        Seq::empty()
    } else {
        match find_from(s, pat, start) {
            Some(i) => {
                proof {
                    find_from_is_first(s, pat, start);
                }
                seq![s.subrange(start, i)] + split_from(s, pat, i + pat.len())
            },
            None => seq![s.subrange(start, s.len() as int)],
        }
    }
}

/// The pieces of `s` parted by the non-empty `pat`; one piece when `pat` does not occur.
pub open spec fn split(s: Seq<char>, pat: Seq<char>) -> Seq<Seq<char>> {
    split_from(s, pat, 0)
}

/// The texts of `list`, one behind the other, with `sep` between them.
pub open spec fn join(list: Seq<Seq<char>>, sep: Seq<char>) -> Seq<char>
    decreases list.len(),
{
    if list.len() == 0 {
        Seq::empty()
    } else if list.len() == 1 {
        list[0]
    } else {
        join(list.drop_last(), sep) + sep + list.last()
    }
}

// ---- lines ----

/// A line without the carriage return that ended it.
pub open spec fn chomp(line: Seq<char>) -> Seq<char> {
    if line.len() > 0 && line.last() == '\r' {
        line.drop_last()
    } else {
        line
    }
}

pub open spec fn newline() -> Seq<char> {
    seq!['\n']
}

/// The lines of `s` from `start` on.
pub open spec fn lines_from(s: Seq<char>, start: int) -> Seq<Seq<char>>
    decreases s.len() - start,
{
    if start < 0 || start >= s.len() {
        Seq::empty()
    } else {
        match find_from(s, newline(), start) {
            Some(i) => {
                proof {
                    find_from_is_first(s, newline(), start);
                }
                seq![chomp(s.subrange(start, i))] + lines_from(s, i + 1)
            },
            None => seq![s.subrange(start, s.len() as int)],
        }
    }
}

/// The lines of `s`: each ends at `\n` or `\r\n`, and a text that ends so has no empty last line.
pub open spec fn lines(s: Seq<char>) -> Seq<Seq<char>> {
    lines_from(s, 0)
}

// ---- whitespace ----

/// Unicode's `White_Space`.
pub open spec fn is_space(c: char) -> bool {
    let p = c as u32;
    ||| 0x9 <= p <= 0xd
    ||| p == 0x20
    ||| p == 0x85
    ||| p == 0xa0
    ||| p == 0x1680
    ||| 0x2000 <= p <= 0x200a
    ||| p == 0x2028
    ||| p == 0x2029
    ||| p == 0x202f
    ||| p == 0x205f
    ||| p == 0x3000
}

/// The first place at or after `from` that is no whitespace, or the end.
pub open spec fn skip_space(s: Seq<char>, from: int) -> int
    decreases s.len() - from,
{
    if from < 0 || from >= s.len() {
        from
    } else if is_space(s[from]) {
        skip_space(s, from + 1)
    } else {
        from
    }
}

/// The first place at or after `from` that is whitespace, or the end.
pub open spec fn skip_word(s: Seq<char>, from: int) -> int
    decreases s.len() - from,
{
    if from < 0 || from >= s.len() {
        from
    } else if is_space(s[from]) {
        from
    } else {
        skip_word(s, from + 1)
    }
}

/// The end of `s` below `upto` without trailing whitespace, never below `from`.
pub open spec fn unpadded(s: Seq<char>, from: int, upto: int) -> int
    decreases upto - from,
{
    if upto <= from || upto > s.len() || from < 0 {
        from
    } else if is_space(s[upto - 1]) {
        unpadded(s, from, upto - 1)
    } else {
        upto
    }
}

/// `s` without whitespace at its ends.
pub open spec fn trim(s: Seq<char>) -> Seq<char> {
    let from = skip_space(s, 0);
    s.subrange(from, unpadded(s, from, s.len() as int))
}

/// `s` without whitespace at its end.
pub open spec fn trim_end(s: Seq<char>) -> Seq<char> {
    s.subrange(0, unpadded(s, 0, s.len() as int))
}

/// The words of `s` from `start` on.
pub open spec fn words_from(s: Seq<char>, start: int) -> Seq<Seq<char>>
    decreases s.len() - start,
{
    let from = skip_space(s, start);
    if start < 0 || from >= s.len() {
        Seq::empty()
    } else {
        proof {
            lemma_skip_space(s, start);
            lemma_skip_word(s, from);
        }
        let upto = skip_word(s, from);
        seq![s.subrange(from, upto)] + words_from(s, upto)
    }
}

/// The words of `s`: its longest runs without whitespace.
pub open spec fn words(s: Seq<char>) -> Seq<Seq<char>> {
    words_from(s, 0)
}

pub proof fn lemma_skip_space(s: Seq<char>, from: int)
    ensures
        0 <= from <= s.len() ==> from <= skip_space(s, from) <= s.len(),
        0 <= from && skip_space(s, from) < s.len() ==> !is_space(s[skip_space(s, from)]),
        from >= s.len() ==> skip_space(s, from) == from,
    decreases s.len() - from,
{
    if 0 <= from < s.len() && is_space(s[from]) {
        lemma_skip_space(s, from + 1);
    }
}

pub proof fn lemma_skip_word(s: Seq<char>, from: int)
    ensures
        0 <= from <= s.len() ==> from <= skip_word(s, from) <= s.len(),
        0 <= from < s.len() && !is_space(s[from]) ==> from < skip_word(s, from),
    decreases s.len() - from,
{
    if 0 <= from < s.len() && !is_space(s[from]) {
        lemma_skip_word(s, from + 1);
    }
}

pub proof fn lemma_unpadded(s: Seq<char>, from: int, upto: int)
    requires
        0 <= from <= s.len(),
        upto <= s.len(),
    ensures
        from <= unpadded(s, from, upto) <= s.len(),
    decreases upto - from,
{
    if from < upto && is_space(s[upto - 1]) {
        lemma_unpadded(s, from, upto - 1);
    }
}

// ---- numbers ----

pub open spec fn is_digit(c: char) -> bool {
    '0' <= c && c <= '9'
}

pub open spec fn all_digits(s: Seq<char>) -> bool {
    forall|i: int| 0 <= i < s.len() ==> is_digit(#[trigger] s[i])
}

/// The number that the decimal digits `s` write.
pub open spec fn digits_value(s: Seq<char>) -> nat
    decreases s.len(),
{
    if s.len() == 0 {
        0
    } else {
        digits_value(s.drop_last()) * 10 + ((s.last() as u32 - '0' as u32) as nat)
    }
}

/// Reads an unsigned number of at most `max`: digits, with an optional `+` before them.
pub open spec fn parse_unsigned(s: Seq<char>, max: nat) -> Option<nat> {
    let digits = if s.len() > 0 && s[0] == '+' {
        s.subrange(1, s.len() as int)
    } else {
        s
    };
    if digits.len() > 0 && all_digits(digits) && digits_value(digits) <= max {
        Some(digits_value(digits))
    } else {
        None
    }
}

/// Reads a signed number that fits 64 bits: digits, with an optional `+` or `-` before them.
pub open spec fn parse_signed(s: Seq<char>) -> Option<int> {
    let negative = s.len() > 0 && s[0] == '-';
    let digits = if s.len() > 0 && (s[0] == '+' || s[0] == '-') {
        s.subrange(1, s.len() as int)
    } else {
        s
    };
    let value = if negative {
        -(digits_value(digits) as int)
    } else {
        digits_value(digits) as int
    };
    if digits.len() > 0 && all_digits(digits) && i64::MIN <= value <= i64::MAX {
        Some(value)
    } else {
        None
    }
}

pub open spec fn digit_char(d: nat) -> char {
    (('0' as u32 + d) as u32) as char
}

/// The decimal digits of `n`.
pub open spec fn decimal(n: nat) -> Seq<char>
    decreases n,
{
    if n < 10 {
        seq![digit_char(n)]
    } else {
        decimal(n / 10).push(digit_char(n % 10))
    }
}

/// The decimal digits of `n`, at least two of them.
pub open spec fn two_digits(n: nat) -> Seq<char> {
    if n < 10 {
        seq!['0', digit_char(n)]
    } else {
        decimal(n)
    }
}

/// `n` in decimal, a `-` before it when negative.
pub open spec fn signed_decimal(n: int) -> Seq<char> {
    if n < 0 {
        seq!['-'] + decimal((-n) as nat)
    } else {
        decimal(n as nat)
    }
}

pub proof fn lemma_digits_value_grows(s: Seq<char>, k: int)
    requires
        0 <= k <= s.len(),
        all_digits(s),
    ensures
        digits_value(s.subrange(0, k)) <= digits_value(s),
    decreases s.len() - k,
{
    if k < s.len() {
        let next = s.subrange(0, k + 1);
        assert(next.drop_last() =~= s.subrange(0, k));
        assert(is_digit(s[k]));
        lemma_digits_value_grows(s, k + 1);
    } else {
        assert(s.subrange(0, k) =~= s);
    }
}

// ---- the same, computed ----

/// The characters of `s`.
pub fn chars_of(s: &str) -> (out: Vec<char>)
    ensures
        out@ == s@,
{
    let mut out: Vec<char> = Vec::new();
    for c in it: s.chars()
        invariant
            out@ == it.seq().subrange(0, it.index()),
            it.seq() == s@,
    {
        out.push(c);
    }
    out
}

/// Whether `pat` stands in `s` at `at`.
fn stands_at(s: &Vec<char>, pat: &Vec<char>, at: usize) -> (found: bool)
    requires
        at + pat@.len() <= s@.len(),
    ensures
        found == (s@.subrange(at as int, at + pat@.len()) == pat@),
{
    let mut i: usize = 0;
    while i < pat.len()
        invariant
            i <= pat@.len(),
            at + pat@.len() <= s@.len(),
            forall|j: int| 0 <= j < i ==> s@[at + j] == pat@[j],
        decreases pat@.len() - i,
    {
        assert(at + i < s.len());
        if s[at + i] != pat[i] {
            assert(s@.subrange(at as int, at + pat@.len())[i as int] != pat@[i as int]);
            return false;
        }
        i += 1;
    }
    assert(s@.subrange(at as int, at + pat@.len()) =~= pat@);
    true
}

fn find_index(s: &Vec<char>, pat: &Vec<char>, from: usize) -> (at: Option<usize>)
    ensures
        match at {
            Some(i) => find_from(s@, pat@, from as int) == Some(i as int) && from <= i && i + pat@.len() <= s@.len(),
            None => find_from(s@, pat@, from as int) is None,
        },
{
    let mut i: usize = from;
    while pat.len() <= s.len() && i <= s.len() - pat.len()
        invariant
            from <= i,
            find_from(s@, pat@, i as int) == find_from(s@, pat@, from as int),
        decreases s@.len() - i + 1,
    {
        if stands_at(s, pat, i) {
            return Some(i);
        }
        if i == s.len() - pat.len() {
            assert(find_from(s@, pat@, i + 1) is None);
            return None;
        }
        i += 1;
    }
    None
}

fn rfind_index(s: &Vec<char>, pat: &Vec<char>) -> (at: Option<usize>)
    ensures
        match at {
            Some(i) => rfind_upto(s@, pat@, s@.len() as int) == Some(i as int) && i + pat@.len() <= s@.len(),
            None => rfind_upto(s@, pat@, s@.len() as int) is None,
        },
{
    let mut i: usize = s.len();
    loop
        invariant
            i <= s@.len(),
            rfind_upto(s@, pat@, i as int) == rfind_upto(s@, pat@, s@.len() as int),
        decreases i,
    {
        if pat.len() <= s.len() - i {
            if stands_at(s, pat, i) {
                return Some(i);
            }
        }
        if i == 0 {
            assert(rfind_upto(s@, pat@, -1) is None);
            return None;
        }
        i -= 1;
    }
}

/// Whether two texts are the same.
pub fn same(a: &str, b: &str) -> (same: bool)
    ensures
        same == (a@ == b@),
{
    let x = chars_of(a);
    let y = chars_of(b);
    if x.len() != y.len() {
        return false;
    }
    let same = stands_at(&x, &y, 0);
    assert(x@.subrange(0, y@.len() as int) =~= x@);
    same
}

/// Splits `s` at the first occurrence of `pat`.
pub fn str_split_once<'a>(s: &'a str, pat: &str) -> (halves: Option<(&'a str, &'a str)>)
    ensures
        match halves {
            Some((a, b)) => split_once(s@, pat@) == Some((a@, b@)),
            None => split_once(s@, pat@) is None,
        },
{
    let chars = chars_of(s);
    let wanted = chars_of(pat);
    match find_index(&chars, &wanted, 0) {
        Some(i) => {
            assert(i + wanted@.len() <= chars.len());
            Some((s.substring_char(0, i), s.substring_char(i + wanted.len(), chars.len())))
        },
        None => None,
    }
}

/// Splits `s` at the last occurrence of `pat`.
pub fn str_rsplit_once<'a>(s: &'a str, pat: &str) -> (halves: Option<(&'a str, &'a str)>)
    ensures
        match halves {
            Some((a, b)) => rsplit_once(s@, pat@) == Some((a@, b@)),
            None => rsplit_once(s@, pat@) is None,
        },
{
    let chars = chars_of(s);
    let wanted = chars_of(pat);
    match rfind_index(&chars, &wanted) {
        Some(i) => {
            assert(i + wanted@.len() <= chars.len());
            Some((s.substring_char(0, i), s.substring_char(i + wanted.len(), chars.len())))
        },
        None => None,
    }
}

pub fn str_contains(s: &str, pat: &str) -> (found: bool)
    ensures
        found == contains(s@, pat@),
{
    find_index(&chars_of(s), &chars_of(pat), 0).is_some()
}

pub fn str_starts_with(s: &str, pat: &str) -> (found: bool)
    ensures
        found == starts_with(s@, pat@),
{
    let chars = chars_of(s);
    let wanted = chars_of(pat);
    wanted.len() <= chars.len() && stands_at(&chars, &wanted, 0)
}

pub fn str_ends_with(s: &str, pat: &str) -> (found: bool)
    ensures
        found == ends_with(s@, pat@),
{
    let chars = chars_of(s);
    let wanted = chars_of(pat);
    wanted.len() <= chars.len() && stands_at(&chars, &wanted, chars.len() - wanted.len())
}

/// What follows `pat` at the start of `s`.
pub fn str_strip_prefix<'a>(s: &'a str, pat: &str) -> (rest: Option<&'a str>)
    ensures
        optional_str(rest) == strip_prefix(s@, pat@),
{
    let chars = chars_of(s);
    let wanted = chars_of(pat);
    if wanted.len() <= chars.len() && stands_at(&chars, &wanted, 0) {
        Some(s.substring_char(wanted.len(), chars.len()))
    } else {
        None
    }
}

/// The pieces of `s` parted by the non-empty `pat`.
pub fn str_split<'a>(s: &'a str, pat: &str) -> (pieces: Vec<&'a str>)
    requires
        pat@.len() > 0,
    ensures
        texts(pieces@) == split(s@, pat@),
        pieces@.len() > 0,
{
    let chars = chars_of(s);
    let wanted = chars_of(pat);
    let mut pieces: Vec<&'a str> = Vec::new();
    let mut start: usize = 0;
    loop
        invariant
            chars@ == s@,
            wanted@ == pat@,
            pat@.len() > 0,
            start <= s@.len(),
            split(s@, pat@) == texts(pieces@) + split_from(s@, pat@, start as int),
        decreases s@.len() - start,
    {
        let ghost before = pieces@;
        match find_index(&chars, &wanted, start) {
            Some(i) => {
                pieces.push(s.substring_char(start, i));
                assert(texts(pieces@) =~= texts(before) + seq![s@.subrange(start as int, i as int)]);
                proof {
                    let tail = split_from(s@, pat@, i + pat@.len());
                    assert((texts(before) + seq![s@.subrange(start as int, i as int)]) + tail =~= texts(
                        before,
                    ) + (seq![s@.subrange(start as int, i as int)] + tail));
                }
                assert(i + wanted@.len() <= chars.len());
                start = i + wanted.len();
            },
            None => {
                pieces.push(s.substring_char(start, chars.len()));
                assert(texts(pieces@) =~= texts(before) + seq![s@.subrange(start as int, s@.len() as int)]);
                return pieces;
            },
        }
    }
}

/// Joins texts with `sep` between them.
pub fn join_strs(list: &Vec<&str>, sep: &str) -> (out: String)
    ensures
        out@ == join(texts(list@), sep@),
{
    let mut out = String::new();
    let mut i: usize = 0;
    assert(texts(list@).subrange(0, 0) =~= Seq::<Seq<char>>::empty());
    while i < list.len()
        invariant
            i <= list@.len(),
            out@ == join(texts(list@).subrange(0, i as int), sep@),
        decreases list@.len() - i,
    {
        let ghost next = texts(list@).subrange(0, i + 1);
        assert(next.drop_last() =~= texts(list@).subrange(0, i as int));
        assert(next.last() == list@[i as int]@);
        if i > 0 {
            out.append(sep);
        }
        out.append(list[i]);
        if i == 0 {
            assert(out@ =~= list@[0]@);
        }
        i += 1;
    }
    assert(texts(list@).subrange(0, i as int) =~= texts(list@));
    out
}

/// Owned copies of the texts.
pub fn owned(list: &Vec<&str>) -> (out: Vec<String>)
    ensures
        strings(out@) == texts(list@),
{
    let mut out: Vec<String> = Vec::new();
    let mut i: usize = 0;
    while i < list.len()
        invariant
            i <= list@.len(),
            out@.len() == i,
            forall|j: int| 0 <= j < i ==> (#[trigger] out@[j])@ == list@[j]@,
        decreases list@.len() - i,
    {
        out.push(list[i].to_owned());
        i += 1;
    }
    assert(strings(out@) =~= texts(list@));
    out
}

/// The lines of `s`.
pub fn str_lines<'a>(s: &'a str) -> (out: Vec<&'a str>)
    ensures
        texts(out@) == lines(s@),
{
    let chars = chars_of(s);
    let mut end_of_line: Vec<char> = Vec::new();
    end_of_line.push('\n');
    assert(end_of_line@ =~= newline());
    let mut out: Vec<&'a str> = Vec::new();
    let mut start: usize = 0;
    while start < chars.len()
        invariant
            chars@ == s@,
            end_of_line@ == newline(),
            start <= s@.len(),
            lines(s@) == texts(out@) + lines_from(s@, start as int),
        decreases s@.len() - start,
    {
        let ghost before = out@;
        match find_index(&chars, &end_of_line, start) {
            Some(i) => {
                let stop: usize = if start < i && chars[i - 1] == '\r' {
                    i - 1
                } else {
                    i
                };
                out.push(s.substring_char(start, stop));
                let ghost line = chomp(s@.subrange(start as int, i as int));
                assert(s@.subrange(start as int, stop as int) =~= line);
                assert(texts(out@) =~= texts(before) + seq![line]);
                proof {
                    let tail = lines_from(s@, i + 1);
                    assert((texts(before) + seq![line]) + tail =~= texts(before) + (seq![line] + tail));
                }
                start = i + 1;
            },
            None => {
                out.push(s.substring_char(start, chars.len()));
                assert(texts(out@) =~= texts(before) + seq![s@.subrange(start as int, s@.len() as int)]);
                return out;
            },
        }
    }
    assert(texts(out@) + Seq::<Seq<char>>::empty() =~= texts(out@));
    out
}

fn is_space_char(c: char) -> (space: bool)
    ensures
        space == is_space(c),
{
    let p: u32 = c as u32;
    (0x9 <= p && p <= 0xd) || p == 0x20 || p == 0x85 || p == 0xa0 || p == 0x1680 || (0x2000 <= p && p <= 0x200a) || p
        == 0x2028 || p == 0x2029 || p == 0x202f || p == 0x205f || p == 0x3000
}

fn skip_space_index(s: &Vec<char>, from: usize) -> (at: usize)
    requires
        from <= s@.len(),
    ensures
        at == skip_space(s@, from as int),
        from <= at <= s@.len(),
{
    let mut i: usize = from;
    while i < s.len() && is_space_char(s[i])
        invariant
            from <= i <= s@.len(),
            skip_space(s@, i as int) == skip_space(s@, from as int),
        decreases s@.len() - i,
    {
        i += 1;
    }
    i
}

fn skip_word_index(s: &Vec<char>, from: usize) -> (at: usize)
    requires
        from <= s@.len(),
    ensures
        at == skip_word(s@, from as int),
        from <= at <= s@.len(),
{
    let mut i: usize = from;
    while i < s.len() && !is_space_char(s[i])
        invariant
            from <= i <= s@.len(),
            skip_word(s@, i as int) == skip_word(s@, from as int),
        decreases s@.len() - i,
    {
        i += 1;
    }
    i
}

fn unpadded_index(s: &Vec<char>, from: usize) -> (at: usize)
    requires
        from <= s@.len(),
    ensures
        at == unpadded(s@, from as int, s@.len() as int),
        from <= at <= s@.len(),
{
    let mut i: usize = s.len();
    while from < i && is_space_char(s[i - 1])
        invariant
            from <= i <= s@.len(),
            unpadded(s@, from as int, i as int) == unpadded(s@, from as int, s@.len() as int),
        decreases i,
    {
        i -= 1;
    }
    i
}

/// `s` without whitespace at its ends.
pub fn str_trim<'a>(s: &'a str) -> (out: &'a str)
    ensures
        out@ == trim(s@),
{
    let chars = chars_of(s);
    let from: usize = skip_space_index(&chars, 0);
    let upto: usize = unpadded_index(&chars, from);
    s.substring_char(from, upto)
}

/// `s` without whitespace at its end.
pub fn str_trim_end<'a>(s: &'a str) -> (out: &'a str)
    ensures
        out@ == trim_end(s@),
{
    let chars = chars_of(s);
    let upto: usize = unpadded_index(&chars, 0);
    s.substring_char(0, upto)
}

/// The words of `s`.
pub fn str_words<'a>(s: &'a str) -> (out: Vec<&'a str>)
    ensures
        texts(out@) == words(s@),
{
    let chars = chars_of(s);
    let mut out: Vec<&'a str> = Vec::new();
    let mut start: usize = 0;
    loop
        invariant
            chars@ == s@,
            start <= s@.len(),
            words(s@) == texts(out@) + words_from(s@, start as int),
        decreases s@.len() - start,
    {
        let ghost before = out@;
        let from: usize = skip_space_index(&chars, start);
        if from >= chars.len() {
            assert(texts(out@) + Seq::<Seq<char>>::empty() =~= texts(out@));
            return out;
        }
        let upto: usize = skip_word_index(&chars, from);
        proof {
            lemma_skip_space(s@, start as int);
            lemma_skip_word(s@, from as int);
        }
        out.push(s.substring_char(from, upto));
        let ghost word = s@.subrange(from as int, upto as int);
        assert(texts(out@) =~= texts(before) + seq![word]);
        proof {
            let tail = words_from(s@, upto as int);
            assert((texts(before) + seq![word]) + tail =~= texts(before) + (seq![word] + tail));
        }
        start = upto;
    }
}

/// The number that `chars` write in decimal when all are digits and it is at most `max`.
fn digits_number(chars: &Vec<char>, from: usize, max: u64) -> (value: Option<u64>)
    requires
        from <= chars@.len(),
    ensures
        ({
            let digits = chars@.subrange(from as int, chars@.len() as int);
            match value {
                Some(v) => all_digits(digits) && digits_value(digits) == v && v <= max,
                None => !(all_digits(digits) && digits_value(digits) <= max),
            }
        }),
{
    let ghost digits = chars@.subrange(from as int, chars@.len() as int);
    let mut value: u64 = 0;
    let mut i: usize = from;
    assert(digits.subrange(0, 0) =~= Seq::<char>::empty());
    while i < chars.len()
        invariant
            from <= i <= chars@.len(),
            digits == chars@.subrange(from as int, chars@.len() as int),
            forall|j: int| 0 <= j < i - from ==> is_digit(#[trigger] digits[j]),
            value == digits_value(digits.subrange(0, i - from)),
            value <= max,
        decreases chars@.len() - i,
    {
        let c = chars[i];
        assert(digits[i - from] == c);
        if !('0' <= c && c <= '9') {
            return None;
        }
        let digit: u64 = c as u64 - '0' as u64;
        let next: u128 = value as u128 * 10 + digit as u128;
        assert(digits.subrange(0, i - from + 1).drop_last() =~= digits.subrange(0, i - from));
        assert(next == digits_value(digits.subrange(0, i - from + 1)));
        if next > max as u128 {
            proof {
                if all_digits(digits) {
                    lemma_digits_value_grows(digits, i - from + 1);
                }
            }
            return None;
        }
        value = next as u64;
        i += 1;
    }
    assert(digits.subrange(0, i - from) =~= digits);
    Some(value)
}

/// Reads an unsigned number of at most `max`.
pub fn str_parse_unsigned(s: &str, max: u64) -> (value: Option<u64>)
    ensures
        match value {
            Some(v) => parse_unsigned(s@, max as nat) == Some(v as nat) && v <= max,
            None => parse_unsigned(s@, max as nat) is None,
        },
{
    let chars = chars_of(s);
    let from: usize = if chars.len() > 0 && chars[0] == '+' {
        1
    } else {
        0
    };
    assert(chars@.subrange(0, chars@.len() as int) =~= chars@);
    if from == chars.len() {
        return None;
    }
    digits_number(&chars, from, max)
}

/// Reads a `u32`.
pub fn str_parse_u32(s: &str) -> (value: Option<u32>)
    ensures
        match value {
            Some(v) => parse_unsigned(s@, u32::MAX as nat) == Some(v as nat),
            None => parse_unsigned(s@, u32::MAX as nat) is None,
        },
{
    match str_parse_unsigned(s, u32::MAX as u64) {
        Some(v) => Some(v as u32),
        None => None,
    }
}

/// Reads an `i64`.
pub fn str_parse_i64(s: &str) -> (value: Option<i64>)
    ensures
        match value {
            Some(v) => parse_signed(s@) == Some(v as int),
            None => parse_signed(s@) is None,
        },
{
    let chars = chars_of(s);
    let negative = chars.len() > 0 && chars[0] == '-';
    let from: usize = if chars.len() > 0 && (chars[0] == '+' || chars[0] == '-') {
        1
    } else {
        0
    };
    assert(chars@.subrange(0, chars@.len() as int) =~= chars@);
    if from == chars.len() {
        return None;
    }
    let limit: u64 = if negative {
        0x8000_0000_0000_0000
    } else {
        0x7fff_ffff_ffff_ffff
    };
    match digits_number(&chars, from, limit) {
        Some(v) => if negative {
            if v == 0x8000_0000_0000_0000 {
                Some(i64::MIN)
            } else {
                Some(-(v as i64))
            }
        } else {
            Some(v as i64)
        },
        None => None,
    }
}

fn digit_of(d: u64) -> (c: char)
    requires
        d < 10,
    ensures
        c == digit_char(d as nat),
{
    ('0' as u8 + d as u8) as char
}

/// The decimal digits of `n`.
pub fn decimal_of(n: u64) -> (out: String)
    ensures
        out@ == decimal(n as nat),
    decreases n,
{
    if n < 10 {
        let mut out = String::new();
        out.push(digit_of(n));
        assert(out@ =~= seq![digit_char(n as nat)]);
        out
    } else {
        let mut out = decimal_of(n / 10);
        out.push(digit_of(n % 10));
        out
    }
}

/// `n` in decimal.
pub fn signed_decimal_of(n: i64) -> (out: String)
    ensures
        out@ == signed_decimal(n as int),
{
    if n < 0 {
        let magnitude: u64 = (-(n as i128)) as u64;
        let mut out = String::new();
        out.push('-');
        out.append(decimal_of(magnitude).as_str());
        assert(out@ =~= seq!['-'] + decimal((-(n as int)) as nat));
        out
    } else {
        decimal_of(n as u64)
    }
}

/// The decimal digits of `n`, at least two of them.
pub fn two_digits_of(n: u64) -> (out: String)
    ensures
        out@ == two_digits(n as nat),
{
    if n < 10 {
        let mut out = String::new();
        out.push('0');
        out.push(digit_of(n));
        assert(out@ =~= seq!['0', digit_char(n as nat)]);
        out
    } else {
        decimal_of(n)
    }
}

// ---- laws ----

proof fn lemma_digit(d: nat)
    requires
        d < 10,
    ensures
        is_digit(digit_char(d)),
        digit_char(d) as u32 - '0' as u32 == d,
        digit_char(d) != '+',
        digit_char(d) != '-',
        d > 0 ==> digit_char(d) != '0',
{
}

proof fn lemma_decimal(n: nat)
    ensures
        decimal(n).len() > 0,
        all_digits(decimal(n)),
        digits_value(decimal(n)) == n,
        n > 0 ==> decimal(n)[0] != '0',
        decimal(n)[0] != '+',
        decimal(n)[0] != '-',
    decreases n,
{
    lemma_digit(n % 10);
    if n < 10 {
        reveal_with_fuel(digits_value, 2);
        assert(decimal(n).drop_last() =~= Seq::<char>::empty());
        assert(digits_value(decimal(n).drop_last()) == 0);
    } else {
        lemma_decimal(n / 10);
        let before = decimal(n / 10);
        assert(decimal(n).drop_last() =~= before);
        assert(decimal(n)[0] == before[0]);
        assert forall|i: int| 0 <= i < decimal(n).len() implies is_digit(#[trigger] decimal(n)[i]) by {
            if i < before.len() {
                assert(decimal(n)[i] == before[i]);
            }
        }
    }
}

/// A number that was written reads back as itself, and is written without leading zeros.
pub proof fn a_number_reads_back(n: nat, max: nat)
    ensures
        n <= max ==> parse_unsigned(decimal(n), max) == Some(n),
        n > max ==> parse_unsigned(decimal(n), max) is None,
        n > 0 ==> decimal(n)[0] != '0',
{
    lemma_decimal(n);
}

/// A signed number of 64 bits that was written reads back as itself.
pub proof fn a_signed_number_reads_back(n: i64)
    ensures
        parse_signed(signed_decimal(n as int)) == Some(n as int),
{
    if n < 0 {
        lemma_decimal((-n) as nat);
        let written = signed_decimal(n as int);
        assert(written.subrange(1, written.len() as int) =~= decimal((-n) as nat));
    } else {
        lemma_decimal(n as nat);
    }
}

/// A text that reads as a number is its digits, perhaps with a plus before them: one digit more is ten
/// times the number and the digit.
pub proof fn one_digit_more_is_ten_times_as_much(s: Seq<char>, d: nat, max: nat)
    requires
        d < 10,
    ensures
        parse_unsigned(s, max) matches Some(n) ==> parse_unsigned(s.push(digit_char(d)), max) == (if n * 10 + d
            <= max {
            Some(n * 10 + d)
        } else {
            None
        }),
{
    lemma_digit(d);
    if let Some(n) = parse_unsigned(s, max) {
        let longer = s.push(digit_char(d));
        let digits = if s[0] == '+' {
            s.subrange(1, s.len() as int)
        } else {
            s
        };
        let more = digits.push(digit_char(d));
        assert(more.drop_last() =~= digits);
        if s[0] == '+' {
            assert(longer.subrange(1, longer.len() as int) =~= more);
        }
        assert forall|i: int| 0 <= i < more.len() implies is_digit(#[trigger] more[i]) by {
            if i < digits.len() {
                assert(more[i] == digits[i]);
            }
        }
    }
}

/// The two halves of a text are what stands around the first, or the last, occurrence of what parts
/// them; there are none exactly where it does not occur.
pub proof fn halves_stand_around_the_parting(s: Seq<char>, pat: Seq<char>)
    ensures
        match split_once(s, pat) {
            Some((a, b)) => s == a + pat + b && forall|j: int|
                0 <= j < a.len() ==> #[trigger] s.subrange(j, j + pat.len()) != pat,
            None => forall|j: int|
                0 <= j && j + pat.len() <= s.len() ==> #[trigger] s.subrange(j, j + pat.len()) != pat,
        },
        match rsplit_once(s, pat) {
            Some((a, b)) => s == a + pat + b && forall|j: int|
                a.len() < j && j + pat.len() <= s.len() ==> #[trigger] s.subrange(j, j + pat.len()) != pat,
            None => forall|j: int|
                0 <= j && j + pat.len() <= s.len() ==> #[trigger] s.subrange(j, j + pat.len()) != pat,
        },
{
    find_from_is_first(s, pat, 0);
    rfind_upto_is_last(s, pat, s.len() as int);
    if let Some((a, b)) = split_once(s, pat) {
        assert(s =~= a + pat + b);
    }
    if let Some((a, b)) = rsplit_once(s, pat) {
        assert(s =~= a + pat + b);
    }
}

/// What follows a prefix, behind the prefix, is the text.
pub proof fn a_stripped_prefix_is_all_that_is_missing(s: Seq<char>, pat: Seq<char>, rest: Seq<char>)
    ensures
        strip_prefix(s, pat) matches Some(rest) ==> s == pat + rest,
        strip_prefix(pat + rest, pat) == Some(rest),
{
    if let Some(rest) = strip_prefix(s, pat) {
        assert(s =~= pat + rest);
    }
    assert((pat + rest).subrange(0, pat.len() as int) =~= pat);
    assert((pat + rest).subrange(pat.len() as int, (pat + rest).len() as int) =~= rest);
}

proof fn lemma_join_first(first: Seq<char>, list: Seq<Seq<char>>, sep: Seq<char>)
    requires
        list.len() > 0,
    ensures
        join(seq![first] + list, sep) == first + sep + join(list, sep),
    decreases list.len(),
{
    let all = seq![first] + list;
    if list.len() == 1 {
        assert(all.drop_last() =~= seq![first]);
        assert(join(seq![first], sep) == first);
        assert(all.last() == list[0]);
    } else {
        assert(all.drop_last() =~= seq![first] + list.drop_last());
        lemma_join_first(first, list.drop_last(), sep);
        assert(all.last() == list.last());
        assert(join(all, sep) =~= first + sep + join(list, sep));
    }
}

proof fn lemma_split_from(s: Seq<char>, pat: Seq<char>, start: int)
    requires
        pat.len() > 0,
        0 <= start <= s.len(),
    ensures
        split_from(s, pat, start).len() > 0,
        join(split_from(s, pat, start), pat) == s.subrange(start, s.len() as int),
        forall|i: int, j: int|
            0 <= i < split_from(s, pat, start).len() && 0 <= j && j + pat.len() <= split_from(s, pat, start)[i].len()
                ==> #[trigger] split_from(s, pat, start)[i].subrange(j, j + pat.len()) != pat,
    decreases s.len() - start,
{
    find_from_is_first(s, pat, start);
    match find_from(s, pat, start) {
        Some(at) => {
            let rest = split_from(s, pat, at + pat.len());
            let first = s.subrange(start, at);
            lemma_split_from(s, pat, at + pat.len());
            lemma_join_first(first, rest, pat);
            assert(first + pat + s.subrange(at + pat.len(), s.len() as int) =~= s.subrange(start, s.len() as int));
            let all = split_from(s, pat, start);
            assert forall|i: int, j: int|
                0 <= i < all.len() && 0 <= j && j + pat.len() <= all[i].len() implies #[trigger] all[i].subrange(
                j,
                j + pat.len(),
            ) != pat by {
                if i == 0 {
                    assert(first.subrange(j, j + pat.len()) =~= s.subrange(start + j, start + j + pat.len()));
                } else {
                    assert(all[i] == rest[i - 1]);
                }
            }
        },
        None => {
            let only = s.subrange(start, s.len() as int);
            assert forall|j: int| 0 <= j && j + pat.len() <= only.len() implies #[trigger] only.subrange(
                j,
                j + pat.len(),
            ) != pat by {
                assert(only.subrange(j, j + pat.len()) =~= s.subrange(start + j, start + j + pat.len()));
            }
        },
    }
}

/// The pieces of a text, joined again, are the text, and none holds what parts them.
pub proof fn joined_pieces_are_the_text(s: Seq<char>, pat: Seq<char>)
    requires
        pat.len() > 0,
    ensures
        join(split(s, pat), pat) == s,
        forall|i: int, j: int|
            0 <= i < split(s, pat).len() && 0 <= j && j + pat.len() <= split(s, pat)[i].len()
                ==> #[trigger] split(s, pat)[i].subrange(j, j + pat.len()) != pat,
{
    lemma_split_from(s, pat, 0);
    assert(s.subrange(0, s.len() as int) =~= s);
}

proof fn lemma_skipped(s: Seq<char>, from: int)
    requires
        0 <= from <= s.len(),
    ensures
        forall|k: int| from <= k < skip_space(s, from) ==> is_space(#[trigger] s[k]),
        forall|k: int| from <= k < skip_word(s, from) ==> !is_space(#[trigger] s[k]),
        skip_word(s, from) < s.len() ==> is_space(s[skip_word(s, from)]),
    decreases s.len() - from,
{
    if from < s.len() {
        lemma_skipped(s, from + 1);
    }
}

proof fn lemma_unpadded_ends(s: Seq<char>, from: int, upto: int)
    requires
        0 <= from <= upto <= s.len(),
    ensures
        from <= unpadded(s, from, upto) <= upto,
        forall|k: int| unpadded(s, from, upto) <= k < upto ==> is_space(#[trigger] s[k]),
        unpadded(s, from, upto) > from ==> !is_space(s[unpadded(s, from, upto) - 1]),
    decreases upto - from,
{
    if from < upto && is_space(s[upto - 1]) {
        lemma_unpadded_ends(s, from, upto - 1);
    }
}

/// A trimmed text is the text without the whitespace at its ends, and without anything else: it
/// begins and ends with something that is none. Returns how much stands before it.
pub proof fn a_trimmed_text_lost_its_outer_whitespace(s: Seq<char>) -> (from: int)
    ensures
        0 <= from && from + trim(s).len() <= s.len(),
        trim(s) == s.subrange(from, from + trim(s).len()),
        forall|k: int| 0 <= k < from ==> is_space(#[trigger] s[k]),
        forall|k: int| from + trim(s).len() <= k < s.len() ==> is_space(#[trigger] s[k]),
        trim(s).len() > 0 ==> !is_space(trim(s)[0]) && !is_space(trim(s).last()),
{
    let from = skip_space(s, 0);
    lemma_skip_space(s, 0);
    lemma_skipped(s, 0);
    lemma_unpadded_ends(s, from, s.len() as int);
    from
}

/// A text trimmed at its end keeps its start.
pub proof fn a_text_trimmed_at_its_end_keeps_its_start(s: Seq<char>)
    ensures
        trim_end(s).is_prefix_of(s),
        forall|k: int| trim_end(s).len() <= k < s.len() ==> is_space(#[trigger] s[k]),
        trim_end(s).len() > 0 ==> !is_space(trim_end(s).last()),
{
    lemma_unpadded_ends(s, 0, s.len() as int);
}

/// Whether words are those at these places of a text: each whole, in order, and with nothing but
/// whitespace around them.
pub open spec fn words_stand_at(s: Seq<char>, start: int, words: Seq<Seq<char>>, at: Seq<int>) -> bool {
    &&& at.len() == words.len()
    &&& forall|i: int|
        0 <= i < at.len() ==> start <= #[trigger] at[i] && at[i] + words[i].len() <= s.len() && words[i].len() > 0
            && words[i] == s.subrange(at[i], at[i] + words[i].len())
    &&& forall|i: int, k: int|
        0 <= i < at.len() && #[trigger] at[i] <= k < at[i] + words[i].len() ==> !is_space(#[trigger] s[k])
    &&& forall|i: int, j: int| 0 <= i < j < at.len() ==> #[trigger] at[i] + words[i].len() < #[trigger] at[j]
    &&& forall|k: int|
        start <= k < s.len() && !is_space(#[trigger] s[k]) ==> exists|i: int|
            0 <= i < at.len() && #[trigger] at[i] <= k < at[i] + words[i].len()
}

proof fn lemma_words_from(s: Seq<char>, start: int) -> (at: Seq<int>)
    requires
        0 <= start <= s.len(),
    ensures
        words_stand_at(s, start, words_from(s, start), at),
    decreases s.len() - start,
{
    lemma_skip_space(s, start);
    lemma_skipped(s, start);
    let from = skip_space(s, start);
    if from >= s.len() {
        Seq::empty()
    } else {
        lemma_skip_word(s, from);
        lemma_skipped(s, from);
        let upto = skip_word(s, from);
        let rest = words_from(s, upto);
        let rest_at = lemma_words_from(s, upto);
        let all = words_from(s, start);
        let at = seq![from] + rest_at;
        assert forall|i: int| 0 <= i < at.len() implies start <= #[trigger] at[i] && at[i] + all[i].len() <= s.len()
            && all[i].len() > 0 && all[i] == s.subrange(at[i], at[i] + all[i].len()) by {
            if i > 0 {
                assert(at[i] == rest_at[i - 1] && all[i] == rest[i - 1]);
            }
        }
        assert forall|i: int, k: int|
            0 <= i < at.len() && #[trigger] at[i] <= k < at[i] + all[i].len() implies !is_space(#[trigger] s[k]) by {
            if i > 0 {
                assert(at[i] == rest_at[i - 1] && all[i] == rest[i - 1]);
            }
        }
        assert forall|i: int, j: int| 0 <= i < j < at.len() implies #[trigger] at[i] + all[i].len() < #[trigger] at[j] by {
            assert(at[j] == rest_at[j - 1] && all[j] == rest[j - 1]);
            if i > 0 {
                assert(at[i] == rest_at[i - 1] && all[i] == rest[i - 1]);
            } else {
                assert(rest_at[j - 1] >= upto);
                if rest_at[j - 1] == upto {
                    assert(!is_space(s[upto]));
                }
            }
        }
        assert forall|k: int| start <= k < s.len() && !is_space(#[trigger] s[k]) implies exists|i: int|
            0 <= i < at.len() && #[trigger] at[i] <= k < at[i] + all[i].len() by {
            if k < upto {
                assert(at[0] <= k < at[0] + all[0].len());
            } else {
                let i = choose|i: int| 0 <= i < rest_at.len() && #[trigger] rest_at[i] <= k < rest_at[i] + rest[i].len();
                assert(at[i + 1] == rest_at[i] && all[i + 1] == rest[i]);
            }
        }
        at
    }
}

/// The words of a text are its longest runs without whitespace, all of them, in order. Returns where
/// they stand.
pub proof fn words_are_all_that_is_no_whitespace(s: Seq<char>) -> (at: Seq<int>)
    ensures
        words_stand_at(s, 0, words(s), at),
{
    lemma_words_from(s, 0)
}

proof fn lemma_lines_from(s: Seq<char>, start: int)
    requires
        0 <= start < s.len(),
        forall|k: int| 0 <= k < s.len() ==> #[trigger] s[k] != '\r',
    ensures
        lines_from(s, start).len() > 0,
        s.subrange(start, s.len() as int) == (if s.last() == '\n' {
            join(lines_from(s, start), newline()).push('\n')
        } else {
            join(lines_from(s, start), newline())
        }),
    decreases s.len() - start,
{
    find_from_is_first(s, newline(), start);
    let n = s.len() as int;
    match find_from(s, newline(), start) {
        Some(at) => {
            let first = s.subrange(start, at);
            assert(chomp(first) == first);
            assert(s[at] == '\n') by {
                assert(s.subrange(at, at + 1)[0] == '\n');
            }
            if at + 1 < n {
                lemma_lines_from(s, at + 1);
                lemma_join_first(first, lines_from(s, at + 1), newline());
                assert(s.subrange(start, n) =~= first + newline() + s.subrange(at + 1, n));
                assert(s.subrange(start, n) =~= (if s.last() == '\n' {
                    join(lines_from(s, start), newline()).push('\n')
                } else {
                    join(lines_from(s, start), newline())
                }));
            } else {
                assert(lines_from(s, at + 1) =~= Seq::<Seq<char>>::empty());
                assert(lines_from(s, start) =~= seq![first]);
                assert(s.subrange(start, n) =~= first.push('\n'));
            }
        },
        None => {
            assert(s.last() != '\n') by {
                if s.last() == '\n' {
                    assert(s.subrange(n - 1, n - 1 + newline().len()) =~= newline());
                }
            }
            assert(lines_from(s, start) =~= seq![s.subrange(start, n)]);
        },
    }
}

/// The lines of a text without carriage returns, joined by line feeds again, are the text, but for
/// the line feed that it ends in.
pub proof fn joined_lines_are_the_text(s: Seq<char>)
    requires
        forall|k: int| 0 <= k < s.len() ==> #[trigger] s[k] != '\r',
    ensures
        s.len() == 0 ==> lines(s).len() == 0,
        s.len() > 0 ==> s == (if s.last() == '\n' {
            join(lines(s), newline()).push('\n')
        } else {
            join(lines(s), newline())
        }),
{
    if s.len() > 0 {
        lemma_lines_from(s, 0);
        assert(s.subrange(0, s.len() as int) =~= s);
    }
}

/// Two digits are the number, with a zero before it where it has only one.
pub proof fn two_digits_are_the_number(n: nat, max: nat)
    ensures
        n <= max ==> parse_unsigned(two_digits(n), max) == Some(n),
        n < 100 ==> two_digits(n).len() == 2,
        n >= 10 ==> two_digits(n) == decimal(n),
{
    lemma_decimal(n);
    if n < 10 {
        lemma_digit(n);
        lemma_digit(0);
        reveal_with_fuel(digits_value, 3);
        let written = two_digits(n);
        assert(written.drop_last() =~= seq!['0']);
        assert(written.drop_last().drop_last() =~= Seq::<char>::empty());
    } else if n < 100 {
        assert(decimal(n / 10).len() == 1);
    }
}

/// The texts of a list are those of its items, in their order, and that of an option is its own.
pub proof fn a_list_of_texts_is_its_items(list: Seq<String>, slices: Seq<&str>, i: int, text: String, slice: &str)
    ensures
        strings(list).len() == list.len(),
        0 <= i < list.len() ==> strings(list)[i] == list[i]@,
        texts(slices).len() == slices.len(),
        0 <= i < slices.len() ==> texts(slices)[i] == slices[i]@,
        optional(Some(text)) == Some(text@),
        optional(None) is None,
        optional_str(Some(slice)) == Some(slice@),
        optional_str(None) is None,
{
}

/// A text begins, or ends, with another where it is that one with something behind, or before, it;
/// it holds another where it is that one with something around it.
pub proof fn a_text_begins_with_what_stands_first(pat: Seq<char>, rest: Seq<char>, s: Seq<char>)
    ensures
        starts_with(pat + rest, pat),
        ends_with(rest + pat, pat),
        starts_with(s, pat) ==> s == pat + s.skip(pat.len() as int),
        ends_with(s, pat) ==> s == s.take(s.len() - pat.len()) + pat,
        contains(rest + pat + s, pat),
        contains(s, pat) ==> exists|i: int| 0 <= i && i + pat.len() <= s.len() && #[trigger] s.subrange(i, i + pat.len()) == pat,
{
    assert((pat + rest).subrange(0, pat.len() as int) =~= pat);
    assert((rest + pat).subrange(rest.len() as int, (rest + pat).len() as int) =~= pat);
    if starts_with(s, pat) {
        assert(s =~= s.subrange(0, pat.len() as int) + s.skip(pat.len() as int));
    }
    if ends_with(s, pat) {
        assert(s =~= s.take(s.len() - pat.len()) + s.subrange(s.len() - pat.len(), s.len() as int));
    }
    let around = rest + pat + s;
    find_from_is_first(around, pat, 0);
    assert(around.subrange(rest.len() as int, rest.len() as int + pat.len()) =~= pat);
    find_from_is_first(s, pat, 0);
    if let Some(i) = find_from(s, pat, 0) {
        assert(s.subrange(i, i + pat.len()) == pat);
    }
}

#[verifier::spinoff_prover]
proof fn lemma_halves(s: Seq<char>, a: Seq<char>, pat: Seq<char>, b: Seq<char>, x: Seq<char>, y: Seq<char>)
    requires
        s == a + pat + b,
        s == x + pat + y,
        x.len() == a.len(),
    ensures
        x == a,
        y == b,
{
    assert(x =~= a) by {
        assert forall|k: int| 0 <= k < a.len() implies x[k] == a[k] by {
            assert((x + pat + y)[k] == x[k]);
            assert((a + pat + b)[k] == a[k]);
        }
    }
    assert(s.len() == (x + pat + y).len() && s.len() == (a + pat + b).len());
    assert((x + pat + y).len() == x.len() + pat.len() + y.len());
    assert((a + pat + b).len() == a.len() + pat.len() + b.len());
    assert(y.len() == b.len());
    assert(y =~= b) by {
        assert forall|k: int| 0 <= k < b.len() implies y[k] == b[k] by {
            let at = a.len() + pat.len() + k;
            assert((x + pat + y)[at] == y[k]);
            assert((a + pat + b)[at] == b[k]);
        }
    }
}

#[verifier::spinoff_prover]
proof fn lemma_parted_first(a: Seq<char>, pat: Seq<char>, b: Seq<char>)
    requires
        pat.len() > 0,
        !a.contains(pat[0]),
    ensures
        split_once(a + pat + b, pat) == Some((a, b)),
{
    let s = a + pat + b;
    halves_stand_around_the_parting(s, pat);
    assert(s.subrange(a.len() as int, a.len() as int + pat.len()) =~= pat);
    assert(split_once(s, pat) is Some);
    let (x, y) = split_once(s, pat)->Some_0;
    assert(s == x + pat + y);
    let at = x.len() as int;
    if at < a.len() {
        assert((x + pat + y)[at] == pat[0]);
        assert((a + pat + b)[at] == a[at]);
        assert(a.contains(pat[0]));
    }
    if at > a.len() {
        let k = a.len() as int;
        assert(s.subrange(k, k + pat.len()) != pat);
    }
    lemma_halves(s, a, pat, b, x, y);
}

#[verifier::spinoff_prover]
proof fn lemma_parted_last(a: Seq<char>, pat: Seq<char>, b: Seq<char>)
    requires
        pat.len() > 0,
        !b.contains(pat.last()),
    ensures
        rsplit_once(a + pat + b, pat) == Some((a, b)),
{
    let s = a + pat + b;
    halves_stand_around_the_parting(s, pat);
    assert(s.subrange(a.len() as int, a.len() as int + pat.len()) =~= pat);
    assert(rsplit_once(s, pat) is Some);
    let (x, y) = rsplit_once(s, pat)->Some_0;
    assert(s == x + pat + y);
    let at = x.len() as int;
    if at > a.len() {
        let k = at + pat.len() - 1;
        assert((x + pat + y)[k] == pat[pat.len() - 1]);
        assert((a + pat + b)[k] == b[k - a.len() - pat.len()]);
        assert(b.contains(pat.last()));
    }
    if at < a.len() {
        let k = a.len() as int;
        assert(s.subrange(k, k + pat.len()) != pat);
    }
    lemma_halves(s, a, pat, b, x, y);
}

#[verifier::spinoff_prover]
proof fn lemma_not_parted(a: Seq<char>, pat: Seq<char>)
    requires
        pat.len() > 0,
        !a.contains(pat[0]),
    ensures
        split_once(a, pat) is None,
        rsplit_once(a, pat) is None,
{
    halves_stand_around_the_parting(a, pat);
    if let Some((x, y)) = split_once(a, pat) {
        assert((x + pat + y)[x.len() as int] == pat[0]);
        assert(a[x.len() as int] == pat[0]);
        assert(a.contains(pat[0]));
    }
    if let Some((x, y)) = rsplit_once(a, pat) {
        assert((x + pat + y)[x.len() as int] == pat[0]);
        assert(a[x.len() as int] == pat[0]);
        assert(a.contains(pat[0]));
    }
}

/// A text is parted at the first place, or the last, where what parts it can begin, or end.
pub proof fn a_text_is_parted_at_the_first_place(a: Seq<char>, pat: Seq<char>, b: Seq<char>)
    requires
        pat.len() > 0,
    ensures
        !a.contains(pat[0]) ==> split_once(a + pat + b, pat) == Some((a, b)),
        !b.contains(pat.last()) ==> rsplit_once(a + pat + b, pat) == Some((a, b)),
        !a.contains(pat[0]) ==> split_once(a, pat) is None && rsplit_once(a, pat) is None,
{
    if !a.contains(pat[0]) {
        lemma_parted_first(a, pat, b);
        lemma_not_parted(a, pat);
    }
    if !b.contains(pat.last()) {
        lemma_parted_last(a, pat, b);
    }
}

proof fn lemma_find_shift(s: Seq<char>, pat: Seq<char>, k: int, from: int)
    requires
        0 <= k <= s.len(),
        0 <= from,
    ensures
        find_from(s, pat, k + from) == (match find_from(s.skip(k), pat, from) {
            Some(i) => Some(i + k),
            None => None,
        }),
    decreases s.len() - k - from + 1,
{
    if k + from + pat.len() <= s.len() {
        assert(s.skip(k).subrange(from, from + pat.len()) =~= s.subrange(k + from, k + from + pat.len()));
        if s.subrange(k + from, k + from + pat.len()) != pat {
            lemma_find_shift(s, pat, k, from + 1);
        }
    }
}

proof fn lemma_lines_shift(s: Seq<char>, k: int, from: int)
    requires
        0 <= k <= s.len(),
        0 <= from,
    ensures
        lines_from(s, k + from) == lines_from(s.skip(k), from),
    decreases s.len() - k - from,
{
    if k + from < s.len() {
        lemma_find_shift(s, newline(), k, from);
        match find_from(s.skip(k), newline(), from) {
            Some(i) => {
                find_from_is_first(s.skip(k), newline(), from);
                assert(s.skip(k).subrange(from, i) =~= s.subrange(k + from, k + i));
                lemma_lines_shift(s, k, i + 1);
            },
            None => {
                assert(s.skip(k).subrange(from, s.skip(k).len() as int) =~= s.subrange(k + from, s.len() as int));
            },
        }
    }
}

proof fn lemma_split_shift(s: Seq<char>, pat: Seq<char>, k: int, from: int)
    requires
        pat.len() > 0,
        0 <= k <= s.len(),
        0 <= from,
    ensures
        split_from(s, pat, k + from) == split_from(s.skip(k), pat, from),
    decreases s.len() - k - from,
{
    if k + from <= s.len() {
        lemma_find_shift(s, pat, k, from);
        match find_from(s.skip(k), pat, from) {
            Some(i) => {
                find_from_is_first(s.skip(k), pat, from);
                assert(s.skip(k).subrange(from, i) =~= s.subrange(k + from, k + i));
                lemma_split_shift(s, pat, k, i + pat.len() as int);
                assert(k + (i + pat.len()) == (k + i) + pat.len());
            },
            None => {
                assert(s.skip(k).subrange(from, s.skip(k).len() as int) =~= s.subrange(k + from, s.len() as int));
            },
        }
    }
}

/// A line ends at a line feed and loses the carriage return before it; what follows has lines of its
/// own, and a text without a line feed is one line.
pub proof fn a_line_ends_at_a_line_feed(line: Seq<char>, rest: Seq<char>)
    requires
        !line.contains('\n'),
    ensures
        lines(Seq::empty()).len() == 0,
        line.len() > 0 ==> lines(line) == seq![line],
        line.len() == 0 || line.last() != '\r' ==> lines(line + seq!['\n'] + rest) == seq![line] + lines(rest),
        lines(line + seq!['\r', '\n'] + rest) == seq![line] + lines(rest),
{
    a_text_is_parted_at_the_first_place(line, newline(), rest);
    find_from_is_first(line, newline(), 0);
    if let Some(i) = find_from(line, newline(), 0) {
        assert(line.subrange(i, i + 1)[0] == '\n');
        assert(line[i] == '\n');
    }
    assert(line.subrange(0, line.len() as int) =~= line);
    lemma_first_line(line, rest);
    let ended = line.push('\r');
    assert(line + seq!['\r', '\n'] + rest =~= ended + seq!['\n'] + rest);
    if ended.contains('\n') {
        let k = choose|k: int| 0 <= k < ended.len() && ended[k] == '\n';
        assert(line[k] == '\n');
    }
    lemma_first_line(ended, rest);
    assert(ended.drop_last() =~= line);
}

proof fn lemma_first_line(line: Seq<char>, rest: Seq<char>)
    requires
        !line.contains('\n'),
    ensures
        lines(line + seq!['\n'] + rest) == seq![chomp(line)] + lines(rest),
{
    let s = line + seq!['\n'] + rest;
    a_text_is_parted_at_the_first_place(line, newline(), rest);
    assert(line + newline() + rest == s);
    find_from_is_first(s, newline(), 0);
    let i = find_from(s, newline(), 0)->Some_0;
    assert(split_once(s, newline()) == Some((line, rest)));
    assert(i == line.len()) by {
        assert(s.subrange(0, i).len() == line.len());
    }
    assert(s.subrange(0, i) =~= line);
    lemma_lines_shift(s, i + 1, 0);
    assert(s.skip(i + 1) =~= rest);
}

/// A text is cut into pieces at each place where what parts it stands; there is always a first piece.
pub proof fn a_piece_ends_at_the_parting(piece: Seq<char>, pat: Seq<char>, rest: Seq<char>)
    requires
        pat.len() > 0,
        !piece.contains(pat[0]),
    ensures
        split(piece, pat) == seq![piece],
        split(piece + pat + rest, pat) == seq![piece] + split(rest, pat),
        split(rest, pat).len() > 0,
{
    let s = piece + pat + rest;
    a_text_is_parted_at_the_first_place(piece, pat, rest);
    find_from_is_first(s, pat, 0);
    find_from_is_first(piece, pat, 0);
    let i = find_from(s, pat, 0)->Some_0;
    assert(i == piece.len()) by {
        assert(s.subrange(0, i).len() == piece.len());
    }
    assert(s.subrange(0, i) =~= piece);
    lemma_split_shift(s, pat, i + pat.len() as int, 0);
    assert(s.skip(i + pat.len()) =~= rest);
    assert(piece.subrange(0, piece.len() as int) =~= piece);
}

/// Joined texts stand one behind the other with the separator between each two.
pub proof fn joined_texts_stand_in_a_row(list: Seq<Seq<char>>, sep: Seq<char>, text: Seq<char>)
    ensures
        join(Seq::empty(), sep).len() == 0,
        join(seq![text], sep) == text,
        list.len() > 0 ==> join(list.push(text), sep) == join(list, sep) + sep + text,
{
    assert(list.push(text).drop_last() =~= list);
}

/// Whitespace is what Unicode calls so, among it the blank, the tab, the ends of lines and the
/// no-break space; letters, digits and the signs of ASCII are none.
pub proof fn a_blank_is_whitespace(c: char)
    ensures
        is_space(' ') && is_space('\t') && is_space('\n') && is_space('\r') && is_space('\u{b}') && is_space('\u{c}')
            && is_space('\u{85}') && is_space('\u{a0}') && is_space('\u{1680}') && is_space('\u{2028}') && is_space(
            '\u{2029}',
        ) && is_space('\u{202f}') && is_space('\u{205f}') && is_space('\u{3000}'),
        '\u{2000}' <= c <= '\u{200a}' ==> is_space(c),
        '!' <= c <= '~' ==> !is_space(c),
        c < '\t' || '\r' < c < ' ' || '~' < c < '\u{85}' || '\u{85}' < c < '\u{a0}' || '\u{a0}' < c < '\u{1680}'
            || '\u{1680}' < c < '\u{2000}' || '\u{200a}' < c < '\u{2028}' || '\u{2029}' < c < '\u{202f}' || '\u{202f}' < c < '\u{205f}'
            || '\u{205f}' < c < '\u{3000}' || '\u{3000}' < c ==> !is_space(c),
{
}

/// A number may have a plus before its digits, and a signed one a minus, and holds nothing else; no
/// digits are no number.
pub proof fn a_number_is_a_sign_and_digits(s: Seq<char>, max: nat)
    ensures
        parse_unsigned(Seq::empty(), max) is None,
        parse_signed(Seq::empty()) is None,
        s.len() > 0 && is_digit(s[0]) ==> parse_unsigned(seq!['+'] + s, max) == parse_unsigned(s, max) && parse_signed(
            seq!['+'] + s,
        ) == parse_signed(s),
        s.len() > 0 && is_digit(s[0]) && parse_signed(s) is Some ==> parse_signed(seq!['-'] + s) == Some(
            -parse_signed(s)->Some_0,
        ),
        parse_unsigned(seq!['-'] + s, max) is None,
        parse_unsigned(s, max) is Some ==> s.len() > 0 && (is_digit(s[0]) || (s[0] == '+' && s.len() > 1)) && forall|i: int|
            1 <= i < s.len() ==> is_digit(#[trigger] s[i]),
        parse_signed(s) is Some ==> s.len() > 0 && (is_digit(s[0]) || ((s[0] == '+' || s[0] == '-') && s.len() > 1))
            && forall|i: int| 1 <= i < s.len() ==> is_digit(#[trigger] s[i]),
        is_digit('0') && is_digit('9') && !is_digit('/') && !is_digit(':'),
{
    let plus = seq!['+'] + s;
    let minus = seq!['-'] + s;
    assert(plus.subrange(1, plus.len() as int) =~= s);
    assert(minus.subrange(1, minus.len() as int) =~= s);
    assert(!is_digit('+') && !is_digit('-'));
    if parse_unsigned(minus, max) is Some {
        assert(minus[0] == '-');
        assert(all_digits(minus));
    }
    let rest = s.subrange(1, s.len() as int);
    if s.len() > 0 {
        assert forall|i: int| 1 <= i < s.len() implies rest[i - 1] == #[trigger] s[i] by {}
    }
    if parse_unsigned(s, max) is Some {
        if s[0] == '+' {
            assert forall|i: int| 1 <= i < s.len() implies is_digit(#[trigger] s[i]) by {
                assert(is_digit(rest[i - 1]));
            }
        }
    }
    if parse_signed(s) is Some {
        if s[0] == '+' || s[0] == '-' {
            assert forall|i: int| 1 <= i < s.len() implies is_digit(#[trigger] s[i]) by {
                assert(is_digit(rest[i - 1]));
            }
        }
    }
}

} // verus!
