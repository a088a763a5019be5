//! Octet strings as text: the printable ASCII range, trimming, and the
//! conversion to `String`.

use vstd::prelude::*;

verus! {

/// Space.
pub const SPACE: u8 = 0x20;

/// Line feed.
pub const LINE_FEED: u8 = 0x0a;

/// Carriage return.
pub const CARRIAGE_RETURN: u8 = 0x0d;

/// Whether an octet is a printable ASCII character: a space or a graphic
/// character.
pub open spec fn spec_is_printable(b: u8) -> bool {
    0x20 <= b <= 0x7e
}

/// Whether an octet is a graphic ASCII character: printable and not a space.
pub open spec fn spec_is_graphic(b: u8) -> bool {
    0x21 <= b <= 0x7e
}

/// Whether an octet is ASCII white space: a space, a tab, a line feed, a
/// vertical tab, a form feed or a carriage return.
pub open spec fn spec_is_blank(b: u8) -> bool {
    b == SPACE || 0x09 <= b <= 0x0d
}

/// Whether an octet ends a line or belongs to a line ending.
pub open spec fn spec_is_line_terminator(b: u8) -> bool {
    b == LINE_FEED || b == CARRIAGE_RETURN
}

/// The characters that a sequence of octets denotes, each octet read as the
/// code point of the same number.
pub open spec fn spec_text(bytes: Seq<u8>) -> Seq<char> {
    Seq::new(bytes.len(), |i: int| bytes[i] as char)
}

/// Whether an octet is a printable ASCII character.
pub fn is_printable(b: u8) -> (r: bool)
    ensures
        r == spec_is_printable(b),
{
    0x20 <= b && b <= 0x7e
}

/// Whether an octet is a graphic ASCII character.
pub fn is_graphic(b: u8) -> (r: bool)
    ensures
        r == spec_is_graphic(b),
{
    0x21 <= b && b <= 0x7e
}

/// The printable octets of `s`, in order; everything else is dropped.
pub open spec fn spec_printable_only(s: Seq<u8>) -> Seq<u8>
    decreases s.len(),
{
    if s.len() == 0 {
        Seq::empty()
    } else if spec_is_printable(s.last()) {
        spec_printable_only(s.drop_last()).push(s.last())
    } else {
        spec_printable_only(s.drop_last())
    }
}

/// `s` made fit to show: printable octets stay, each line feed and each
/// carriage return becomes one space, everything else is dropped.
pub open spec fn spec_sanitize(s: Seq<u8>) -> Seq<u8>
    decreases s.len(),
{
    if s.len() == 0 {
        Seq::empty()
    } else if spec_is_printable(s.last()) {
        spec_sanitize(s.drop_last()).push(s.last())
    } else if spec_is_line_terminator(s.last()) {
        spec_sanitize(s.drop_last()).push(SPACE)
    } else {
        spec_sanitize(s.drop_last())
    }
}

/// `s` without the white space at its start.
pub open spec fn spec_trim_start(s: Seq<u8>) -> Seq<u8>
    decreases s.len(),
{
    if s.len() > 0 && spec_is_blank(s.first()) {
        spec_trim_start(s.drop_first())
    } else {
        s
    }
}

/// `s` without the white space at its end.
pub open spec fn spec_trim_end(s: Seq<u8>) -> Seq<u8>
    decreases s.len(),
{
    if s.len() > 0 && spec_is_blank(s.last()) {
        spec_trim_end(s.drop_last())
    } else {
        s
    }
}

/// `s` without the white space at its start and at its end.
pub open spec fn spec_trim(s: Seq<u8>) -> Seq<u8> {
    spec_trim_end(spec_trim_start(s))
}

/// The longest prefix of `s` made of graphic octets only.
pub open spec fn spec_graphic_prefix(s: Seq<u8>) -> Seq<u8>
    decreases s.len(),
{
    if s.len() > 0 && spec_is_graphic(s.first()) {
        seq![s.first()] + spec_graphic_prefix(s.drop_first())
    } else {
        Seq::empty()
    }
}

/// Whether `s` begins with `prefix`.
pub open spec fn spec_starts_with(s: Seq<u8>, prefix: Seq<u8>) -> bool {
    prefix.len() <= s.len() && s.take(prefix.len() as int) == prefix
}

/// Whether `needle` occurs in `s` as a run of adjacent octets.
pub open spec fn spec_contains(s: Seq<u8>, needle: Seq<u8>) -> bool {
    exists|k: int| 0 <= k <= s.len() && spec_starts_with(#[trigger] s.skip(k), needle)
}

/// An upper-case ASCII letter as its lower-case letter; any other octet as
/// itself.
pub open spec fn spec_lower(b: u8) -> u8 {
    if 0x41 <= b <= 0x5a {
        (b + 0x20) as u8
    } else {
        b
    }
}

/// Whether `s` begins with `prefix` when upper and lower case count as the
/// same. `prefix` is given in lower case.
pub open spec fn spec_starts_with_ignore_case(s: Seq<u8>, prefix: Seq<u8>) -> bool {
    prefix.len() <= s.len() && forall|i: int|
        0 <= i < prefix.len() ==> spec_lower(#[trigger] s[i]) == prefix[i]
}

/// How many octets stand before the first `stop` in `s`: the length of `s`
/// where it holds none.
pub open spec fn spec_until(s: Seq<u8>, stop: u8) -> int
    decreases s.len(),
{
    if s.len() == 0 || s.first() == stop {
        0
    } else {
        1 + spec_until(s.drop_first(), stop)
    }
}

/// How many octets stand before the first line feed of `s`.
pub open spec fn spec_line_len(s: Seq<u8>) -> int {
    spec_until(s, LINE_FEED)
}

/// What follows the first line of `s` and its line feed.
pub open spec fn spec_after_line(s: Seq<u8>) -> Seq<u8> {
    if spec_line_len(s) < s.len() {
        s.skip(spec_line_len(s) + 1)
    } else {
        Seq::empty()
    }
}

/// The lines of `s`: the runs of octets between line feeds, without the line
/// feeds. A line feed at the very end starts no further line, so the empty
/// text has no line and `"a\n"` has one.
pub open spec fn spec_lines(s: Seq<u8>) -> Seq<Seq<u8>>
    decreases s.len(),
{
    if s.len() == 0 {
        Seq::empty()
    } else {
        proof {
            lemma_until_bounds(s, LINE_FEED);
        }
        seq![s.take(spec_line_len(s))] + spec_lines(spec_after_line(s))
    }
}

/// The fields of `s`: the runs of octets between the occurrences of
/// `separator`. There is one more field than there are separators, so the
/// empty text has one empty field.
pub open spec fn spec_fields(s: Seq<u8>, separator: u8) -> Seq<Seq<u8>>
    decreases s.len(),
{
    if spec_until(s, separator) < s.len() {
        proof {
            lemma_until_bounds(s, separator);
        }
        seq![s.take(spec_until(s, separator))] + spec_fields(
            s.skip(spec_until(s, separator) + 1),
            separator,
        )
    } else {
        seq![s]
    }
}

/// The first `stop` cannot stand behind the end of the text, and nothing
/// before it is a `stop`.
pub proof fn lemma_until_bounds(s: Seq<u8>, stop: u8)
    ensures
        0 <= spec_until(s, stop) <= s.len(),
        spec_until(s, stop) < s.len() ==> s[spec_until(s, stop)] == stop,
        forall|i: int| 0 <= i < spec_until(s, stop) ==> s[i] != stop,
    decreases s.len(),
{
    if s.len() == 0 || s.first() == stop {
    } else {
        lemma_until_bounds(s.drop_first(), stop);
        assert forall|i: int| 0 <= i < spec_until(s, stop) implies s[i] != stop by {
            if i > 0 {
                assert(s[i] == s.drop_first()[i - 1]);
            }
        }
    }
}

/// The first `stop` is where a scan from the start meets one.
pub proof fn lemma_until_is(s: Seq<u8>, stop: u8, k: int)
    requires
        0 <= k <= s.len(),
        forall|i: int| 0 <= i < k ==> s[i] != stop,
        k < s.len() ==> s[k] == stop,
    ensures
        spec_until(s, stop) == k,
    decreases s.len(),
{
    if s.len() == 0 || s.first() == stop {
        if k > 0 {
            assert(s[0] != stop);
        }
    } else {
        assert(k > 0);
        let t = s.drop_first();
        assert forall|i: int| 0 <= i < k - 1 implies t[i] != stop by {
            assert(t[i] == s[i + 1]);
        }
        lemma_until_is(t, stop, k - 1);
    }
}

/// Whether a text is made of printable octets only.
pub open spec fn spec_all_printable(s: Seq<u8>) -> bool {
    forall|i: int| 0 <= i < s.len() ==> spec_is_printable(#[trigger] s[i])
}

/// What is left of a text after sanitizing or after dropping what cannot be
/// printed is printable, and trimming and cutting keep it so.
pub proof fn lemma_printable(s: Seq<u8>)
    ensures
        spec_all_printable(spec_sanitize(s)),
        spec_all_printable(spec_printable_only(s)),
        spec_all_printable(spec_graphic_prefix(s)),
        spec_all_printable(s) ==> spec_all_printable(spec_trim(s)),
    decreases s.len(),
{
    if s.len() > 0 {
        lemma_printable(s.drop_last());
        lemma_printable(s.drop_first());
    }
    if spec_all_printable(s) {
        lemma_trim_keeps(s);
    }
}

/// Trimming cuts a text at both ends and changes nothing in between.
pub proof fn lemma_trim_keeps(s: Seq<u8>)
    ensures
        exists|from: int, to: int|
            0 <= from <= to <= s.len() && spec_trim(s) == #[trigger] s.subrange(from, to),
        spec_all_printable(s) ==> spec_all_printable(spec_trim(s)),
{
    lemma_trim_start_is_tail(s);
    let from = choose|from: int| 0 <= from <= s.len() && spec_trim_start(s) == #[trigger] s.skip(from);
    let tail = s.skip(from);
    lemma_trim_end_is_head(tail);
    let len = choose|len: int| 0 <= len <= tail.len() && spec_trim_end(tail) == #[trigger] tail.take(len);
    assert(tail.take(len) =~= s.subrange(from, from + len));
    if spec_all_printable(s) {
        assert forall|i: int| 0 <= i < spec_trim(s).len() implies spec_is_printable(
            #[trigger] spec_trim(s)[i],
        ) by {
            assert(spec_trim(s)[i] == s[from + i]);
        }
    }
}

proof fn lemma_trim_start_is_tail(s: Seq<u8>)
    ensures
        exists|from: int| 0 <= from <= s.len() && spec_trim_start(s) == #[trigger] s.skip(from),
    decreases s.len(),
{
    if s.len() > 0 && spec_is_blank(s.first()) {
        let rest = s.drop_first();
        lemma_trim_start_is_tail(rest);
        let from = choose|from: int|
            0 <= from <= rest.len() && spec_trim_start(rest) == #[trigger] rest.skip(from);
        assert(rest.skip(from) =~= s.skip(from + 1));
    } else {
        assert(s.skip(0) =~= s);
    }
}

proof fn lemma_trim_end_is_head(s: Seq<u8>)
    ensures
        exists|len: int| 0 <= len <= s.len() && spec_trim_end(s) == #[trigger] s.take(len),
    decreases s.len(),
{
    if s.len() > 0 && spec_is_blank(s.last()) {
        let rest = s.drop_last();
        lemma_trim_end_is_head(rest);
        let len = choose|len: int|
            0 <= len <= rest.len() && spec_trim_end(rest) == #[trigger] rest.take(len);
        assert(rest.take(len) =~= s.take(len));
    } else {
        assert(s.take(s.len() as int) =~= s);
    }
}

/// How many octets stand at the start of `s` that are all white space
/// (`blank` is true) or all something else (`blank` is false).
pub open spec fn spec_run_len(s: Seq<u8>, blank: bool) -> int
    decreases s.len(),
{
    if s.len() == 0 || spec_is_blank(s.first()) != blank {
        0
    } else {
        1 + spec_run_len(s.drop_first(), blank)
    }
}

/// The words of `s`: its longest runs of octets that are not white space,
/// in order.
pub open spec fn spec_words(s: Seq<u8>) -> Seq<Seq<u8>>
    decreases s.len(),
{
    let rest = s.skip(spec_run_len(s, true));
    if rest.len() == 0 {
        Seq::empty()
    } else {
        proof {
            lemma_run_bounds(s, true);
            lemma_run_bounds(rest, false);
        }
        seq![rest.take(spec_run_len(rest, false))] + spec_words(
            rest.skip(spec_run_len(rest, false)),
        )
    }
}

/// A run ends within the text, at the first octet of the other kind.
pub proof fn lemma_run_bounds(s: Seq<u8>, blank: bool)
    ensures
        0 <= spec_run_len(s, blank) <= s.len(),
        spec_run_len(s, blank) < s.len() ==> spec_is_blank(s[spec_run_len(s, blank)]) != blank,
        forall|i: int| 0 <= i < spec_run_len(s, blank) ==> spec_is_blank(s[i]) == blank,
    decreases s.len(),
{
    if s.len() == 0 || spec_is_blank(s.first()) != blank {
    } else {
        lemma_run_bounds(s.drop_first(), blank);
        assert forall|i: int| 0 <= i < spec_run_len(s, blank) implies spec_is_blank(s[i])
            == blank by {
            if i > 0 {
                assert(s[i] == s.drop_first()[i - 1]);
            }
        }
    }
}

/// A run is as long as a scan from the start finds it.
pub proof fn lemma_run_is(s: Seq<u8>, blank: bool, k: int)
    requires
        0 <= k <= s.len(),
        forall|i: int| 0 <= i < k ==> spec_is_blank(s[i]) == blank,
        k < s.len() ==> spec_is_blank(s[k]) != blank,
    ensures
        spec_run_len(s, blank) == k,
    decreases s.len(),
{
    if s.len() == 0 || spec_is_blank(s.first()) != blank {
        if k > 0 {
            assert(spec_is_blank(s[0]) == blank);
        }
    } else {
        assert(k > 0);
        let t = s.drop_first();
        assert forall|i: int| 0 <= i < k - 1 implies spec_is_blank(t[i]) == blank by {
            assert(t[i] == s[i + 1]);
        }
        lemma_run_is(t, blank, k - 1);
    }
}

/// The number that a run of decimal digits denotes.
pub open spec fn spec_decimal_value(digits: Seq<u8>) -> nat
    decreases digits.len(),
{
    if digits.len() == 0 {
        0
    } else {
        spec_decimal_value(digits.drop_last()) * 10 + (digits.last() - 0x30) as nat
    }
}

/// Whether an octet is a decimal digit.
pub open spec fn spec_is_digit(b: u8) -> bool {
    0x30 <= b <= 0x39
}

/// Whether a text is made of decimal digits only.
pub open spec fn spec_all_digits(digits: Seq<u8>) -> bool {
    forall|i: int| 0 <= i < digits.len() ==> spec_is_digit(#[trigger] digits[i])
}

/// The number that a text denotes, where it is one or more decimal digits
/// and the number is no larger than `max`.
pub open spec fn spec_parse_decimal(digits: Seq<u8>, max: nat) -> Option<nat> {
    if digits.len() > 0 && spec_all_digits(digits) && spec_decimal_value(digits) <= max {
        Some(spec_decimal_value(digits))
    } else {
        None
    }
}

/// More digits never denote less.
pub proof fn lemma_decimal_monotone(digits: Seq<u8>, k: int)
    requires
        0 <= k <= digits.len(),
        spec_all_digits(digits),
    ensures
        spec_decimal_value(digits.take(k)) <= spec_decimal_value(digits),
    decreases digits.len(),
{
    if k == digits.len() {
        assert(digits.take(k) == digits);
    } else {
        let shorter = digits.drop_last();
        assert(shorter.take(k) == digits.take(k));
        assert forall|i: int| 0 <= i < shorter.len() implies spec_is_digit(
            #[trigger] shorter[i],
        ) by {
            assert(shorter[i] == digits[i]);
        }
        lemma_decimal_monotone(shorter, k);
        assert(spec_is_digit(digits[digits.len() - 1]));
    }
}

/// Whether an octet is ASCII white space.
pub fn is_blank(b: u8) -> (r: bool)
    ensures
        r == spec_is_blank(b),
{
    b == SPACE || (0x09 <= b && b <= 0x0d)
}

/// Whether an octet ends a line or belongs to a line ending.
pub fn is_line_terminator(b: u8) -> (r: bool)
    ensures
        r == spec_is_line_terminator(b),
{
    b == LINE_FEED || b == CARRIAGE_RETURN
}

/// The printable octets of `bytes`, in order.
pub fn printable_only(bytes: &[u8]) -> (out: Vec<u8>)
    ensures
        out@ == spec_printable_only(bytes@),
{
    let mut out: Vec<u8> = Vec::new();
    let mut i: usize = 0;
    while i < bytes.len()
        invariant
            i <= bytes.len(),
            out@ == spec_printable_only(bytes@.take(i as int)),
        decreases bytes.len() - i,
    {
        assert(bytes@.take(i + 1).drop_last() == bytes@.take(i as int));
        if is_printable(bytes[i]) {
            out.push(bytes[i]);
        }
        i = i + 1;
    }
    assert(bytes@.take(i as int) == bytes@);
    out
}

/// `bytes` made fit to show: printable octets stay, line feeds and carriage
/// returns become spaces, everything else is dropped.
pub fn sanitize(bytes: &[u8]) -> (out: Vec<u8>)
    ensures
        out@ == spec_sanitize(bytes@),
{
    let mut out: Vec<u8> = Vec::new();
    let mut i: usize = 0;
    while i < bytes.len()
        invariant
            i <= bytes.len(),
            out@ == spec_sanitize(bytes@.take(i as int)),
        decreases bytes.len() - i,
    {
        assert(bytes@.take(i + 1).drop_last() == bytes@.take(i as int));
        if is_printable(bytes[i]) {
            out.push(bytes[i]);
        } else if is_line_terminator(bytes[i]) {
            out.push(SPACE);
        }
        i = i + 1;
    }
    assert(bytes@.take(i as int) == bytes@);
    out
}

/// A copy of the octets of `bytes` from `from` up to `to`.
fn copy_range(bytes: &[u8], from: usize, to: usize) -> (out: Vec<u8>)
    requires
        from <= to <= bytes.len(),
    ensures
        out@ == bytes@.subrange(from as int, to as int),
{
    let mut out: Vec<u8> = Vec::new();
    let mut i: usize = from;
    while i < to
        invariant
            from <= i <= to <= bytes.len(),
            out@ == bytes@.subrange(from as int, i as int),
        decreases to - i,
    {
        out.push(bytes[i]);
        i = i + 1;
    }
    out
}

/// `bytes` without the white space at its start and at its end.
pub fn trim(bytes: &[u8]) -> (out: Vec<u8>)
    ensures
        out@ == spec_trim(bytes@),
{
    let n = bytes.len();
    let mut start: usize = 0;
    assert(bytes@.skip(0) == bytes@);
    while start < n && is_blank(bytes[start])
        invariant
            start <= n == bytes.len(),
            spec_trim_start(bytes@) == spec_trim_start(bytes@.skip(start as int)),
        decreases n - start,
    {
        assert(bytes@.skip(start as int).drop_first() == bytes@.skip(start + 1));
        start = start + 1;
    }
    assert(spec_trim_start(bytes@) == bytes@.skip(start as int));
    let mut end: usize = n;
    assert(bytes@.skip(start as int) == bytes@.subrange(start as int, end as int));
    while end > start && is_blank(bytes[end - 1])
        invariant
            start <= end <= n == bytes.len(),
            spec_trim(bytes@) == spec_trim_end(bytes@.subrange(start as int, end as int)),
        decreases end - start,
    {
        assert(bytes@.subrange(start as int, end as int).drop_last() == bytes@.subrange(
            start as int,
            end - 1,
        ));
        end = end - 1;
    }
    copy_range(bytes, start, end)
}

/// The longest prefix of `bytes` made of graphic octets only.
pub fn graphic_prefix(bytes: &[u8]) -> (out: Vec<u8>)
    ensures
        out@ == spec_graphic_prefix(bytes@),
{
    let mut out: Vec<u8> = Vec::new();
    let mut i: usize = 0;
    assert(bytes@.skip(0) == bytes@);
    while i < bytes.len() && is_graphic(bytes[i])
        invariant
            i <= bytes.len(),
            spec_graphic_prefix(bytes@) == out@ + spec_graphic_prefix(bytes@.skip(i as int)),
        decreases bytes.len() - i,
    {
        assert(bytes@.skip(i as int).drop_first() == bytes@.skip(i + 1));
        out.push(bytes[i]);
        i = i + 1;
    }
    out
}

/// Whether `bytes` begins with `prefix`.
pub fn starts_with(bytes: &[u8], prefix: &[u8]) -> (r: bool)
    ensures
        r == spec_starts_with(bytes@, prefix@),
{
    if prefix.len() > bytes.len() {
        return false;
    }
    let mut i: usize = 0;
    while i < prefix.len()
        invariant
            i <= prefix.len() <= bytes.len(),
            forall|j: int| 0 <= j < i ==> bytes@[j] == prefix@[j],
        decreases prefix.len() - i,
    {
        if bytes[i] != prefix[i] {
            assert(bytes@.take(prefix.len() as int)[i as int] != prefix@[i as int]);
            return false;
        }
        i = i + 1;
    }
    assert(bytes@.take(prefix.len() as int) =~= prefix@);
    true
}

/// An upper-case ASCII letter as its lower-case letter; any other octet as
/// itself.
pub fn lower(b: u8) -> (r: u8)
    ensures
        r == spec_lower(b),
{
    if 0x41 <= b && b <= 0x5a {
        b + 0x20
    } else {
        b
    }
}

/// Whether `bytes` begins with `prefix` when upper and lower case count as
/// the same. `prefix` is given in lower case.
pub fn starts_with_ignore_case(bytes: &[u8], prefix: &[u8]) -> (r: bool)
    ensures
        r == spec_starts_with_ignore_case(bytes@, prefix@),
{
    if prefix.len() > bytes.len() {
        return false;
    }
    let mut i: usize = 0;
    while i < prefix.len()
        invariant
            i <= prefix.len() <= bytes.len(),
            forall|j: int| 0 <= j < i ==> spec_lower(#[trigger] bytes@[j]) == prefix@[j],
        decreases prefix.len() - i,
    {
        if lower(bytes[i]) != prefix[i] {
            return false;
        }
        i = i + 1;
    }
    true
}

/// Whether `needle` occurs in `bytes` as a run of adjacent octets.
pub fn contains(bytes: &[u8], needle: &[u8]) -> (r: bool)
    ensures
        r == spec_contains(bytes@, needle@),
{
    let n = bytes.len();
    let mut k: usize = 0;
    while k < n
        invariant
            k <= n == bytes.len(),
            forall|j: int| 0 <= j < k ==> !spec_starts_with(#[trigger] bytes@.skip(j), needle@),
        decreases n - k,
    {
        let rest = &bytes[k..n];
        assert(rest@ == bytes@.skip(k as int));
        if starts_with(rest, needle) {
            return true;
        }
        k = k + 1;
    }
    let rest = &bytes[n..n];
    assert(rest@ == bytes@.skip(n as int));
    starts_with(rest, needle)
}

/// The fields of `bytes`: the runs of octets between the occurrences of
/// `separator`.
pub fn split_fields(bytes: &[u8], separator: u8) -> (fields: Vec<Vec<u8>>)
    ensures
        fields@.len() == spec_fields(bytes@, separator).len(),
        forall|i: int|
            0 <= i < fields@.len() ==> (#[trigger] fields@[i])@ == spec_fields(
                bytes@,
                separator,
            )[i],
{
    let n = bytes.len();
    let mut fields: Vec<Vec<u8>> = Vec::new();
    let mut pos: usize = 0;
    let ghost mut done: Seq<Seq<u8>> = Seq::empty();
    assert(bytes@.skip(0) == bytes@);
    loop
        invariant_except_break
            done.len() == fields@.len(),
            forall|i: int| 0 <= i < fields@.len() ==> (#[trigger] fields@[i])@ == done[i],
            spec_fields(bytes@, separator) == done + spec_fields(
                bytes@.skip(pos as int),
                separator,
            ),
        invariant
            pos <= n == bytes.len(),
        ensures
            fields@.len() == spec_fields(bytes@, separator).len(),
            forall|i: int|
                0 <= i < fields@.len() ==> (#[trigger] fields@[i])@ == spec_fields(
                    bytes@,
                    separator,
                )[i],
        decreases n - pos,
    {
        let ghost rest = bytes@.skip(pos as int);
        let mut end: usize = pos;
        while end < n && bytes[end] != separator
            invariant
                pos <= end <= n == bytes.len(),
                forall|i: int| pos <= i < end ==> bytes@[i] != separator,
            decreases n - end,
        {
            end = end + 1;
        }
        proof {
            lemma_until_is(rest, separator, end - pos);
            assert(rest.take((end - pos) as int) == bytes@.subrange(pos as int, end as int));
        }
        let field = copy_range(bytes, pos, end);
        fields.push(field);
        proof {
            done = done.push(bytes@.subrange(pos as int, end as int));
        }
        if end < n {
            assert(rest.skip(end - pos + 1) == bytes@.skip(end + 1));
            pos = end + 1;
        } else {
            assert(rest == bytes@.subrange(pos as int, end as int));
            break ;
        }
    }
    fields
}

/// The words of `bytes`: its longest runs of octets that are not white
/// space, in order.
pub fn split_words(bytes: &[u8]) -> (words: Vec<Vec<u8>>)
    ensures
        words@.len() == spec_words(bytes@).len(),
        forall|i: int| 0 <= i < words@.len() ==> (#[trigger] words@[i])@ == spec_words(bytes@)[i],
{
    let n = bytes.len();
    let mut words: Vec<Vec<u8>> = Vec::new();
    let mut pos: usize = 0;
    let ghost mut done: Seq<Seq<u8>> = Seq::empty();
    assert(bytes@.skip(0) == bytes@);
    loop
        invariant_except_break
            done.len() == words@.len(),
            forall|i: int| 0 <= i < words@.len() ==> (#[trigger] words@[i])@ == done[i],
            spec_words(bytes@) == done + spec_words(bytes@.skip(pos as int)),
        invariant
            pos <= n == bytes.len(),
        ensures
            words@.len() == spec_words(bytes@).len(),
            forall|i: int|
                0 <= i < words@.len() ==> (#[trigger] words@[i])@ == spec_words(bytes@)[i],
        decreases n - pos,
    {
        let ghost here = bytes@.skip(pos as int);
        let mut start: usize = pos;
        while start < n && is_blank(bytes[start])
            invariant
                pos <= start <= n == bytes.len(),
                forall|i: int| pos <= i < start ==> spec_is_blank(bytes@[i]),
            decreases n - start,
        {
            start = start + 1;
        }
        proof {
            lemma_run_is(here, true, start - pos);
            assert(here.skip(start - pos) == bytes@.skip(start as int));
        }
        if start == n {
            break ;
        }
        let ghost rest = bytes@.skip(start as int);
        let mut end: usize = start;
        while end < n && !is_blank(bytes[end])
            invariant
                start <= end <= n == bytes.len(),
                forall|i: int| start <= i < end ==> !spec_is_blank(bytes@[i]),
            decreases n - end,
        {
            end = end + 1;
        }
        proof {
            lemma_run_is(rest, false, end - start);
            assert(rest.take((end - start) as int) == bytes@.subrange(start as int, end as int));
            assert(rest.skip(end - start) == bytes@.skip(end as int));
        }
        let word = copy_range(bytes, start, end);
        words.push(word);
        proof {
            done = done.push(bytes@.subrange(start as int, end as int));
        }
        pos = end;
    }
    words
}

/// Whether an octet is a decimal digit.
pub fn is_digit(b: u8) -> (r: bool)
    ensures
        r == spec_is_digit(b),
{
    0x30 <= b && b <= 0x39
}

/// The number that a text denotes, where it is one or more decimal digits
/// and the number is no larger than `max`.
pub fn parse_decimal(digits: &[u8], max: u32) -> (number: Option<u32>)
    ensures
        match number {
            Some(n) => spec_parse_decimal(digits@, max as nat) == Some(n as nat),
            None => spec_parse_decimal(digits@, max as nat) is None,
        },
{
    if digits.len() == 0 {
        return None;
    }
    let mut value: u64 = 0;
    let mut i: usize = 0;
    while i < digits.len()
        invariant
            i <= digits.len(),
            spec_all_digits(digits@.take(i as int)),
            value == spec_decimal_value(digits@.take(i as int)),
            value <= max,
        decreases digits.len() - i,
    {
        if !is_digit(digits[i]) {
            return None;
        }
        assert(digits@.take(i + 1).drop_last() == digits@.take(i as int));
        value = value * 10 + (digits[i] - 0x30) as u64;
        i = i + 1;
        assert forall|k: int| 0 <= k < i implies spec_is_digit(
            #[trigger] digits@.take(i as int)[k],
        ) by {
            if k < i - 1 {
                assert(digits@.take(i as int)[k] == digits@.take(i - 1)[k]);
            }
        }
        if value > max as u64 {
            proof {
                if spec_all_digits(digits@) {
                    lemma_decimal_monotone(digits@, i as int);
                }
            }
            return None;
        }
    }
    assert(digits@.take(i as int) == digits@);
    Some(value as u32)
}

/// The lines of `bytes`: the runs of octets between line feeds.
pub fn split_lines(bytes: &[u8]) -> (lines: Vec<Vec<u8>>)
    ensures
        lines@.len() == spec_lines(bytes@).len(),
        forall|i: int| 0 <= i < lines@.len() ==> (#[trigger] lines@[i])@ == spec_lines(bytes@)[i],
{
    let n = bytes.len();
    let mut lines: Vec<Vec<u8>> = Vec::new();
    let mut pos: usize = 0;
    let ghost mut done: Seq<Seq<u8>> = Seq::empty();
    assert(bytes@.skip(0) == bytes@);
    while pos < n
        invariant
            pos <= n == bytes.len(),
            done.len() == lines@.len(),
            forall|i: int| 0 <= i < lines@.len() ==> (#[trigger] lines@[i])@ == done[i],
            spec_lines(bytes@) == done + spec_lines(bytes@.skip(pos as int)),
        decreases n - pos,
    {
        let ghost rest = bytes@.skip(pos as int);
        let mut end: usize = pos;
        while end < n && bytes[end] != LINE_FEED
            invariant
                pos <= end <= n == bytes.len(),
                forall|i: int| pos <= i < end ==> bytes@[i] != LINE_FEED,
            decreases n - end,
        {
            end = end + 1;
        }
        proof {
            lemma_until_is(rest, LINE_FEED, end - pos);
            assert(rest.take((end - pos) as int) == bytes@.subrange(pos as int, end as int));
        }
        let line = copy_range(bytes, pos, end);
        lines.push(line);
        proof {
            done = done.push(bytes@.subrange(pos as int, end as int));
        }
        if end < n {
            assert(spec_after_line(rest) == bytes@.skip(end + 1));
            pos = end + 1;
        } else {
            assert(spec_after_line(rest) == bytes@.skip(n as int));
            pos = n;
        }
    }
    assert(spec_lines(bytes@.skip(pos as int)) == Seq::<Seq<u8>>::empty());
    lines
}

/// `String::push` of the standard library. The contract is its
/// documentation, taken on trust: the character is appended at the end and
/// nothing else changes.
#[verifier::external_body]
fn push_char(s: &mut String, c: char)
    ensures
        final(s)@ == old(s)@.push(c),
{
    s.push(c)
}

/// Appends octets to a string, each as the character of the same number.
pub fn append_text(s: &mut String, bytes: &[u8])
    ensures
        final(s)@ == old(s)@ + spec_text(bytes@),
{
    let mut i: usize = 0;
    while i < bytes.len()
        invariant
            i <= bytes.len(),
            s@ == old(s)@ + spec_text(bytes@.take(i as int)),
        decreases bytes.len() - i,
    {
        push_char(s, bytes[i] as char);
        i = i + 1;
        assert(spec_text(bytes@.take(i as int)) == spec_text(bytes@.take(i - 1)).push(
            bytes@[i - 1] as char,
        ));
    }
    assert(bytes@.take(i as int) == bytes@);
}

/// The string that a sequence of octets denotes.
pub fn text_of(bytes: &[u8]) -> (s: String)
    ensures
        s@ == spec_text(bytes@),
{
    let mut s = String::new();
    append_text(&mut s, bytes);
    s
}

} // verus!
