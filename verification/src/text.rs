//! Character-level helpers shared by the parser and the renderers.
//!
//! Text is modelled as `Seq<char>`, the view of `str` and `String`. Executable
//! code scans a `[char]` copy of the text and cuts its results out of the
//! string itself by character positions.
use vstd::prelude::*;
use vstd::string::StrSliceExecFns;
use vstd::string::StringExecFns;

verus! {

/// `pat` stands in `text` at index `i`.
pub open spec fn occurs_at(text: Seq<char>, pat: Seq<char>, i: int) -> bool {
    &&& 0 <= i
    &&& i + pat.len() <= text.len()
    &&& text.subrange(i, i + pat.len()) == pat
}

/// The least index at or after `from` at which `pat` stands in `text`.
pub open spec fn first_occurrence(text: Seq<char>, pat: Seq<char>, from: int) -> Option<int>
    decreases text.len() - from + 1,
{
    if from < 0 || from + pat.len() > text.len() {
        None
    } else if occurs_at(text, pat, from) {
        Some(from)
    } else {
        first_occurrence(text, pat, from + 1)
    }
}

/// Index `i` is the start of a line of `text`.
pub open spec fn is_line_start(text: Seq<char>, i: int) -> bool {
    0 <= i <= text.len() && (i == 0 || text[i - 1] == '\n')
}

/// A line of `text` starts at `i`, and it starts with `pat`.
pub open spec fn line_starts_with(text: Seq<char>, pat: Seq<char>, i: int) -> bool {
    is_line_start(text, i) && occurs_at(text, pat, i)
}

/// The start of the first line that starts with `pat`, among the lines that
/// start at or after `from`.
pub open spec fn first_line_with(text: Seq<char>, pat: Seq<char>, from: int) -> Option<int>
    decreases text.len() - from + 1,
{
    if from < 0 || from > text.len() {
        None
    } else if line_starts_with(text, pat, from) {
        Some(from)
    } else {
        first_line_with(text, pat, from + 1)
    }
}

/// The earlier of two positions, either of which may be missing.
pub open spec fn earlier(a: Option<int>, b: Option<int>) -> Option<int> {
    match (a, b) {
        (Some(x), Some(y)) => Some(if x <= y {
            x
        } else {
            y
        }),
        (Some(x), None) => Some(x),
        (None, _) => b,
    }
}

/// Where a piece of text that starts at `start` ends if the line that starts
/// at `next` is not part of it: before the line feed that ends the line
/// before, or at the end of the text where no such line follows.
pub open spec fn end_before(text: Seq<char>, start: int, next: Option<int>) -> int {
    match next {
        Some(at) => if at > start {
            at - 1
        } else {
            start
        },
        None => text.len() as int,
    }
}

/// The index of the first `c` at or after `from`, or the length of `text`.
pub open spec fn next_char(text: Seq<char>, c: char, from: int) -> int
    decreases text.len() - from,
{
    if from < 0 || from >= text.len() {
        text.len() as int
    } else if text[from] == c {
        from
    } else {
        next_char(text, c, from + 1)
    }
}

/// The index of the first line feed at or after `from`, or the length of `text`.
pub open spec fn line_end(text: Seq<char>, from: int) -> int {
    next_char(text, '\n', from)
}

/// The pieces of `text` between the given bounds.
pub open spec fn cut(text: Seq<char>, spans: Seq<(int, int)>) -> Seq<Seq<char>> {
    Seq::new(spans.len(), |k: int| text.subrange(spans[k].0, spans[k].1))
}

/// An executable position as a mathematical one.
pub open spec fn position_view(position: Option<usize>) -> Option<int> {
    match position {
        Some(i) => Some(i as int),
        None => None,
    }
}

/// Executable bounds as mathematical ones.
pub open spec fn spans_view(spans: Seq<(usize, usize)>) -> Seq<(int, int)> {
    Seq::new(spans.len(), |k: int| (spans[k].0 as int, spans[k].1 as int))
}

/// Every pair of bounds is in order and ends inside a text of length `len`.
pub open spec fn spans_within(spans: Seq<(usize, usize)>, len: int) -> bool {
    forall|k: int| 0 <= k < spans.len() ==> (#[trigger] spans[k]).0 <= spans[k].1 <= len
}

/// `first_occurrence` returns an occurrence, and none stands before it.
pub proof fn lemma_first_occurrence(text: Seq<char>, pat: Seq<char>, from: int)
    requires
        0 <= from,
    ensures
        match first_occurrence(text, pat, from) {
            Some(i) => {
                &&& from <= i
                &&& occurs_at(text, pat, i)
                &&& forall|j: int| from <= j < i ==> !occurs_at(text, pat, j)
            },
            None => forall|j: int| from <= j ==> !occurs_at(text, pat, j),
        },
    decreases text.len() - from + 1,
{
    if from + pat.len() > text.len() {
    } else if occurs_at(text, pat, from) {
    } else {
        lemma_first_occurrence(text, pat, from + 1);
    }
}

/// An occurrence with none before it is the one that `first_occurrence` returns.
pub proof fn lemma_first_occurrence_found(text: Seq<char>, pat: Seq<char>, from: int, at: int)
    requires
        0 <= from <= at,
        occurs_at(text, pat, at),
        forall|j: int| from <= j < at ==> !occurs_at(text, pat, j),
    ensures
        first_occurrence(text, pat, from) == Some(at),
    decreases at - from,
{
    if from < at {
        lemma_first_occurrence_found(text, pat, from + 1, at);
    }
}

/// Where `pat` stands nowhere from `from` on, `first_occurrence` finds nothing.
pub proof fn lemma_first_occurrence_absent(text: Seq<char>, pat: Seq<char>, from: int)
    requires
        forall|j: int| from <= j ==> !occurs_at(text, pat, j),
    ensures
        first_occurrence(text, pat, from) is None,
    decreases text.len() - from + 1,
{
    if from < 0 || from + pat.len() > text.len() {
    } else {
        lemma_first_occurrence_absent(text, pat, from + 1);
    }
}

/// `first_line_with` returns the start of a line that starts with `pat`, and
/// none such starts before it.
pub proof fn lemma_first_line_with(text: Seq<char>, pat: Seq<char>, from: int)
    requires
        0 <= from,
    ensures
        match first_line_with(text, pat, from) {
            Some(i) => {
                &&& from <= i <= text.len()
                &&& line_starts_with(text, pat, i)
                &&& forall|j: int| from <= j < i ==> !line_starts_with(text, pat, j)
            },
            None => forall|j: int| from <= j ==> !line_starts_with(text, pat, j),
        },
    decreases text.len() - from + 1,
{
    if from <= text.len() && !line_starts_with(text, pat, from) {
        lemma_first_line_with(text, pat, from + 1);
    }
}

/// A line that starts with `pat`, with none such before it, is the one that
/// `first_line_with` returns.
pub proof fn lemma_first_line_with_found(text: Seq<char>, pat: Seq<char>, from: int, at: int)
    requires
        0 <= from <= at,
        line_starts_with(text, pat, at),
        forall|j: int| from <= j < at ==> !line_starts_with(text, pat, j),
    ensures
        first_line_with(text, pat, from) == Some(at),
    decreases at - from,
{
    if from < at {
        lemma_first_line_with_found(text, pat, from + 1, at);
    }
}

/// Where no line from `from` on starts with `pat`, `first_line_with` finds nothing.
pub proof fn lemma_first_line_with_absent(text: Seq<char>, pat: Seq<char>, from: int)
    requires
        forall|j: int| from <= j ==> !line_starts_with(text, pat, j),
    ensures
        first_line_with(text, pat, from) is None,
    decreases text.len() - from + 1,
{
    if 0 <= from <= text.len() {
        lemma_first_line_with_absent(text, pat, from + 1);
    }
}

/// `next_char` lies between `from` and the end, no `c` stands before it, and
/// one stands at it unless it is the end.
pub proof fn lemma_next_char(text: Seq<char>, c: char, from: int)
    requires
        0 <= from <= text.len(),
    ensures
        from <= next_char(text, c, from) <= text.len(),
        forall|j: int| from <= j < next_char(text, c, from) ==> text[j] != c,
        next_char(text, c, from) < text.len() ==> text[next_char(text, c, from)] == c,
    decreases text.len() - from,
{
    if from < text.len() && text[from] != c {
        lemma_next_char(text, c, from + 1);
    }
}

/// `line_end` lies between `from` and the end, no line feed stands before it,
/// and one stands at it unless it is the end.
pub proof fn lemma_line_end(text: Seq<char>, from: int)
    requires
        0 <= from <= text.len(),
    ensures
        from <= line_end(text, from) <= text.len(),
        forall|j: int| from <= j < line_end(text, from) ==> text[j] != '\n',
        line_end(text, from) < text.len() ==> text[line_end(text, from)] == '\n',
{
    lemma_next_char(text, '\n', from);
}

/// The character that writes the digit `d`.
pub open spec fn digit(d: nat) -> char {
    if d == 0 {
        '0'
    } else if d == 1 {
        '1'
    } else if d == 2 {
        '2'
    } else if d == 3 {
        '3'
    } else if d == 4 {
        '4'
    } else if d == 5 {
        '5'
    } else if d == 6 {
        '6'
    } else if d == 7 {
        '7'
    } else if d == 8 {
        '8'
    } else {
        '9'
    }
}

/// The number `n` written in base ten, without leading zeros.
pub open spec fn decimal(n: nat) -> Seq<char>
    decreases n,
{
    if n < 10 {
        seq![digit(n)]
    } else {
        decimal(n / 10).push(digit(n % 10))
    }
}

/// The items written one after another, with `sep` between each two.
pub open spec fn join(items: Seq<Seq<char>>, sep: Seq<char>) -> Seq<char>
    decreases items.len(),
{
    if items.len() == 0 {
        Seq::empty()
    } else if items.len() == 1 {
        items[0]
    } else {
        join(items.drop_last(), sep) + sep + items.last()
    }
}

/// The characters that Unicode counts as white space (`White_Space`).
pub open spec fn is_whitespace(c: char) -> bool {
    let u = c as u32;
    ||| 0x09 <= u <= 0x0D
    ||| u == 0x20
    ||| u == 0x85
    ||| u == 0xA0
    ||| u == 0x1680
    ||| 0x2000 <= u <= 0x200A
    ||| u == 0x2028
    ||| u == 0x2029
    ||| u == 0x202F
    ||| u == 0x205F
    ||| u == 0x3000
}

/// The length of `text` without the white space at its end.
pub open spec fn trimmed_len(text: Seq<char>) -> int
    decreases text.len(),
{
    if text.len() > 0 && is_whitespace(text.last()) {
        trimmed_len(text.drop_last())
    } else {
        text.len() as int
    }
}

/// `text` without the white space at its end.
pub open spec fn trim_end(text: Seq<char>) -> Seq<char> {
    text.take(trimmed_len(text))
}

/// Trimming cuts nothing but the end: what is left is no longer than the text.
pub proof fn lemma_trimmed_len_bounds(text: Seq<char>)
    ensures
        0 <= trimmed_len(text) <= text.len(),
    decreases text.len(),
{
    if text.len() > 0 && is_whitespace(text.last()) {
        lemma_trimmed_len_bounds(text.drop_last());
    }
}

/// A trimmed text has no white space at its end, so trimming it again
/// changes nothing.
pub proof fn lemma_trim_end_is_trimmed(text: Seq<char>)
    ensures
        trim_end(text).len() > 0 ==> !is_whitespace(trim_end(text).last()),
        trim_end(trim_end(text)) == trim_end(text),
    decreases text.len(),
{
    lemma_trimmed_len_bounds(text);
    if text.len() > 0 && is_whitespace(text.last()) {
        let init = text.drop_last();
        lemma_trim_end_is_trimmed(init);
        lemma_trimmed_len_bounds(init);
        assert(trim_end(text) =~= trim_end(init));
    } else {
        assert(trim_end(text) =~= text);
    }
}

/// A piece of a piece of a text is a piece of the text.
pub proof fn lemma_cut_of_subrange(text: Seq<char>, lo: int, hi: int, spans: Seq<(int, int)>)
    requires
        0 <= lo <= hi <= text.len(),
        forall|k: int| 0 <= k < spans.len() ==> 0 <= (#[trigger] spans[k]).0 <= spans[k].1 <= hi - lo,
    ensures
        cut(text.subrange(lo, hi), spans) == cut(text.skip(lo), spans),
{
    assert forall|k: int| 0 <= k < spans.len() implies cut(text.subrange(lo, hi), spans)[k] == cut(
        text.skip(lo),
        spans,
    )[k] by {
        assert(text.subrange(lo, hi).subrange(spans[k].0, spans[k].1) =~= text.skip(lo).subrange(
            spans[k].0,
            spans[k].1,
        ));
    }
    assert(cut(text.subrange(lo, hi), spans) =~= cut(text.skip(lo), spans));
}

/// Copies the characters of `s` into a vector.
pub fn chars_of(s: &str) -> (v: Vec<char>)
    ensures
        v@ == s@,
{
    let mut v: Vec<char> = Vec::new();
    for c in it: s.chars()
        invariant
            v@ == it.seq().take(it.index() as int),
            it.seq() == s@,
    {
        v.push(c);
    }
    v
}

/// Tells whether `pat` stands in `text` at index `i`.
pub fn matches_at(text: &[char], pat: &[char], i: usize) -> (b: bool)
    ensures
        b == occurs_at(text@, pat@, i as int),
{
    if i > text.len() || pat.len() > text.len() - i {
        return false;
    }
    let mut k: usize = 0;
    while k < pat.len()
        invariant
            k <= pat.len(),
            i + pat.len() <= text.len(),
            forall|j: int| 0 <= j < k ==> text@[i + j] == pat@[j],
        decreases pat.len() - k,
    {
        if text[i + k] != pat[k] {
            assert(text@.subrange(i as int, i + pat.len())[k as int] == text@[i + k]);
            return false;
        }
        k += 1;
    }
    assert(text@.subrange(i as int, i + pat.len()) =~= pat@);
    true
}

/// Finds the first occurrence of `pat` in `text` at or after `from`.
pub fn find(text: &[char], pat: &[char], from: usize) -> (r: Option<usize>)
    ensures
        match r {
            Some(i) => first_occurrence(text@, pat@, from as int) == Some(i as int),
            None => first_occurrence(text@, pat@, from as int) is None,
        },
{
    if pat.len() > text.len() || from > text.len() - pat.len() {
        proof {
            lemma_first_occurrence_absent(text@, pat@, from as int);
        }
        return None;
    }
    let last: usize = text.len() - pat.len();
    let mut i: usize = from;
    loop
        invariant
            from <= i <= last,
            last + pat.len() == text.len(),
            forall|j: int| from <= j < i ==> !occurs_at(text@, pat@, j),
        decreases last - i,
    {
        if matches_at(text, pat, i) {
            proof {
                lemma_first_occurrence_found(text@, pat@, from as int, i as int);
            }
            return Some(i);
        }
        if i == last {
            proof {
                lemma_first_occurrence_absent(text@, pat@, from as int);
            }
            return None;
        }
        i += 1;
    }
}

/// Finds the start of the first line that starts with `pat`, among the lines
/// that start at or after `from`.
pub fn find_line_with(text: &[char], pat: &[char], from: usize) -> (r: Option<usize>)
    ensures
        match r {
            Some(i) => first_line_with(text@, pat@, from as int) == Some(i as int) && from <= i
                <= text.len(),
            None => first_line_with(text@, pat@, from as int) is None,
        },
{
    if from > text.len() {
        return None;
    }
    let mut pos: usize = from;
    loop
        invariant
            from <= pos <= text.len(),
            forall|j: int| from <= j < pos ==> !line_starts_with(text@, pat@, j),
        decreases text.len() - pos,
    {
        if (pos == 0 || text[pos - 1] == '\n') && matches_at(text, pat, pos) {
            proof {
                lemma_first_line_with_found(text@, pat@, from as int, pos as int);
            }
            return Some(pos);
        }
        let end = find_line_end(text, pos);
        proof {
            lemma_line_end(text@, pos as int);
            assert forall|j: int| pos < j <= end implies !line_starts_with(text@, pat@, j) by {
                assert(text@[j - 1] != '\n');
            }
        }
        if end == text.len() {
            proof {
                lemma_first_line_with_absent(text@, pat@, from as int);
            }
            return None;
        }
        pos = end + 1;
    }
}

/// Picks the earlier of two positions, either of which may be missing.
pub fn earlier_of(a: Option<usize>, b: Option<usize>) -> (r: Option<usize>)
    ensures
        position_view(r) == earlier(position_view(a), position_view(b)),
{
    match (a, b) {
        (Some(x), Some(y)) => Some(if x <= y {
            x
        } else {
            y
        }),
        (Some(x), None) => Some(x),
        (None, _) => b,
    }
}

/// Finds where a piece of text that starts at `start` ends if the line that
/// starts at `next` is not part of it.
pub fn find_end_before(text: &[char], start: usize, next: Option<usize>) -> (end: usize)
    ensures
        end == end_before(text@, start as int, position_view(next)),
{
    match next {
        Some(at) => if at > start {
            at - 1
        } else {
            start
        },
        None => text.len(),
    }
}

/// Finds the first `c` at or after `from`, or the end of `text`.
pub fn find_char(text: &[char], c: char, from: usize) -> (r: usize)
    ensures
        r == next_char(text@, c, from as int),
        r <= text.len(),
        from <= text.len() ==> from <= r,
{
    if from >= text.len() {
        return text.len();
    }
    let mut i: usize = from;
    while i < text.len() && text[i] != c
        invariant
            from <= i <= text.len(),
            next_char(text@, c, from as int) == next_char(text@, c, i as int),
        decreases text.len() - i,
    {
        i += 1;
    }
    i
}

/// Finds the end of the line that holds index `from`.
pub fn find_line_end(text: &[char], from: usize) -> (r: usize)
    ensures
        r == line_end(text@, from as int),
        r <= text.len(),
        from <= text.len() ==> from <= r,
{
    find_char(text, '\n', from)
}

/// Cuts the pieces between the given bounds, counted from `offset`, out of `doc`.
pub(crate) fn cut_strings(doc: &str, offset: usize, spans: &Vec<(usize, usize)>) -> (out: Vec<String>)
    requires
        offset <= doc@.len() <= usize::MAX,
        spans_within(spans@, doc@.len() - offset),
    ensures
        out.deep_view() == cut(doc@.skip(offset as int), spans_view(spans@)),
{
    let mut out: Vec<String> = Vec::new();
    let mut k: usize = 0;
    while k < spans.len()
        invariant
            k <= spans.len(),
            out@.len() == k,
            offset <= doc@.len() <= usize::MAX,
            spans_within(spans@, doc@.len() - offset),
            forall|j: int|
                0 <= j < k ==> (#[trigger] out@[j])@ == doc@.subrange(
                    offset + spans@[j].0,
                    offset + spans@[j].1,
                ),
        decreases spans.len() - k,
    {
        let (a, b) = spans[k];
        assert(spans@[k as int].0 <= spans@[k as int].1 <= doc@.len() - offset);
        let piece = doc.substring_char(offset + a, offset + b);
        out.push(String::from_str(piece));
        k += 1;
    }
    assert forall|j: int| 0 <= j < out@.len() implies out.deep_view()[j] == cut(
        doc@.skip(offset as int),
        spans_view(spans@),
    )[j] by {
        assert(doc@.skip(offset as int).subrange(spans@[j].0 as int, spans@[j].1 as int)
            =~= doc@.subrange(offset + spans@[j].0, offset + spans@[j].1));
    }
    assert(out.deep_view() =~= cut(doc@.skip(offset as int), spans_view(spans@)));
    out
}

/// Tells whether `c` is white space.
pub fn is_whitespace_char(c: char) -> (b: bool)
    ensures
        b == is_whitespace(c),
{
    let u: u32 = c as u32;
    (0x09 <= u && u <= 0x0D) || u == 0x20 || u == 0x85 || u == 0xA0 || u == 0x1680 || (0x2000 <= u
        && u <= 0x200A) || u == 0x2028 || u == 0x2029 || u == 0x202F || u == 0x205F || u == 0x3000
}

/// Finds where the white space at the end of `text[start..end]` begins.
pub(crate) fn find_trimmed_end(text: &[char], start: usize, end: usize) -> (r: usize)
    requires
        start <= end <= text.len(),
    ensures
        start <= r <= end,
        r - start == trimmed_len(text@.subrange(start as int, end as int)),
{
    let mut r: usize = end;
    let ghost piece = text@.subrange(start as int, end as int);
    assert(piece.take(end - start) =~= piece);
    while r > start && is_whitespace_char(text[r - 1])
        invariant
            start <= r <= end <= text.len(),
            piece == text@.subrange(start as int, end as int),
            trimmed_len(piece) == trimmed_len(piece.take(r - start)),
        decreases r - start,
    {
        assert(piece.take(r - start).last() == text@[r - 1]);
        assert(piece.take(r - start).drop_last() =~= piece.take(r - 1 - start));
        r -= 1;
    }
    proof {
        if r > start {
            assert(piece.take(r - start).last() == text@[r - 1]);
        }
    }
    r
}

/// Writes the digit `d`.
fn digit_str(d: usize) -> (s: &'static str)
    requires
        d < 10,
    ensures
        s@ == seq![digit(d as nat)],
{
    proof {
        reveal_strlit("0");
        reveal_strlit("1");
        reveal_strlit("2");
        reveal_strlit("3");
        reveal_strlit("4");
        reveal_strlit("5");
        reveal_strlit("6");
        reveal_strlit("7");
        reveal_strlit("8");
        reveal_strlit("9");
    }
    let s = if d == 0 {
        "0"
    } else if d == 1 {
        "1"
    } else if d == 2 {
        "2"
    } else if d == 3 {
        "3"
    } else if d == 4 {
        "4"
    } else if d == 5 {
        "5"
    } else if d == 6 {
        "6"
    } else if d == 7 {
        "7"
    } else if d == 8 {
        "8"
    } else {
        "9"
    };
    assert(s@ =~= seq![digit(d as nat)]);
    s
}

/// Writes `n` in base ten.
pub fn decimal_string(n: usize) -> (s: String)
    ensures
        s@ == decimal(n as nat),
    decreases n,
{
    let last = digit_str(n % 10);
    if n < 10 {
        String::from_str(last)
    } else {
        let mut s = decimal_string(n / 10);
        s.append(last);
        assert(s@ =~= decimal(n as nat / 10).push(digit(n as nat % 10)));
        s
    }
}

/// Writes the strings one after another, with `sep` between each two.
pub fn join_strings(items: &Vec<String>, sep: &str) -> (s: String)
    ensures
        s@ == join(items.deep_view(), sep@),
{
    let mut s = String::new();
    let mut k: usize = 0;
    assert(items.deep_view().take(0) =~= Seq::empty());
    while k < items.len()
        invariant
            k <= items.len(),
            s@ == join(items.deep_view().take(k as int), sep@),
        decreases items.len() - k,
    {
        let ghost done = items.deep_view().take(k as int);
        let ghost next = items.deep_view().take(k + 1);
        assert(next.drop_last() =~= done);
        assert(next.last() == items@[k as int]@);
        if k > 0 {
            s.append(sep);
        }
        s.append(items[k].as_str());
        assert(s@ =~= join(next, sep@));
        k += 1;
    }
    assert(items.deep_view().take(k as int) =~= items.deep_view());
    s
}

/// Tells whether `items` holds a string equal to `wanted`.
pub fn contains_string(items: &Vec<String>, wanted: &String) -> (found: bool)
    ensures
        found == items.deep_view().contains(wanted@),
{
    let mut k: usize = 0;
    while k < items.len()
        invariant
            k <= items.len(),
            forall|j: int| 0 <= j < k ==> items.deep_view()[j] != wanted@,
        decreases items.len() - k,
    {
        if items[k] == *wanted {
            assert(items.deep_view()[k as int] == wanted@);
            return true;
        }
        k += 1;
    }
    false
}

} // verus!
