//! The text format of a todo list: headings, blocks and checklist lines.
//!
//! A document looks like this:
//!
//! ```text
//! # Title
//!
//! ## Description
//!
//! LABEL=first,second
//! free text
//!
//! ## Todo list
//!
//! * [ ] an open task
//! lines that belong to it
//! * [x] a done task
//!
//! ### A section
//!
//! * [ ] a task of the section
//! ```
//!
//! The format is stated here as spec functions on `Seq<char>`. The scanners
//! below them compute the same positions on a `[char]`.
use crate::text::{
    chars_of, cut, earlier, earlier_of, end_before, find_end_before, find_line_end,
    find_line_with, find_trimmed_end, first_line_with, is_line_start, lemma_first_line_with,
    lemma_line_end, lemma_trim_end_is_trimmed, lemma_trimmed_len_bounds, line_end, line_starts_with, matches_at,
    spans_view, spans_within, trim_end,
};
use vstd::prelude::*;
use vstd::string::StrSliceExecFns;
use vstd::string::StringExecFns;

verus! {

/// The two levels of heading that bound a block of text.
#[derive(Clone, Copy, Debug, PartialEq, Eq, Structural)]
pub enum HeadingDepth {
    /// `## name`: the level of the task block.
    TaskBlock,
    /// `### name`: the level of a section inside the task block.
    Section,
}

/// The name of the heading that opens the task block.
pub open spec fn task_block_name() -> Seq<char> {
    "Todo list"@
}

/// A heading as it stands in a text: the hashes, a space, the name, the end
/// of the line and one empty line.
pub open spec fn heading_line(name: Seq<char>, depth: HeadingDepth) -> Seq<char> {
    match depth {
        HeadingDepth::TaskBlock => "## "@ + name + "\n\n"@,
        HeadingDepth::Section => "### "@ + name + "\n\n"@,
    }
}

/// The start of the first line at or after `from` that ends a block of the
/// given depth: one that starts a heading of that depth or a shallower one.
pub open spec fn next_heading(text: Seq<char>, from: int, depth: HeadingDepth) -> Option<int> {
    match depth {
        HeadingDepth::TaskBlock => first_line_with(text, "## "@, from),
        HeadingDepth::Section => earlier(
            first_line_with(text, "## "@, from),
            first_line_with(text, "### "@, from),
        ),
    }
}

/// Where a block that starts at `start` ends: before the line feed that
/// stands before the next heading, or at the end of the text.
pub open spec fn block_end(text: Seq<char>, start: int, depth: HeadingDepth) -> int {
    end_before(text, start, next_heading(text, start, depth))
}

/// The bounds of the block under the first heading `name` of the given
/// depth. The heading fills a line and an empty line follows it; the block
/// starts after the empty line.
pub open spec fn block_span(text: Seq<char>, name: Seq<char>, depth: HeadingDepth) -> Option<
    (int, int),
> {
    match first_line_with(text, heading_line(name, depth), 0) {
        Some(at) => {
            let start = at + heading_line(name, depth).len();
            Some((start, block_end(text, start, depth)))
        },
        None => None,
    }
}

/// The text of the block under the first heading `name` of the given depth.
pub open spec fn block_text(text: Seq<char>, name: Seq<char>, depth: HeadingDepth) -> Option<
    Seq<char>,
> {
    match block_span(text, name, depth) {
        Some((start, end)) => Some(text.subrange(start, end)),
        None => None,
    }
}

/// What a checklist line starts with: the bullet, the mark in brackets (`x`
/// for done, one space for open) and a space.
pub open spec fn task_prefix(done: bool) -> Seq<char> {
    if done {
        "* [x] "@
    } else {
        "* [ ] "@
    }
}

/// The checklist mark of a task: the bullet and the mark in brackets.
pub open spec fn task_mark(done: bool) -> Seq<char> {
    if done {
        "* [x]"@
    } else {
        "* [ ]"@
    }
}

/// A checklist line of the given state starts at `i`: `i` is the start of a
/// line, the prefix stands there, and the line goes on after it.
pub open spec fn task_at(text: Seq<char>, i: int, done: bool) -> bool {
    &&& line_starts_with(text, task_prefix(done), i)
    &&& line_end(text, i) > i + task_prefix(done).len()
}

/// A checklist line that the filter lets through starts at `i`.
pub open spec fn selected_task_at(text: Seq<char>, i: int, completed: bool, open: bool) -> bool {
    (completed && task_at(text, i, true)) || (open && task_at(text, i, false))
}

/// What a line says as a checklist line: whether the task is done, and the
/// summary that follows the prefix up to the end of the line. A line that is
/// no checklist line says nothing.
pub open spec fn task_line(line: Seq<char>) -> Option<(bool, Seq<char>)> {
    if task_at(line, 0, true) {
        Some((true, line.subrange(task_prefix(true).len() as int, line_end(line, 0))))
    } else if task_at(line, 0, false) {
        Some((false, line.subrange(task_prefix(false).len() as int, line_end(line, 0))))
    } else {
        None
    }
}

/// The start of the first line at or after `from` that starts with a
/// checklist mark, `* [x]` or `* [ ]`.
pub open spec fn next_mark(text: Seq<char>, from: int) -> Option<int> {
    earlier(
        first_line_with(text, task_mark(true), from),
        first_line_with(text, task_mark(false), from),
    )
}

/// How far the text of the task that starts at `i` can reach: up to the line
/// feed that stands before the next checklist mark, or to the end of the
/// text.
pub open spec fn task_stop(text: Seq<char>, i: int) -> int {
    end_before(text, i, next_mark(text, i + 1))
}

/// The task that starts at `i` in long form: its checklist line and the lines
/// that follow it up to the next checklist mark, without the white space at
/// the end.
pub open spec fn long_task(text: Seq<char>, i: int) -> Seq<char> {
    trim_end(text.subrange(i, task_stop(text, i)))
}

/// Where the task that starts at `i` ends: in short form with its first line,
/// in long form where `long_task` ends.
pub open spec fn task_end(text: Seq<char>, i: int, short: bool) -> int {
    if short {
        line_end(text, i)
    } else {
        i + long_task(text, i).len()
    }
}

/// The bounds of the selected tasks that start at or after `from`, in the
/// order in which they stand in the text.
pub open spec fn task_spans_from(
    text: Seq<char>,
    from: int,
    completed: bool,
    open: bool,
    short: bool,
) -> Seq<(int, int)>
    decreases text.len() - from,
{
    if from < 0 || from >= text.len() {
        Seq::empty()
    } else {
        let rest = task_spans_from(text, from + 1, completed, open, short);
        if selected_task_at(text, from, completed, open) {
            seq![(from, task_end(text, from, short))] + rest
        } else {
            rest
        }
    }
}

/// The selected tasks of `text`, each as its piece of the text, in the order
/// in which they stand.
pub open spec fn tasks_in(text: Seq<char>, completed: bool, open: bool, short: bool) -> Seq<
    Seq<char>,
> {
    cut(text, task_spans_from(text, 0, completed, open, short))
}

/// No task starts inside a line: where no index from `from` up to `to` is the
/// start of a line, the tasks from `from` on are those from `to` on.
pub proof fn lemma_task_spans_skip(
    text: Seq<char>,
    from: int,
    to: int,
    completed: bool,
    open: bool,
    short: bool,
)
    requires
        0 <= from <= to,
        forall|j: int| from <= j < to ==> !is_line_start(text, j),
    ensures
        task_spans_from(text, from, completed, open, short) == task_spans_from(
            text,
            to,
            completed,
            open,
            short,
        ),
    decreases to - from,
{
    if from < to {
        lemma_task_spans_skip(text, from + 1, to, completed, open, short);
    }
}

/// The fewer tasks the filter lets through, the fewer there are: the done
/// tasks are never more than the tasks of both states.
pub proof fn lemma_done_at_most_total(text: Seq<char>, from: int, short: bool)
    requires
        0 <= from,
    ensures
        task_spans_from(text, from, true, false, short).len() <= task_spans_from(
            text,
            from,
            true,
            true,
            short,
        ).len(),
    decreases text.len() - from,
{
    if from < text.len() {
        lemma_done_at_most_total(text, from + 1, short);
    }
}

/// No line is a done and an open checklist line at once.
pub proof fn lemma_done_or_open(text: Seq<char>, i: int)
    ensures
        !(task_at(text, i, true) && task_at(text, i, false)),
{
    reveal_strlit("* [x] ");
    reveal_strlit("* [ ] ");
    if task_at(text, i, true) && task_at(text, i, false) {
        assert(text.subrange(i, i + 6)[3] == 'x');
        assert(text.subrange(i, i + 6)[3] == ' ');
    }
}

/// A checklist line starts with a checklist mark.
pub proof fn lemma_task_starts_with_mark(text: Seq<char>, i: int, done: bool)
    requires
        task_at(text, i, done),
    ensures
        line_starts_with(text, task_mark(done), i),
{
    reveal_strlit("* [x] ");
    reveal_strlit("* [ ] ");
    reveal_strlit("* [x]");
    reveal_strlit("* [ ]");
    let prefix = task_prefix(done);
    assert(text.subrange(i, i + 5) =~= text.subrange(i, i + 6).subrange(0, 5));
    assert(prefix.subrange(0, 5) =~= task_mark(done));
}

/// Asking for both the completed and the open tasks gives each of them once:
/// as many tasks as the two filters give apart.
pub proof fn lemma_filters_add_up(text: Seq<char>, from: int, short: bool)
    ensures
        task_spans_from(text, from, true, true, short).len() == task_spans_from(
            text,
            from,
            true,
            false,
            short,
        ).len() + task_spans_from(text, from, false, true, short).len(),
    decreases text.len() - from,
{
    if 0 <= from < text.len() {
        lemma_filters_add_up(text, from + 1, short);
        lemma_done_or_open(text, from);
    }
}

/// Tasks stand in the order of the text and do not overlap: each lies inside
/// the text, and each ends before the next one starts.
pub proof fn lemma_tasks_in_order(
    text: Seq<char>,
    from: int,
    completed: bool,
    open: bool,
    short: bool,
)
    requires
        0 <= from,
    ensures
        forall|k: int|
            0 <= k < task_spans_from(text, from, completed, open, short).len() ==> {
                let s = #[trigger] task_spans_from(text, from, completed, open, short)[k];
                from <= s.0 <= s.1 <= text.len()
            },
        forall|j: int, k: int|
            0 <= j < k < task_spans_from(text, from, completed, open, short).len() ==> (
            #[trigger] task_spans_from(text, from, completed, open, short)[j]).1 < (
            #[trigger] task_spans_from(text, from, completed, open, short)[k]).0,
    decreases text.len() - from,
{
    if from < text.len() {
        lemma_tasks_in_order(text, from + 1, completed, open, short);
        let spans = task_spans_from(text, from, completed, open, short);
        let rest = task_spans_from(text, from + 1, completed, open, short);
        lemma_line_end(text, from);
        lemma_first_line_with(text, "* [x]"@, from + 1);
        lemma_first_line_with(text, "* [ ]"@, from + 1);
        if selected_task_at(text, from, completed, open) {
            let end = task_end(text, from, short);
            let stop = task_stop(text, from);
            assert(from <= stop <= text.len());
            lemma_trimmed_len_bounds(text.subrange(from, stop));
            assert(from <= end <= stop || short);
            assert forall|k: int| 0 < k < spans.len() implies end < (#[trigger] spans[k]).0 by {
                let next = rest[k - 1].0;
                assert(spans[k] == rest[k - 1]);
                lemma_task_span_starts_a_task(text, from + 1, completed, open, short, k - 1);
                if short {
                    assert(is_line_start(text, next));
                    if next <= end {
                        assert(text[next - 1] != '\n');
                    }
                } else {
                    if task_at(text, next, true) {
                        lemma_task_starts_with_mark(text, next, true);
                    } else {
                        lemma_task_starts_with_mark(text, next, false);
                    }
                }
            }
            assert forall|j: int, k: int| 0 <= j < k < spans.len() implies (#[trigger] spans[j]).1
                < (#[trigger] spans[k]).0 by {
                if j > 0 {
                    assert(spans[j] == rest[j - 1]);
                    assert(spans[k] == rest[k - 1]);
                }
            }
            assert forall|k: int| 0 <= k < spans.len() implies {
                let s = #[trigger] spans[k];
                from <= s.0 <= s.1 <= text.len()
            } by {
                if k > 0 {
                    assert(spans[k] == rest[k - 1]);
                }
            }
        }
    }
}

/// Each of the bounds that `task_spans_from` gives starts at a task that the
/// filter lets through.
pub proof fn lemma_task_span_starts_a_task(
    text: Seq<char>,
    from: int,
    completed: bool,
    open: bool,
    short: bool,
    k: int,
)
    requires
        0 <= from,
        0 <= k < task_spans_from(text, from, completed, open, short).len(),
    ensures
        from <= task_spans_from(text, from, completed, open, short)[k].0,
        selected_task_at(
            text,
            task_spans_from(text, from, completed, open, short)[k].0,
            completed,
            open,
        ),
        task_spans_from(text, from, completed, open, short)[k].1 == task_end(
            text,
            task_spans_from(text, from, completed, open, short)[k].0,
            short,
        ),
    decreases text.len() - from,
{
    if from < text.len() {
        if selected_task_at(text, from, completed, open) {
            if k > 0 {
                lemma_task_span_starts_a_task(text, from + 1, completed, open, short, k - 1);
            }
        } else {
            lemma_task_span_starts_a_task(text, from + 1, completed, open, short, k);
        }
    }
}

/// The first line of a task ends before the next checklist mark.
pub proof fn lemma_line_ends_before_task_stops(text: Seq<char>, i: int)
    requires
        0 <= i <= text.len(),
    ensures
        i <= line_end(text, i) <= task_stop(text, i) <= text.len(),
{
    lemma_line_end(text, i);
    lemma_first_line_with(text, task_mark(true), i + 1);
    lemma_first_line_with(text, task_mark(false), i + 1);
    match next_mark(text, i + 1) {
        Some(at) => {
            assert(text[at - 1] == '\n');
        },
        None => {},
    }
}

/// Short form and long form show the same tasks: as many, and each starts
/// where the other starts. The line that short form shows is the start of
/// the text that long form cuts the white space from.
pub proof fn lemma_forms_show_the_same_tasks(
    text: Seq<char>,
    from: int,
    completed: bool,
    open: bool,
)
    requires
        0 <= from,
    ensures
        task_spans_from(text, from, completed, open, true).len() == task_spans_from(
            text,
            from,
            completed,
            open,
            false,
        ).len(),
        forall|k: int|
            0 <= k < task_spans_from(text, from, completed, open, true).len() ==> {
                let line = #[trigger] task_spans_from(text, from, completed, open, true)[k];
                &&& line.0 == task_spans_from(text, from, completed, open, false)[k].0
                &&& line.1 == line_end(text, line.0)
                &&& line.1 <= task_stop(text, line.0)
            },
    decreases text.len() - from,
{
    if from < text.len() {
        lemma_forms_show_the_same_tasks(text, from + 1, completed, open);
        let lines = task_spans_from(text, from, completed, open, true);
        let rest = task_spans_from(text, from + 1, completed, open, true);
        let long = task_spans_from(text, from, completed, open, false);
        let long_rest = task_spans_from(text, from + 1, completed, open, false);
        lemma_line_ends_before_task_stops(text, from);
        assert forall|k: int| 0 <= k < lines.len() implies {
            let line = #[trigger] lines[k];
            &&& line.0 == long[k].0
            &&& line.1 == line_end(text, line.0)
            &&& line.1 <= task_stop(text, line.0)
        } by {
            if selected_task_at(text, from, completed, open) {
                if k > 0 {
                    assert(lines[k] == rest[k - 1]);
                    assert(long[k] == long_rest[k - 1]);
                }
            } else {
                assert(lines[k] == rest[k]);
                assert(long[k] == long_rest[k]);
            }
        }
    }
}

/// In long form each task is the text from its checklist line up to the next
/// checklist mark, without the white space at its end.
pub proof fn lemma_long_tasks_are_trimmed(text: Seq<char>, completed: bool, open: bool, k: int)
    requires
        0 <= k < tasks_in(text, completed, open, false).len(),
    ensures
        tasks_in(text, completed, open, false)[k] == long_task(
            text,
            task_spans_from(text, 0, completed, open, false)[k].0,
        ),
        trim_end(tasks_in(text, completed, open, false)[k]) == tasks_in(
            text,
            completed,
            open,
            false,
        )[k],
{
    let start = task_spans_from(text, 0, completed, open, false)[k].0;
    let stop = task_stop(text, start);
    lemma_task_span_starts_a_task(text, 0, completed, open, false, k);
    lemma_first_line_with(text, task_mark(true), start + 1);
    lemma_first_line_with(text, task_mark(false), start + 1);
    let piece = text.subrange(start, stop);
    lemma_trimmed_len_bounds(piece);
    lemma_trim_end_is_trimmed(piece);
    assert(text.subrange(start, start + long_task(text, start).len()) =~= long_task(text, start));
}

/// Appends the characters of `tail` to `v`.
pub fn append_chars(v: &mut Vec<char>, tail: &[char])
    ensures
        final(v)@ == old(v)@ + tail@,
{
    let mut k: usize = 0;
    while k < tail.len()
        invariant
            k <= tail.len(),
            v@ == old(v)@ + tail@.take(k as int),
        decreases tail.len() - k,
    {
        v.push(tail[k]);
        k += 1;
        assert(tail@.take(k as int) == tail@.take(k - 1).push(tail@[k - 1]));
    }
    assert(tail@.take(k as int) == tail@);
}

/// Writes a heading out as it stands in a text.
pub fn heading_chars(name: &[char], depth: HeadingDepth) -> (v: Vec<char>)
    ensures
        v@ == heading_line(name@, depth),
{
    let mut v = match depth {
        HeadingDepth::TaskBlock => chars_of("## "),
        HeadingDepth::Section => chars_of("### "),
    };
    append_chars(&mut v, name);
    let tail = chars_of("\n\n");
    append_chars(&mut v, tail.as_slice());
    v
}

/// Finds the end of the block that starts at `start`.
pub fn find_block_end(text: &[char], start: usize, depth: HeadingDepth) -> (end: usize)
    ensures
        end == block_end(text@, start as int, depth),
        start <= text.len() ==> start <= end <= text.len(),
{
    let shallow = chars_of("## ");
    let first = find_line_with(text, shallow.as_slice(), start);
    let next = match depth {
        HeadingDepth::TaskBlock => first,
        HeadingDepth::Section => {
            let same = chars_of("### ");
            earlier_of(first, find_line_with(text, same.as_slice(), start))
        },
    };
    find_end_before(text, start, next)
}

/// Finds the bounds of the block under the first heading `name` of the given depth.
pub fn find_block(text: &[char], name: &[char], depth: HeadingDepth) -> (r: Option<(usize, usize)>)
    ensures
        match r {
            Some((start, end)) => {
                &&& block_span(text@, name@, depth) == Some((start as int, end as int))
                &&& start <= end <= text.len()
            },
            None => block_span(text@, name@, depth) is None,
        },
{
    let heading = heading_chars(name, depth);
    proof {
        lemma_first_line_with(text@, heading@, 0);
    }
    match find_line_with(text, heading.as_slice(), 0) {
        Some(at) => {
            assert(at + heading@.len() <= text.len());
            let start = at + heading.len();
            let end = find_block_end(text, start, depth);
            Some((start, end))
        },
        None => None,
    }
}

/// Returns the text of the block under the first heading `heading_text` of
/// the given depth, or `None` where `doc` has no such heading.
///
/// The heading is matched letter for letter. The block starts after the empty
/// line that follows the heading and ends before the line feed of the next
/// heading of the same depth or a shallower one, or with the document.
pub fn extract_block(doc: &str, heading_text: &str, heading_depth: HeadingDepth) -> (block: Option<
    String,
>)
    ensures
        match block {
            Some(text) => block_text(doc@, heading_text@, heading_depth) == Some(text@),
            None => block_text(doc@, heading_text@, heading_depth) is None,
        },
{
    let chars = chars_of(doc);
    let name = chars_of(heading_text);
    match find_block(chars.as_slice(), name.as_slice(), heading_depth) {
        Some((start, end)) => Some(String::from_str(doc.substring_char(start, end))),
        None => None,
    }
}

/// A checklist line: whether its task is done, and its summary.
#[derive(Debug)]
pub struct TaskLine {
    pub done: bool,
    pub summary: String,
}

/// Reads a line as a checklist line, or returns `None` where it is none.
///
/// Only `x` and one space are marks: `* [X] text` is no checklist line, nor
/// is one without a space and text after the bracket.
pub fn match_task_line(line: &str) -> (r: Option<TaskLine>)
    ensures
        match r {
            Some(task) => task_line(line@) == Some((task.done, task.summary@)),
            None => task_line(line@) is None,
        },
{
    let chars = chars_of(line);
    let text = chars.as_slice();
    let end = find_line_end(text, 0);
    let done_prefix = chars_of("* [x] ");
    let open_prefix = chars_of("* [ ] ");
    if matches_at(text, done_prefix.as_slice(), 0) && end > done_prefix.len() {
        Some(
            TaskLine {
                done: true,
                summary: String::from_str(line.substring_char(done_prefix.len(), end)),
            },
        )
    } else if matches_at(text, open_prefix.as_slice(), 0) && end > open_prefix.len() {
        Some(
            TaskLine {
                done: false,
                summary: String::from_str(line.substring_char(open_prefix.len(), end)),
            },
        )
    } else {
        None
    }
}

/// Finds the bounds of the selected tasks of `text`, in the order in which
/// they stand.
pub fn task_spans(text: &[char], completed: bool, open: bool, short: bool) -> (spans: Vec<
    (usize, usize),
>)
    ensures
        spans_view(spans@) == task_spans_from(text@, 0, completed, open, short),
        spans_within(spans@, text.len() as int),
{
    let done_prefix = chars_of("* [x] ");
    let open_prefix = chars_of("* [ ] ");
    let done_mark = chars_of("* [x]");
    let open_mark = chars_of("* [ ]");
    let mut spans: Vec<(usize, usize)> = Vec::new();
    let mut pos: usize = 0;
    assert(spans_view(spans@) =~= Seq::empty());
    while pos < text.len()
        invariant
            pos <= text.len(),
            pos == text.len() || is_line_start(text@, pos as int),
            done_prefix@ == task_prefix(true),
            open_prefix@ == task_prefix(false),
            done_mark@ == "* [x]"@,
            open_mark@ == "* [ ]"@,
            spans_view(spans@) + task_spans_from(text@, pos as int, completed, open, short)
                == task_spans_from(text@, 0, completed, open, short),
            spans_within(spans@, text.len() as int),
        decreases text.len() - pos,
    {
        let end = find_line_end(text, pos);
        let is_done = matches_at(text, done_prefix.as_slice(), pos) && end - pos
            > done_prefix.len();
        let is_open = matches_at(text, open_prefix.as_slice(), pos) && end - pos
            > open_prefix.len();
        let ghost before = spans_view(spans@);
        let ghost here = task_spans_from(text@, pos as int, completed, open, short);
        let ghost after = task_spans_from(text@, pos + 1, completed, open, short);
        if (completed && is_done) || (open && is_open) {
            let stop = if short {
                end
            } else {
                let next = earlier_of(
                    find_line_with(text, done_mark.as_slice(), pos + 1),
                    find_line_with(text, open_mark.as_slice(), pos + 1),
                );
                let limit = find_end_before(text, pos, next);
                proof {
                    lemma_trimmed_len_bounds(text@.subrange(pos as int, limit as int));
                }
                find_trimmed_end(text, pos, limit)
            };
            spans.push((pos, stop));
            assert(spans_view(spans@) =~= before + seq![(pos as int, stop as int)]);
            assert(here == seq![(pos as int, stop as int)] + after);
            assert(spans_view(spans@) + after =~= before + here);
        } else {
            assert(here == after);
        }
        let next = if end < text.len() {
            end + 1
        } else {
            end
        };
        proof {
            lemma_line_end(text@, pos as int);
            assert forall|j: int| pos + 1 <= j < next implies !is_line_start(text@, j) by {
                assert(text@[j - 1] != '\n');
            }
            lemma_task_spans_skip(text@, pos + 1, next as int, completed, open, short);
        }
        pos = next;
    }
    assert(spans_view(spans@) + Seq::<(int, int)>::empty() =~= spans_view(spans@));
    spans
}

} // verus!
