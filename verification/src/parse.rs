//! Parses todo lists from the text a user keeps them in.
//!
//! A todo list is a text that its owner edits by hand, so nothing here writes
//! it back: each function reads the text anew and says what it holds.
use crate::format::{
    block_text, find_block, heading_line, lemma_done_at_most_total, task_block_name,
    task_spans, tasks_in, HeadingDepth,
};
use crate::text::{
    chars_of, contains_string, cut, cut_strings, find, find_char, find_line_end,
    first_occurrence, lemma_cut_of_subrange, lemma_first_occurrence, lemma_next_char, line_end,
    matches_at, next_char, occurs_at, spans_view, spans_within,
};
use crate::Configuration;
use crate::Context;
use vstd::prelude::*;
use vstd::slice::slice_subrange;
use vstd::string::StrSliceExecFns;
use vstd::string::StringExecFns;

verus! {

/// Why a text is no todo list.
#[derive(Clone, Copy, Debug, PartialEq, Eq, Structural)]
pub enum ParseError {
    /// The text does not start with a line `# title` that holds a title.
    MissingTitle,
    /// The text has no line of labels under its description heading.
    MalformedLabels,
}

/// Why a query for tasks was refused.
#[derive(Clone, Copy, Debug, PartialEq, Eq, Structural)]
pub enum Error {
    /// Neither the completed nor the open tasks were asked for.
    NoFilterSelected,
}

/// A todo list as read from its text.
#[derive(Debug)]
pub struct ParsedTodoList {
    /// The text it was read from.
    pub raw: String,
    /// The title, never empty.
    pub title: String,
    /// The labels in the order of the text, none empty, none twice.
    pub labels: Vec<String>,
    /// The number of done tasks in the task block.
    pub done: usize,
    /// The number of tasks in the task block.
    pub total: usize,
}

/// What a `ParsedTodoList` holds, as mathematical values.
pub struct ParsedTodoListView {
    pub raw: Seq<char>,
    pub title: Seq<char>,
    pub labels: Seq<Seq<char>>,
    pub done: nat,
    pub total: nat,
}

impl View for ParsedTodoList {
    type V = ParsedTodoListView;

    open spec fn view(&self) -> ParsedTodoListView {
        ParsedTodoListView {
            raw: self.raw@,
            title: self.title@,
            labels: self.labels.deep_view(),
            done: self.done as nat,
            total: self.total as nat,
        }
    }
}

impl ParsedTodoListView {
    /// No more tasks are done than there are, the title is not empty, and no
    /// label is empty or stands twice.
    pub open spec fn well_formed(self) -> bool {
        &&& self.done <= self.total
        &&& self.title.len() > 0
        &&& forall|i: int| 0 <= i < self.labels.len() ==> (#[trigger] self.labels[i]).len() > 0
        &&& self.labels.no_duplicates()
    }
}

/// A todo list shown in full: the text it was read from, as it stands.
pub open spec fn full_document_text(list: ParsedTodoListView) -> Seq<char> {
    list.raw
}

impl ParsedTodoList {
    /// Writes the todo list out in full: the text it was read from, unchanged.
    pub fn full_document(&self) -> (text: String)
        ensures
            text@ == full_document_text(self@),
    {
        self.raw.clone()
    }

    /// Tells whether every task of the task block is done. A list without
    /// tasks counts as done.
    pub fn tasks_are_all_done(&self) -> (all_done: bool)
        ensures
            all_done <==> self@.done == self@.total,
    {
        self.done == self.total
    }
}

/// The text that refuses a configuration whose active context is none of its
/// contexts.
pub open spec fn invalid_configuration_message() -> Seq<char> {
    "Invalid configuration because no contexts correspond to active context"@
}

/// Hands the configuration back if its active context is one of its
/// contexts, and refuses it otherwise.
pub fn checked_configuration(config: Configuration) -> (res: Result<Configuration, &'static str>)
    ensures
        match res {
            Ok(checked) => checked == config && config@.is_valid(),
            Err(message) => !config@.is_valid() && message@ == invalid_configuration_message(),
        },
{
    if config.is_valid() {
        Ok(config)
    } else {
        Err("Invalid configuration because no contexts correspond to active context")
    }
}

/// Returns the active context of a configuration: the first context of the
/// active name. A configuration whose active context is none of its contexts
/// is refused.
pub fn parse_active_context(config: &Configuration) -> (res: Result<Context, &'static str>)
    ensures
        match res {
            Ok(ctx) => match config@.position_of(config@.active_ctx_name) {
                Some(i) => ctx@ == config@.ctxs[i],
                None => false,
            },
            Err(message) => !config@.is_valid() && message@ == invalid_configuration_message(),
        },
{
    match config.active_context() {
        Some(ctx) => Ok(ctx.clone()),
        None => Err("Invalid configuration because no contexts correspond to active context"),
    }
}

/// What the first line of a document starts with.
pub open spec fn title_prefix() -> Seq<char> {
    "# "@
}

/// The title of a document: what follows `# ` on its first line. The line
/// must end with a line feed, and the title must not be empty.
pub open spec fn title_of(doc: Seq<char>) -> Option<Seq<char>> {
    let start = title_prefix().len() as int;
    let end = line_end(doc, start);
    if occurs_at(doc, title_prefix(), 0) && start < end < doc.len() {
        Some(doc.subrange(start, end))
    } else {
        None
    }
}

/// What stands before the labels of a document: the description heading, an
/// empty line and `LABEL=`.
pub open spec fn label_marker() -> Seq<char> {
    "## Description\n\nLABEL="@
}

/// The bounds of the rest of the line after the first label marker.
pub open spec fn labels_line_span(doc: Seq<char>) -> Option<(int, int)> {
    match first_occurrence(doc, label_marker(), 0) {
        Some(at) => {
            let start = at + label_marker().len();
            Some((start, line_end(doc, start)))
        },
        None => None,
    }
}

/// A field of a comma-separated line starts at `i`: the line starts there or a
/// comma stands before, and no comma stands at `i`.
pub open spec fn field_starts_at(line: Seq<char>, i: int) -> bool {
    0 <= i < line.len() && line[i] != ',' && (i == 0 || line[i - 1] == ',')
}

/// The bounds of the fields of `line` that start at or after `from`. A field
/// runs up to the next comma or the end of the line; it is never empty.
pub open spec fn field_spans_from(line: Seq<char>, from: int) -> Seq<(int, int)>
    decreases line.len() - from,
{
    if from < 0 || from >= line.len() {
        Seq::empty()
    } else {
        let rest = field_spans_from(line, from + 1);
        if field_starts_at(line, from) {
            seq![(from, next_char(line, ',', from))] + rest
        } else {
            rest
        }
    }
}

/// The fields of a comma-separated line, in order.
pub open spec fn fields(line: Seq<char>) -> Seq<Seq<char>> {
    cut(line, field_spans_from(line, 0))
}

/// `items` without the repetitions: each item stands where it first stood.
pub open spec fn distinct(items: Seq<Seq<char>>) -> Seq<Seq<char>>
    decreases items.len(),
{
    if items.len() == 0 {
        Seq::empty()
    } else {
        let before = distinct(items.drop_last());
        if before.contains(items.last()) {
            before
        } else {
            before.push(items.last())
        }
    }
}

/// The labels of a document: the distinct fields of its line of labels.
pub open spec fn labels_of(doc: Seq<char>) -> Option<Seq<Seq<char>>> {
    match labels_line_span(doc) {
        Some((start, end)) => Some(distinct(fields(doc.subrange(start, end)))),
        None => None,
    }
}

/// The numbers of done tasks and of tasks in a block of text.
pub open spec fn status_in(text: Seq<char>) -> (nat, nat) {
    (tasks_in(text, true, false, true).len(), tasks_in(text, true, true, true).len())
}

/// The numbers of done tasks and of tasks in the task block of a document,
/// both 0 where it has none.
pub open spec fn status_of(doc: Seq<char>) -> (nat, nat) {
    match block_text(doc, task_block_name(), HeadingDepth::TaskBlock) {
        Some(block) => status_in(block),
        None => (0, 0),
    }
}

/// What a document holds, or why it is no todo list. A missing title is
/// reported before missing labels.
pub open spec fn parse_spec(doc: Seq<char>) -> Result<ParsedTodoListView, ParseError> {
    match title_of(doc) {
        None => Err(ParseError::MissingTitle),
        Some(title) => match labels_of(doc) {
            None => Err(ParseError::MalformedLabels),
            Some(labels) => Ok(
                ParsedTodoListView {
                    raw: doc,
                    title,
                    labels,
                    done: status_of(doc).0,
                    total: status_of(doc).1,
                },
            ),
        },
    }
}

/// The name of a section, if one was given, as a mathematical value.
pub open spec fn section_view(section: Option<&str>) -> Option<Seq<char>> {
    match section {
        Some(name) => Some(name@),
        None => None,
    }
}

/// The text in which tasks are looked for: the task block of the document, or
/// the first section of the given name inside the task block.
pub open spec fn searched_text(doc: Seq<char>, section: Option<Seq<char>>) -> Option<Seq<char>> {
    match block_text(doc, task_block_name(), HeadingDepth::TaskBlock) {
        Some(block) => match section {
            Some(name) => block_text(block, name, HeadingDepth::Section),
            None => Some(block),
        },
        None => None,
    }
}

/// A section of a todo list as a list of its own: the text of the first
/// section of that name inside the task block, under the heading of a task
/// block, with the title and the labels of the whole list and the section's
/// own numbers of tasks.
pub open spec fn section_of(list: ParsedTodoListView, section: Seq<char>) -> Option<
    ParsedTodoListView,
> {
    match searched_text(list.raw, Some(section)) {
        Some(text) => Some(
            ParsedTodoListView {
                raw: "\n"@ + heading_line(task_block_name(), HeadingDepth::TaskBlock) + text,
                title: list.title,
                labels: list.labels,
                done: status_in(text).0,
                total: status_in(text).1,
            },
        ),
        None => None,
    }
}

/// The tasks of a document that the filter lets through, in the order of the
/// text; in long form each without the white space at its end. Where the
/// task block or the section is missing there are none.
pub open spec fn tasks_of(
    doc: Seq<char>,
    completed: bool,
    open: bool,
    short: bool,
    section: Option<Seq<char>>,
) -> Seq<Seq<char>> {
    match searched_text(doc, section) {
        Some(text) => tasks_in(text, completed, open, short),
        None => Seq::empty(),
    }
}

/// No field starts inside a field: where no index from `from` up to `to`
/// starts a field, the fields from `from` on are those from `to` on.
proof fn lemma_field_spans_skip(line: Seq<char>, from: int, to: int)
    requires
        0 <= from <= to,
        forall|j: int| from <= j < to ==> !field_starts_at(line, j),
    ensures
        field_spans_from(line, from) == field_spans_from(line, to),
    decreases to - from,
{
    if from < to {
        lemma_field_spans_skip(line, from + 1, to);
    }
}

/// Every field lies inside the line and is not empty.
proof fn lemma_field_spans_bounds(line: Seq<char>, from: int)
    requires
        0 <= from,
    ensures
        forall|k: int|
            0 <= k < field_spans_from(line, from).len() ==> {
                let s = #[trigger] field_spans_from(line, from)[k];
                from <= s.0 < s.1 <= line.len()
            },
    decreases line.len() - from,
{
    if from < line.len() {
        lemma_field_spans_bounds(line, from + 1);
        lemma_next_char(line, ',', from);
        let rest = field_spans_from(line, from + 1);
        assert forall|k: int| 0 <= k < field_spans_from(line, from).len() implies {
            let s = #[trigger] field_spans_from(line, from)[k];
            from <= s.0 < s.1 <= line.len()
        } by {
            if field_starts_at(line, from) {
                if k > 0 {
                    assert(field_spans_from(line, from)[k] == rest[k - 1]);
                }
            } else {
                assert(field_spans_from(line, from)[k] == rest[k]);
            }
        }
    }
}

/// `distinct` keeps items of the sequence only, and none twice.
proof fn lemma_distinct(items: Seq<Seq<char>>)
    ensures
        distinct(items).no_duplicates(),
        forall|x: Seq<char>| distinct(items).contains(x) <==> items.contains(x),
    decreases items.len(),
{
    if items.len() > 0 {
        let init = items.drop_last();
        lemma_distinct(init);
        let before = distinct(init);
        assert forall|x: Seq<char>| distinct(items).contains(x) <==> items.contains(x) by {
            if items.contains(x) {
                let i = choose|i: int| 0 <= i < items.len() && items[i] == x;
                if i < items.len() - 1 {
                    assert(init[i] == x);
                    assert(init.contains(x));
                    assert(before.contains(x));
                    let j = choose|j: int| 0 <= j < before.len() && before[j] == x;
                    assert(distinct(items)[j] == x);
                } else if !before.contains(x) {
                    assert(distinct(items)[before.len() as int] == x);
                }
            }
            if distinct(items).contains(x) {
                let j = choose|j: int| 0 <= j < distinct(items).len() && distinct(items)[j] == x;
                if j < before.len() {
                    assert(before[j] == x);
                    assert(before.contains(x));
                    assert(init.contains(x));
                    let i = choose|i: int| 0 <= i < init.len() && init[i] == x;
                    assert(items[i] == x);
                } else {
                    assert(items[items.len() - 1] == x);
                }
            }
        }
    }
}

/// Finds the bounds of the title.
fn title_span(text: &[char]) -> (r: Option<(usize, usize)>)
    ensures
        match r {
            Some((start, end)) => {
                &&& title_of(text@) == Some(text@.subrange(start as int, end as int))
                &&& start < end < text.len()
            },
            None => title_of(text@) is None,
        },
{
    let prefix = chars_of("# ");
    if !matches_at(text, prefix.as_slice(), 0) {
        return None;
    }
    let start = prefix.len();
    let end = find_line_end(text, start);
    if start < end && end < text.len() {
        Some((start, end))
    } else {
        None
    }
}

/// Finds the bounds of the line of labels.
fn find_labels_line(text: &[char]) -> (r: Option<(usize, usize)>)
    ensures
        match r {
            Some((start, end)) => {
                &&& labels_line_span(text@) == Some((start as int, end as int))
                &&& start <= end <= text.len()
            },
            None => labels_line_span(text@) is None,
        },
{
    let marker = chars_of("## Description\n\nLABEL=");
    proof {
        lemma_first_occurrence(text@, marker@, 0);
    }
    match find(text, marker.as_slice(), 0) {
        Some(at) => {
            assert(at + marker@.len() <= text.len());
            let start = at + marker.len();
            let end = find_line_end(text, start);
            Some((start, end))
        },
        None => None,
    }
}

/// Finds the bounds of the fields of a comma-separated line.
fn field_spans(line: &[char]) -> (spans: Vec<(usize, usize)>)
    ensures
        spans_view(spans@) == field_spans_from(line@, 0),
        spans_within(spans@, line.len() as int),
{
    let mut spans: Vec<(usize, usize)> = Vec::new();
    let mut pos: usize = 0;
    assert(spans_view(spans@) =~= Seq::empty());
    while pos < line.len()
        invariant
            pos <= line.len(),
            pos == 0 || pos == line.len() || line@[pos - 1] == ',',
            spans_view(spans@) + field_spans_from(line@, pos as int) == field_spans_from(
                line@,
                0,
            ),
            spans_within(spans@, line.len() as int),
        decreases line.len() - pos,
    {
        let end = find_char(line, ',', pos);
        let ghost before = spans_view(spans@);
        let ghost here = field_spans_from(line@, pos as int);
        let ghost after = field_spans_from(line@, pos + 1);
        proof {
            lemma_next_char(line@, ',', pos as int);
        }
        if end > pos {
            spans.push((pos, end));
            assert(spans_view(spans@) =~= before + seq![(pos as int, end as int)]);
            assert(here == seq![(pos as int, end as int)] + after);
            assert(spans_view(spans@) + after =~= before + here);
        } else {
            assert(here == after);
        }
        let next = if end < line.len() {
            end + 1
        } else {
            end
        };
        proof {
            assert forall|j: int| pos + 1 <= j < next implies !field_starts_at(line@, j) by {
                if j < end {
                    assert(line@[j - 1] != ',');
                }
            }
            lemma_field_spans_skip(line@, pos + 1, next as int);
        }
        pos = next;
    }
    assert(spans_view(spans@) + Seq::<(int, int)>::empty() =~= spans_view(spans@));
    spans
}

/// Cuts the pieces between the given bounds, counted from `offset`, out of
/// `doc`, and keeps each piece where it first stands.
fn cut_distinct_strings(doc: &str, offset: usize, spans: &Vec<(usize, usize)>) -> (out: Vec<
    String,
>)
    requires
        offset <= doc@.len() <= usize::MAX,
        spans_within(spans@, doc@.len() - offset),
    ensures
        out.deep_view() == distinct(cut(doc@.skip(offset as int), spans_view(spans@))),
{
    let ghost pieces = cut(doc@.skip(offset as int), spans_view(spans@));
    let mut out: Vec<String> = Vec::new();
    let mut k: usize = 0;
    assert(out.deep_view() =~= distinct(pieces.take(0)));
    while k < spans.len()
        invariant
            k <= spans.len(),
            offset <= doc@.len() <= usize::MAX,
            spans_within(spans@, doc@.len() - offset),
            pieces == cut(doc@.skip(offset as int), spans_view(spans@)),
            out.deep_view() == distinct(pieces.take(k as int)),
        decreases spans.len() - k,
    {
        let (a, b) = spans[k];
        assert(spans@[k as int].0 <= spans@[k as int].1 <= doc@.len() - offset);
        let piece = String::from_str(doc.substring_char(offset + a, offset + b));
        let ghost before = out.deep_view();
        proof {
            assert(doc@.skip(offset as int).subrange(a as int, b as int) =~= doc@.subrange(
                offset + a,
                offset + b,
            ));
            assert(pieces[k as int] == piece@);
            assert(pieces.take(k + 1).drop_last() =~= pieces.take(k as int));
            assert(pieces.take(k + 1).last() == piece@);
        }
        if !contains_string(&out, &piece) {
            out.push(piece);
            assert(out.deep_view() =~= before.push(pieces[k as int]));
        }
        k += 1;
    }
    assert(pieces.take(k as int) =~= pieces);
    out
}

/// Counts the done tasks and the tasks of a block of text.
fn count_tasks(text: &[char]) -> (status: (usize, usize))
    ensures
        (status.0 as nat, status.1 as nat) == status_in(text@),
        status.0 <= status.1,
{
    let done = task_spans(text, true, false, true);
    let all = task_spans(text, true, true, true);
    proof {
        lemma_done_at_most_total(text@, 0, true);
    }
    (done.len(), all.len())
}

/// Counts the done tasks and the tasks in the task block of a document.
fn count_block_tasks(text: &[char]) -> (status: (usize, usize))
    ensures
        (status.0 as nat, status.1 as nat) == status_of(text@),
        status.0 <= status.1,
{
    let name = chars_of("Todo list");
    match find_block(text, name.as_slice(), HeadingDepth::TaskBlock) {
        Some((start, end)) => count_tasks(slice_subrange(text, start, end)),
        None => (0, 0),
    }
}

/// Reads the labels of a document whose characters are `text`.
fn read_labels(doc: &str, text: &[char]) -> (r: Option<Vec<String>>)
    requires
        text@ == doc@,
    ensures
        match r {
            Some(labels) => labels_of(doc@) == Some(labels.deep_view()),
            None => labels_of(doc@) is None,
        },
{
    match find_labels_line(text) {
        Some((start, end)) => {
            let line = slice_subrange(text, start, end);
            let spans = field_spans(line);
            proof {
                lemma_cut_of_subrange(doc@, start as int, end as int, spans_view(spans@));
            }
            Some(cut_distinct_strings(doc, start, &spans))
        },
        None => None,
    }
}

/// Copies a list of strings.
fn copy_strings(items: &Vec<String>) -> (out: Vec<String>)
    ensures
        out.deep_view() == items.deep_view(),
{
    let mut out: Vec<String> = Vec::new();
    let mut k: usize = 0;
    while k < items.len()
        invariant
            k <= items.len(),
            out@.len() == k,
            forall|j: int| 0 <= j < k ==> (#[trigger] out@[j])@ == items@[j]@,
        decreases items.len() - k,
    {
        out.push(items[k].clone());
        k += 1;
    }
    assert(out.deep_view() =~= items.deep_view());
    out
}

/// Returns the title of a todo list, or `None` where its text does not start
/// with a title line.
pub fn parse_todo_list_title(todo_raw: &str) -> (title: Option<String>)
    ensures
        match title {
            Some(t) => title_of(todo_raw@) == Some(t@),
            None => title_of(todo_raw@) is None,
        },
{
    let chars = chars_of(todo_raw);
    match title_span(chars.as_slice()) {
        Some((start, end)) => Some(String::from_str(todo_raw.substring_char(start, end))),
        None => None,
    }
}

/// Returns the labels of a todo list, or `MalformedLabels` where its text has
/// no line of labels. A line without labels gives an empty list.
pub fn parse_todo_list_labels(todo_raw: &str) -> (labels: Result<Vec<String>, ParseError>)
    ensures
        match labels {
            Ok(l) => labels_of(todo_raw@) == Some(l.deep_view()),
            Err(e) => e == ParseError::MalformedLabels && labels_of(todo_raw@) is None,
        },
{
    let chars = chars_of(todo_raw);
    match read_labels(todo_raw, chars.as_slice()) {
        Some(labels) => Ok(labels),
        None => Err(ParseError::MalformedLabels),
    }
}

/// Returns the number of done tasks and the number of tasks in the task block
/// of a todo list. Checklist lines outside the task block do not count.
pub fn parse_todo_list_tasks_status(todo_raw: &str) -> (status: (usize, usize))
    ensures
        (status.0 as nat, status.1 as nat) == status_of(todo_raw@),
        status.0 <= status.1,
{
    let chars = chars_of(todo_raw);
    count_block_tasks(chars.as_slice())
}

/// Parses a todo list from its text.
///
/// The text must start with a title line and hold a line of labels; a task
/// block is not required.
pub fn parse_todo_list(todo_raw: &str) -> (res: Result<ParsedTodoList, ParseError>)
    ensures
        match res {
            Ok(list) => parse_spec(todo_raw@) == Ok::<ParsedTodoListView, ParseError>(list@)
                && list@.well_formed(),
            Err(e) => parse_spec(todo_raw@) == Err::<ParsedTodoListView, ParseError>(e),
        },
{
    let chars = chars_of(todo_raw);
    let text = chars.as_slice();
    let title = match title_span(text) {
        Some((start, end)) => String::from_str(todo_raw.substring_char(start, end)),
        None => {
            return Err(ParseError::MissingTitle);
        },
    };
    let labels = match read_labels(todo_raw, text) {
        Some(labels) => labels,
        None => {
            return Err(ParseError::MalformedLabels);
        },
    };
    let (done, total) = count_block_tasks(text);
    let list = ParsedTodoList { raw: String::from_str(todo_raw), title, labels, done, total };
    proof {
        lemma_parsed_well_formed(todo_raw@);
    }
    Ok(list)
}

/// Returns the first section of the given name inside the task block as a
/// todo list of its own, or `None` where the list has no such section.
///
/// The result has the title and the labels of the list and counts the tasks
/// of the section.
pub fn parse_todo_list_section(parsed_todo_list: &ParsedTodoList, section: &str) -> (res: Option<
    ParsedTodoList,
>)
    ensures
        match res {
            Some(part) => section_of(parsed_todo_list@, section@) == Some(part@),
            None => section_of(parsed_todo_list@, section@) is None,
        },
{
    let raw = parsed_todo_list.raw.as_str();
    let chars = chars_of(raw);
    match find_searched_text(chars.as_slice(), Some(section)) {
        Some((start, end)) => {
            let (done, total) = count_tasks(slice_subrange(chars.as_slice(), start, end));
            let mut text = String::from_str("\n");
            text.append("## ");
            text.append("Todo list");
            text.append("\n\n");
            text.append(raw.substring_char(start, end));
            assert(text@ =~= "\n"@ + heading_line(task_block_name(), HeadingDepth::TaskBlock)
                + raw@.subrange(start as int, end as int));
            Some(
                ParsedTodoList {
                    raw: text,
                    title: parsed_todo_list.title.clone(),
                    labels: copy_strings(&parsed_todo_list.labels),
                    done,
                    total,
                },
            )
        },
        None => None,
    }
}

/// Returns the tasks of a todo list that are completed, open, or either, in
/// the order of the text.
///
/// With `short` a task is its checklist line; without, it runs on to the next
/// checklist mark or to the end of the searched text, and the white space at
/// its end is cut off.
/// With a section only the first section of that name inside the task block
/// is searched. A missing task block or section gives no tasks. Asking for
/// neither completed nor open tasks is refused, whatever the text holds.
pub fn parse_todo_list_tasks(
    todo_raw: &str,
    completed: bool,
    open: bool,
    short: bool,
    section: Option<&str>,
) -> (res: Result<Vec<String>, Error>)
    ensures
        match res {
            Ok(tasks) => (completed || open) && tasks.deep_view() == tasks_of(
                todo_raw@,
                completed,
                open,
                short,
                section_view(section),
            ),
            Err(e) => e == Error::NoFilterSelected && !completed && !open,
        },
{
    if !completed && !open {
        return Err(Error::NoFilterSelected);
    }
    let chars = chars_of(todo_raw);
    let text = chars.as_slice();
    let (start, end) = match find_searched_text(text, section) {
        Some(bounds) => bounds,
        None => {
            let none: Vec<String> = Vec::new();
            assert(none.deep_view() =~= Seq::<Seq<char>>::empty());
            return Ok(none);
        },
    };
    let spans = task_spans(slice_subrange(text, start, end), completed, open, short);
    proof {
        lemma_cut_of_subrange(todo_raw@, start as int, end as int, spans_view(spans@));
    }
    Ok(cut_strings(todo_raw, start, &spans))
}

/// Finds the bounds of the text in which tasks are looked for.
pub fn find_searched_text(text: &[char], section: Option<&str>) -> (r: Option<(usize, usize)>)
    ensures
        match r {
            Some((start, end)) => {
                &&& start <= end <= text.len()
                &&& searched_text(text@, section_view(section)) == Some(
                    text@.subrange(start as int, end as int),
                )
            },
            None => searched_text(text@, section_view(section)) is None,
        },
{
    let block_name = chars_of("Todo list");
    let (start, end) = match find_block(text, block_name.as_slice(), HeadingDepth::TaskBlock) {
        Some(bounds) => bounds,
        None => {
            return None;
        },
    };
    match section {
        Some(name) => {
            let block = slice_subrange(text, start, end);
            let name_chars = chars_of(name);
            match find_block(block, name_chars.as_slice(), HeadingDepth::Section) {
                Some((a, b)) => {
                    assert(block@.subrange(a as int, b as int) =~= text@.subrange(
                        start + a,
                        start + b,
                    ));
                    Some((start + a, start + b))
                },
                None => None,
            }
        },
        None => Some((start, end)),
    }
}

/// A todo list that a document parses to is well formed.
pub proof fn lemma_parsed_well_formed(doc: Seq<char>)
    ensures
        parse_spec(doc) matches Ok(list) ==> list.well_formed(),
{
    if let Ok(list) = parse_spec(doc) {
        lemma_done_never_exceeds_total(doc);
        lemma_next_char(doc, '\n', title_prefix().len() as int);
        let (start, end) = labels_line_span(doc).unwrap();
        let line = doc.subrange(start, end);
        lemma_field_spans_bounds(line, 0);
        lemma_distinct(fields(line));
        assert forall|i: int| 0 <= i < list.labels.len() implies (#[trigger] list.labels[i]).len()
            > 0 by {
            assert(list.labels.contains(list.labels[i]));
            assert(fields(line).contains(list.labels[i]));
            let k = choose|k: int| 0 <= k < fields(line).len() && fields(line)[k] == list.labels[i];
            let s = field_spans_from(line, 0)[k];
            assert(line.subrange(s.0, s.1).len() == s.1 - s.0);
        }
    }
}

/// Reading a document and writing the list out in full gives the document
/// back, character for character.
pub proof fn lemma_full_document_round_trip(doc: Seq<char>)
    ensures
        parse_spec(doc) matches Ok(list) ==> full_document_text(list) == doc,
{
}

/// In a document that parses, no more tasks are done than there are.
pub proof fn lemma_done_never_exceeds_total(doc: Seq<char>)
    ensures
        status_of(doc).0 <= status_of(doc).1,
        parse_spec(doc) matches Ok(list) ==> list.done <= list.total,
{
    match block_text(doc, task_block_name(), HeadingDepth::TaskBlock) {
        Some(block) => {
            lemma_done_at_most_total(block, 0, true);
        },
        None => {},
    }
}

/// A document without a task block has no tasks: none done, none at all.
pub proof fn lemma_no_task_block_no_tasks(doc: Seq<char>)
    requires
        block_text(doc, task_block_name(), HeadingDepth::TaskBlock) is None,
    ensures
        status_of(doc) == (0nat, 0nat),
        parse_spec(doc) matches Ok(list) ==> list.done == 0 && list.total == 0,
        forall|completed: bool, open: bool, short: bool, section: Option<Seq<char>>|
            #[trigger] tasks_of(doc, completed, open, short, section) == Seq::<Seq<char>>::empty(),
{
}

} // verus!
