//! Lists the todo lists of the active context, or of all contexts.
//!
//! Nothing here reads a folder or writes to a terminal: the caller hands in
//! the documents of each context and gets back the text to show.
use crate::parse::{
    full_document_text, parse_spec, parse_todo_list, parse_todo_list_section, parse_todo_list_tasks, section_of,
    tasks_of, ParseError, ParsedTodoList, ParsedTodoListView,
};
use crate::text::{
    chars_of, contains_string, decimal, decimal_string, find_trimmed_end, trim_end,
};
use crate::Configuration;
use crate::ConfigurationView;
use crate::Context;
use crate::ContextView;
use vstd::prelude::*;
use vstd::string::StrSliceExecFns;
use vstd::string::StringExecFns;

verus! {

/// Tells whether a file with this extension may hold a todo list: markdown
/// and plain text do.
pub fn is_valid_extension(ext: &str) -> (valid: bool)
    ensures
        valid == (ext@ == "md"@ || ext@ == "txt"@),
{
    let ext = String::from_str(ext);
    ext == String::from_str("md") || ext == String::from_str("txt")
}

/// The line that names the folder of a context.
pub open spec fn folder_line(ctx: ContextView) -> Seq<char> {
    "Todo lists from "@ + ctx.folder_location + "\n"@
}

/// Writes the line that names the folder from which the todo lists of a
/// context are read.
pub fn print_todo_folder_location(ctx: &Context) -> (line: String)
    ensures
        line@ == folder_line(ctx@),
{
    let mut line = String::from_str("Todo lists from ");
    line.append(ctx.folder_location.as_str());
    line.append("\n");
    line
}

/// A list carries every one of the wanted labels.
pub open spec fn has_all_labels(labels: Seq<Seq<char>>, wanted: Seq<Seq<char>>) -> bool {
    forall|i: int| 0 <= i < wanted.len() ==> labels.contains(#[trigger] wanted[i])
}

/// A list passes the choice between done and unfinished lists: with `all`
/// every list does; else with `done` the lists whose tasks are all done, and
/// without it the others.
pub open spec fn passes_done_filter(list: ParsedTodoListView, all: bool, done: bool) -> bool {
    all || ((list.done == list.total) == done)
}

/// The tasks, each without the white space at its end, one to a line.
pub open spec fn task_lines(tasks: Seq<Seq<char>>) -> Seq<char>
    decreases tasks.len(),
{
    if tasks.len() == 0 {
        Seq::empty()
    } else {
        task_lines(tasks.drop_last()) + trim_end(tasks.last()) + "\n"@
    }
}

/// The one-line summary of a list: done tasks, tasks, title.
pub open spec fn summary_line(list: ParsedTodoListView) -> Seq<char> {
    decimal(list.done) + "/"@ + decimal(list.total) + "\t- "@ + list.title + "\n"@
}

/// The one-line summary of a section of a list, with the section's name.
pub open spec fn section_summary_line(part: ParsedTodoListView, section: Seq<char>) -> Seq<char> {
    decimal(part.done) + "/"@ + decimal(part.total) + "\t- "@ + part.title + " ("@ + section
        + ")\n"@
}

/// The tasks of one section under a heading with its name.
pub open spec fn section_tasks_text(
    doc: Seq<char>,
    completed: bool,
    open: bool,
    short: bool,
    section: Seq<char>,
) -> Seq<char> {
    "\n## "@ + section + "\n\n"@ + task_lines(tasks_of(doc, completed, open, short, Some(section)))
}

/// The tasks of each of the sections, each under a heading with its name.
pub open spec fn sections_tasks_text(
    doc: Seq<char>,
    completed: bool,
    open: bool,
    short: bool,
    sections: Seq<Seq<char>>,
) -> Seq<char>
    decreases sections.len(),
{
    if sections.len() == 0 {
        Seq::empty()
    } else {
        sections_tasks_text(doc, completed, open, short, sections.drop_last())
            + section_tasks_text(doc, completed, open, short, sections.last())
    }
}

/// What is shown of a list for one section when no tasks are asked for: the
/// section's summary in short form, else the whole document. A section that
/// the list does not have shows nothing.
pub open spec fn section_entry(list: ParsedTodoListView, short: bool, section: Seq<char>) -> Seq<
    char,
> {
    match section_of(list, section) {
        Some(part) => if short {
            section_summary_line(part, section)
        } else {
            full_document_text(list)
        },
        None => Seq::empty(),
    }
}

/// What is shown of a list for each of the sections, one after another.
pub open spec fn sections_entries_text(
    list: ParsedTodoListView,
    short: bool,
    sections: Seq<Seq<char>>,
) -> Seq<char>
    decreases sections.len(),
{
    if sections.len() == 0 {
        Seq::empty()
    } else {
        sections_entries_text(list, short, sections.drop_last()) + section_entry(
            list,
            short,
            sections.last(),
        )
    }
}

/// The tasks of a list under its title line, of the whole task block or of
/// each section.
pub open spec fn tasks_text(
    doc: Seq<char>,
    list: ParsedTodoListView,
    short: bool,
    completed: bool,
    open: bool,
    sections: Seq<Seq<char>>,
) -> Seq<char> {
    "# "@ + list.title + "\n"@ + if sections.len() == 0 {
        task_lines(tasks_of(doc, completed, open, short, None))
    } else {
        sections_tasks_text(doc, completed, open, short, sections)
    }
}

/// What is shown of a list that passed the filters.
///
/// Where completed or open tasks are asked for these are shown. Else the
/// list is shown as a whole: with its summary in short form, in full
/// otherwise; with sections, once for each section that it has. A list
/// shown in full is its text and nothing more: no line feed is put after it.
pub open spec fn todo_body(
    doc: Seq<char>,
    list: ParsedTodoListView,
    short: bool,
    completed: bool,
    open: bool,
    sections: Seq<Seq<char>>,
) -> Seq<char> {
    if completed || open {
        tasks_text(doc, list, short, completed, open, sections)
    } else if sections.len() == 0 {
        if short {
            summary_line(list)
        } else {
            full_document_text(list)
        }
    } else {
        sections_entries_text(list, short, sections)
    }
}

/// What is shown of a document: nothing unless it carries all the wanted
/// labels and passes the choice between done and unfinished lists. A
/// document that is no todo list is an error.
pub open spec fn todo_text(
    doc: Seq<char>,
    labels: Seq<Seq<char>>,
    all: bool,
    done: bool,
    short: bool,
    completed: bool,
    open: bool,
    sections: Seq<Seq<char>>,
) -> Result<Seq<char>, ParseError> {
    match parse_spec(doc) {
        Err(e) => Err(e),
        Ok(list) => Ok(
            if has_all_labels(list.labels, labels) && passes_done_filter(list, all, done) {
                todo_body(doc, list, short, completed, open, sections)
            } else {
                Seq::empty()
            },
        ),
    }
}

/// A document that lacks one of the wanted labels is not shown, whatever
/// else is asked for.
pub proof fn lemma_missing_label_shows_nothing(
    doc: Seq<char>,
    labels: Seq<Seq<char>>,
    all: bool,
    done: bool,
    short: bool,
    completed: bool,
    open: bool,
    sections: Seq<Seq<char>>,
    missing: int,
)
    requires
        0 <= missing < labels.len(),
        parse_spec(doc) matches Ok(list) && !list.labels.contains(labels[missing]),
    ensures
        todo_text(doc, labels, all, done, short, completed, open, sections) == Ok::<
            Seq<char>,
            ParseError,
        >(Seq::empty()),
{
}

/// A document that parses is shown in full as it stands, character for
/// character, where nothing is filtered and nothing else is asked for.
pub proof fn lemma_unfiltered_document_shown_as_it_stands(doc: Seq<char>)
    requires
        parse_spec(doc) is Ok,
    ensures
        todo_text(doc, Seq::empty(), true, false, false, false, false, Seq::empty()) == Ok::<
            Seq<char>,
            ParseError,
        >(doc),
{
}

/// Tells whether `items` holds a string equal to `wanted`.
pub fn contains_str(items: &Vec<&str>, wanted: &String) -> (found: bool)
    ensures
        found == items.deep_view().contains(wanted@),
{
    let mut k: usize = 0;
    while k < items.len()
        invariant
            k <= items.len(),
            forall|j: int| 0 <= j < k ==> items.deep_view()[j] != wanted@,
        decreases items.len() - k,
    {
        if String::from_str(items[k]) == *wanted {
            assert(items.deep_view()[k as int] == wanted@);
            return true;
        }
        k += 1;
    }
    false
}

/// Tells whether a list with the given labels carries every wanted label.
pub fn carries_all_labels(labels: &Vec<String>, wanted: &Vec<&str>) -> (all: bool)
    ensures
        all == has_all_labels(labels.deep_view(), wanted.deep_view()),
{
    let mut k: usize = 0;
    while k < wanted.len()
        invariant
            k <= wanted.len(),
            forall|j: int| 0 <= j < k ==> labels.deep_view().contains(#[trigger] wanted.deep_view()[j]),
        decreases wanted.len() - k,
    {
        let label = String::from_str(wanted[k]);
        assert(label@ == wanted.deep_view()[k as int]);
        if !contains_string(labels, &label) {
            return false;
        }
        k += 1;
    }
    true
}

/// Appends `task` without the white space at its end, and a line feed.
fn append_task_line(out: &mut String, task: &str)
    ensures
        final(out)@ == old(out)@ + trim_end(task@) + "\n"@,
{
    let chars = chars_of(task);
    let end = find_trimmed_end(chars.as_slice(), 0, chars.len());
    assert(chars@.subrange(0, chars@.len() as int) =~= task@);
    assert(task@.subrange(0, end as int) =~= task@.take(end as int));
    out.append(task.substring_char(0, end));
    out.append("\n");
}

/// Appends the tasks, each without the white space at its end, one to a line.
fn append_task_lines(out: &mut String, tasks: &Vec<String>)
    ensures
        final(out)@ == old(out)@ + task_lines(tasks.deep_view()),
{
    let mut k: usize = 0;
    assert(tasks.deep_view().take(0) =~= Seq::empty());
    assert(out@ =~= old(out)@ + task_lines(tasks.deep_view().take(0)));
    while k < tasks.len()
        invariant
            k <= tasks.len(),
            out@ == old(out)@ + task_lines(tasks.deep_view().take(k as int)),
        decreases tasks.len() - k,
    {
        let ghost after = tasks.deep_view().take(k + 1);
        assert(after.drop_last() =~= tasks.deep_view().take(k as int));
        assert(after.last() == tasks@[k as int]@);
        append_task_line(out, tasks[k].as_str());
        assert(out@ =~= old(out)@ + task_lines(after));
        k += 1;
    }
    assert(tasks.deep_view().take(k as int) =~= tasks.deep_view());
}

/// Writes the one-line summary of a list.
fn write_summary_line(list: &ParsedTodoList) -> (line: String)
    ensures
        line@ == summary_line(list@),
{
    let mut line = decimal_string(list.done);
    line.append("/");
    line.append(decimal_string(list.total).as_str());
    line.append("\t- ");
    line.append(list.title.as_str());
    line.append("\n");
    line
}

/// Writes the one-line summary of a section of a list.
fn write_section_summary_line(part: &ParsedTodoList, section: &str) -> (line: String)
    ensures
        line@ == section_summary_line(part@, section@),
{
    let mut line = decimal_string(part.done);
    line.append("/");
    line.append(decimal_string(part.total).as_str());
    line.append("\t- ");
    line.append(part.title.as_str());
    line.append(" (");
    line.append(section);
    line.append(")\n");
    line
}

/// Writes the tasks of the task block, one to a line.
fn write_block_tasks(todo_raw: &str, completed: bool, open: bool, short: bool) -> (text: String)
    requires
        completed || open,
    ensures
        text@ == task_lines(tasks_of(todo_raw@, completed, open, short, None)),
{
    let mut text = String::new();
    match parse_todo_list_tasks(todo_raw, completed, open, short, None) {
        Ok(tasks) => {
            append_task_lines(&mut text, &tasks);
            assert(text@ =~= task_lines(tasks.deep_view()));
        },
        Err(_) => {},
    }
    text
}

/// Writes the tasks of one section under a heading with its name.
fn write_section_tasks(
    todo_raw: &str,
    completed: bool,
    open: bool,
    short: bool,
    section: &str,
) -> (text: String)
    requires
        completed || open,
    ensures
        text@ == section_tasks_text(todo_raw@, completed, open, short, section@),
{
    let mut text = String::from_str("\n## ");
    text.append(section);
    text.append("\n\n");
    match parse_todo_list_tasks(todo_raw, completed, open, short, Some(section)) {
        Ok(tasks) => {
            append_task_lines(&mut text, &tasks);
        },
        Err(_) => {},
    }
    text
}

/// Writes the tasks of each of the sections.
fn write_sections_tasks(
    todo_raw: &str,
    completed: bool,
    open: bool,
    short: bool,
    sections: &Vec<&str>,
) -> (text: String)
    requires
        completed || open,
    ensures
        text@ == sections_tasks_text(todo_raw@, completed, open, short, sections.deep_view()),
{
    let mut text = String::new();
    let ghost names = sections.deep_view();
    let mut k: usize = 0;
    assert(names.take(0) =~= Seq::empty());
    while k < sections.len()
        invariant
            k <= sections.len(),
            completed || open,
            names == sections.deep_view(),
            text@ == sections_tasks_text(todo_raw@, completed, open, short, names.take(k as int)),
        decreases sections.len() - k,
    {
        let section = sections[k];
        let ghost after = names.take(k + 1);
        assert(after.drop_last() =~= names.take(k as int));
        assert(after.last() == section@);
        let part = write_section_tasks(todo_raw, completed, open, short, section);
        text.append(part.as_str());
        k += 1;
    }
    assert(names.take(k as int) =~= names);
    text
}

/// Writes the tasks of a list under its title line.
fn write_tasks(
    todo_raw: &str,
    list: &ParsedTodoList,
    short: bool,
    completed: bool,
    open: bool,
    sections: &Vec<&str>,
) -> (text: String)
    requires
        completed || open,
    ensures
        text@ == tasks_text(todo_raw@, list@, short, completed, open, sections.deep_view()),
{
    let mut text = String::from_str("# ");
    text.append(list.title.as_str());
    text.append("\n");
    let tasks = if sections.len() == 0 {
        write_block_tasks(todo_raw, completed, open, short)
    } else {
        write_sections_tasks(todo_raw, completed, open, short, sections)
    };
    text.append(tasks.as_str());
    text
}

/// Writes what is shown of a list for one section.
fn write_section_entry(list: &ParsedTodoList, short: bool, section: &str) -> (text: String)
    ensures
        text@ == section_entry(list@, short, section@),
{
    match parse_todo_list_section(list, section) {
        Some(part) => {
            if short {
                write_section_summary_line(&part, section)
            } else {
                list.full_document()
            }
        },
        None => String::new(),
    }
}

/// Writes what is shown of a list for each of the sections.
fn write_sections_entries(list: &ParsedTodoList, short: bool, sections: &Vec<&str>) -> (text:
    String)
    ensures
        text@ == sections_entries_text(list@, short, sections.deep_view()),
{
    let mut text = String::new();
    let ghost shown = list@;
    let ghost names = sections.deep_view();
    let mut k: usize = 0;
    assert(names.take(0) =~= Seq::empty());
    while k < sections.len()
        invariant
            k <= sections.len(),
            names == sections.deep_view(),
            shown == list@,
            text@ == sections_entries_text(shown, short, names.take(k as int)),
        decreases sections.len() - k,
    {
        let section = sections[k];
        let ghost after = names.take(k + 1);
        assert(after.drop_last() =~= names.take(k as int));
        assert(after.last() == section@);
        let entry = write_section_entry(list, short, section);
        text.append(entry.as_str());
        k += 1;
    }
    assert(names.take(k as int) =~= names);
    text
}

/// Writes what is shown of a todo list, or nothing where the filters leave it
/// out.
///
/// * `todo_raw` - the text of the todo list
/// * `labels` - the labels that the list must carry, every one of them
/// * `all` - show the list whether its tasks are all done or not
/// * `done` - show it only if its tasks are all done; without `all` and
///   `done` only a list with unfinished tasks is shown
/// * `short` - show one line with the numbers of done tasks and of tasks
/// * `completed` - show the completed tasks
/// * `open` - show the open tasks
/// * `sections` - show these sections only
pub fn print_todo(
    todo_raw: &str,
    labels: &Vec<&str>,
    all: bool,
    done: bool,
    short: bool,
    completed: bool,
    open: bool,
    sections: &Vec<&str>,
) -> (res: Result<String, ParseError>)
    ensures
        match res {
            Ok(text) => todo_text(
                todo_raw@,
                labels.deep_view(),
                all,
                done,
                short,
                completed,
                open,
                sections.deep_view(),
            ) == Ok::<Seq<char>, ParseError>(text@),
            Err(e) => todo_text(
                todo_raw@,
                labels.deep_view(),
                all,
                done,
                short,
                completed,
                open,
                sections.deep_view(),
            ) == Err::<Seq<char>, ParseError>(e),
        },
{
    let list = match parse_todo_list(todo_raw) {
        Ok(list) => list,
        Err(e) => {
            return Err(e);
        },
    };
    if !carries_all_labels(&list.labels, labels) {
        return Ok(String::new());
    }
    if !all && (list.tasks_are_all_done() != done) {
        return Ok(String::new());
    }
    if completed || open {
        Ok(write_tasks(todo_raw, &list, short, completed, open, sections))
    } else if sections.len() == 0 {
        if short {
            Ok(write_summary_line(&list))
        } else {
            Ok(list.full_document())
        }
    } else {
        Ok(write_sections_entries(&list, short, sections))
    }
}

/// What the listing of todo lists is asked to show.
#[derive(Debug)]
pub struct Parameters<'a> {
    /// Show a list whether its tasks are all done or not.
    pub all: bool,
    /// Show the completed tasks of each list.
    pub completed: bool,
    /// The contexts and the name of the active one.
    pub config: Configuration,
    /// Show only the lists whose tasks are all done.
    pub done: bool,
    /// The documents of each context, in the order of the contexts.
    pub entries: Vec<Vec<&'a str>>,
    /// List every context, not the active one alone.
    pub global: bool,
    /// The labels that a list must carry, every one of them.
    pub labels: Vec<&'a str>,
    /// Show the open tasks of each list.
    pub open: bool,
    /// Show one line for each list.
    pub short: bool,
    /// Show only the lists with these titles.
    pub task_lists: Option<Vec<&'a str>>,
    /// Show only these sections of each list.
    pub sections: Option<Vec<&'a str>>,
}

/// What `Parameters` hold, as mathematical values.
pub struct ParametersView {
    pub all: bool,
    pub completed: bool,
    pub config: ConfigurationView,
    pub done: bool,
    pub entries: Seq<Seq<Seq<char>>>,
    pub global: bool,
    pub labels: Seq<Seq<char>>,
    pub open: bool,
    pub short: bool,
    pub task_lists: Seq<Seq<char>>,
    pub sections: Seq<Seq<char>>,
}

/// The names of a list that may be left out, none where it is.
pub open spec fn names_view(names: Option<Vec<&str>>) -> Seq<Seq<char>> {
    match names {
        Some(names) => names.deep_view(),
        None => Seq::empty(),
    }
}

impl<'a> View for Parameters<'a> {
    type V = ParametersView;

    open spec fn view(&self) -> ParametersView {
        ParametersView {
            all: self.all,
            completed: self.completed,
            config: self.config@,
            done: self.done,
            entries: self.entries.deep_view(),
            global: self.global,
            labels: self.labels.deep_view(),
            open: self.open,
            short: self.short,
            task_lists: names_view(self.task_lists),
            sections: names_view(self.sections),
        }
    }
}

/// Why nothing was listed.
#[derive(Clone, Copy, Debug, PartialEq, Eq, Structural)]
pub enum ListError {
    /// The active context is none of the contexts.
    BadConfiguration,
    /// The documents were not given context by context.
    EntriesMismatch,
    /// A document of a listed context is no todo list.
    Document(ParseError),
}

impl ParametersView {
    /// The context is listed: it is the active one, or all are listed.
    pub open spec fn lists_context(self, ctx: ContextView) -> bool {
        self.global || ctx.name == self.config.active_ctx_name
    }

    /// The list is asked for: no titles are given, or its title is among them.
    pub open spec fn wants_title(self, title: Seq<char>) -> bool {
        self.task_lists.len() == 0 || self.task_lists.contains(title)
    }

    /// What is shown of one document of a listed context.
    pub open spec fn entry_text(self, doc: Seq<char>) -> Result<Seq<char>, ParseError> {
        match parse_spec(doc) {
            Err(e) => Err(e),
            Ok(list) => if self.wants_title(list.title) {
                todo_text(
                    doc,
                    self.labels,
                    self.all,
                    self.done,
                    self.short,
                    self.completed,
                    self.open,
                    self.sections,
                )
            } else {
                Ok(Seq::empty())
            },
        }
    }

    /// What is shown of the documents of a listed context, in their order, or
    /// the error of the first that is no todo list.
    pub open spec fn entries_text(self, docs: Seq<Seq<char>>) -> Result<Seq<char>, ParseError>
        decreases docs.len(),
    {
        if docs.len() == 0 {
            Ok(Seq::empty())
        } else {
            match self.entries_text(docs.drop_last()) {
                Err(e) => Err(e),
                Ok(before) => match self.entry_text(docs.last()) {
                    Err(e) => Err(e),
                    Ok(text) => Ok(before + text),
                },
            }
        }
    }

    /// What is shown of a context: nothing unless it is listed, else the line
    /// that names its folder and then its documents.
    pub open spec fn context_text(self, i: int) -> Result<Seq<char>, ParseError> {
        if self.lists_context(self.config.ctxs[i]) {
            match self.entries_text(self.entries[i]) {
                Err(e) => Err(e),
                Ok(text) => Ok(folder_line(self.config.ctxs[i]) + text),
            }
        } else {
            Ok(Seq::empty())
        }
    }

    /// What is shown of the first `n` contexts, in their order, or the first
    /// error among them.
    pub open spec fn contexts_text(self, n: int) -> Result<Seq<char>, ParseError>
        decreases n,
    {
        if n <= 0 {
            Ok(Seq::empty())
        } else {
            match self.contexts_text(n - 1) {
                Err(e) => Err(e),
                Ok(before) => match self.context_text(n - 1) {
                    Err(e) => Err(e),
                    Ok(text) => Ok(before + text),
                },
            }
        }
    }

    /// The whole listing, or why there is none.
    pub open spec fn list_text(self) -> Result<Seq<char>, ListError> {
        if !self.config.is_valid() {
            Err(ListError::BadConfiguration)
        } else if self.entries.len() != self.config.ctxs.len() {
            Err(ListError::EntriesMismatch)
        } else {
            match self.contexts_text(self.config.ctxs.len() as int) {
                Ok(text) => Ok(text),
                Err(e) => Err(ListError::Document(e)),
            }
        }
    }

    /// An error among the first documents is the error of them all.
    pub proof fn lemma_entries_error_stays(self, docs: Seq<Seq<char>>, k: int)
        requires
            0 <= k <= docs.len(),
            self.entries_text(docs.take(k)) is Err,
        ensures
            self.entries_text(docs) == self.entries_text(docs.take(k)),
        decreases docs.len() - k,
    {
        if k < docs.len() {
            assert(docs.take(k + 1).drop_last() =~= docs.take(k));
            self.lemma_entries_error_stays(docs, k + 1);
        } else {
            assert(docs.take(k) =~= docs);
        }
    }

    /// An error among the first contexts is the error of them all.
    pub proof fn lemma_contexts_error_stays(self, k: int, n: int)
        requires
            0 <= k <= n,
            self.contexts_text(k) is Err,
        ensures
            self.contexts_text(n) == self.contexts_text(k),
        decreases n - k,
    {
        if k < n {
            self.lemma_contexts_error_stays(k + 1, n);
        }
    }
}

impl<'a> Parameters<'a> {
    /// Returns parameters that ask for nothing special: the unfinished lists
    /// of the active context, each in full.
    pub fn new() -> (p: Parameters<'a>)
        ensures
            !p.all && !p.completed && !p.done && !p.global && !p.open && !p.short,
            p@.config.ctxs.len() == 0,
            p@.config.active_ctx_name.len() == 0,
            p@.entries.len() == 0,
            p@.labels.len() == 0,
            p.task_lists is None,
            p.sections is None,
    {
        Parameters {
            all: false,
            completed: false,
            config: Configuration::new(),
            done: false,
            entries: Vec::new(),
            global: false,
            labels: Vec::new(),
            open: false,
            short: false,
            task_lists: None,
            sections: None,
        }
    }

    /// Sets `all`.
    pub fn all(self) -> (p: Parameters<'a>)
        ensures
            p == (Parameters { all: true, ..self }),
    {
        let mut p = self;
        p.all = true;
        p
    }

    /// Sets `completed`.
    pub fn completed(self) -> (p: Parameters<'a>)
        ensures
            p == (Parameters { completed: true, ..self }),
    {
        let mut p = self;
        p.completed = true;
        p
    }

    /// Sets the configuration.
    pub fn config(self, config: Configuration) -> (p: Parameters<'a>)
        ensures
            p == (Parameters { config, ..self }),
    {
        let mut p = self;
        p.config = config;
        p
    }

    /// Sets `done`.
    pub fn done(self) -> (p: Parameters<'a>)
        ensures
            p == (Parameters { done: true, ..self }),
    {
        let mut p = self;
        p.done = true;
        p
    }

    /// Sets the documents of each context.
    pub fn entries(self, entries: Vec<Vec<&'a str>>) -> (p: Parameters<'a>)
        ensures
            p == (Parameters { entries, ..self }),
    {
        let mut p = self;
        p.entries = entries;
        p
    }

    /// Sets `global`.
    pub fn global(self) -> (p: Parameters<'a>)
        ensures
            p == (Parameters { global: true, ..self }),
    {
        let mut p = self;
        p.global = true;
        p
    }

    /// Sets the labels that a list must carry.
    pub fn labels(self, labels: Vec<&'a str>) -> (p: Parameters<'a>)
        ensures
            p == (Parameters { labels, ..self }),
    {
        let mut p = self;
        p.labels = labels;
        p
    }

    /// Sets `open`.
    pub fn open(self) -> (p: Parameters<'a>)
        ensures
            p == (Parameters { open: true, ..self }),
    {
        let mut p = self;
        p.open = true;
        p
    }

    /// Sets `short`.
    pub fn short(self) -> (p: Parameters<'a>)
        ensures
            p == (Parameters { short: true, ..self }),
    {
        let mut p = self;
        p.short = true;
        p
    }

    /// Sets the titles of the lists to show.
    pub fn task_lists(self, task_lists: Vec<&'a str>) -> (p: Parameters<'a>)
        ensures
            p == (Parameters { task_lists: Some(task_lists), ..self }),
    {
        let mut p = self;
        p.task_lists = Some(task_lists);
        p
    }

    /// Sets the sections to show.
    pub fn sections(self, sections: Vec<&'a str>) -> (p: Parameters<'a>)
        ensures
            p == (Parameters { sections: Some(sections), ..self }),
    {
        let mut p = self;
        p.sections = Some(sections);
        p
    }
}

/// Tells whether a context is listed: the active one is, and with `global`
/// every context is.
pub fn is_listed(ctx: &Context, config: &Configuration, global: bool) -> (listed: bool)
    ensures
        listed == (global || ctx@.name == config@.active_ctx_name),
{
    global || ctx.name == config.active_ctx_name
}

/// Writes the listing of todo lists.
///
/// The contexts are gone through in their order; only the active one unless
/// all are asked for. Each listed context shows the line that names its
/// folder and then its documents, as `print_todo` shows them, those left out
/// whose title is not asked for. `entries` holds the documents of each
/// context, listed or not.
///
/// The listing is refused as a whole where the active context is none of the
/// contexts, where `entries` does not hold as many sets of documents as there
/// are contexts, and where a document of a listed context is no todo list.
pub fn list_message(p: Parameters) -> (res: Result<String, ListError>)
    ensures
        match res {
            Ok(text) => p@.list_text() == Ok::<Seq<char>, ListError>(text@),
            Err(e) => p@.list_text() == Err::<Seq<char>, ListError>(e),
        },
{
    if !p.config.is_valid() {
        return Err(ListError::BadConfiguration);
    }
    if p.entries.len() != p.config.ctxs.len() {
        return Err(ListError::EntriesMismatch);
    }
    let no_names: Vec<&str> = Vec::new();
    assert(no_names.deep_view() =~= Seq::empty());
    let task_lists = match &p.task_lists {
        Some(names) => names,
        None => &no_names,
    };
    let sections = match &p.sections {
        Some(names) => names,
        None => &no_names,
    };
    let mut out = String::new();
    let mut i: usize = 0;
    while i < p.config.ctxs.len()
        invariant
            i <= p.config.ctxs.len(),
            p.entries.len() == p.config.ctxs.len(),
            p@.config.is_valid(),
            task_lists.deep_view() == p@.task_lists,
            sections.deep_view() == p@.sections,
            p@.contexts_text(i as int) == Ok::<Seq<char>, ParseError>(out@),
        decreases p.config.ctxs.len() - i,
    {
        let ctx = &p.config.ctxs[i];
        assert(p@.config.ctxs[i as int] == ctx@);
        let ghost before = out@;
        if is_listed(ctx, &p.config, p.global) {
            let docs = &p.entries[i];
            assert(p@.entries[i as int] == docs.deep_view());
            let shown = match write_entries(&p, task_lists, sections, docs) {
                Ok(text) => text,
                Err(e) => {
                    proof {
                        p@.lemma_contexts_error_stays(i + 1, p.config.ctxs.len() as int);
                    }
                    return Err(ListError::Document(e));
                },
            };
            out.append(print_todo_folder_location(ctx).as_str());
            out.append(shown.as_str());
            assert(out@ =~= before + (folder_line(ctx@) + shown@));
        } else {
            assert(out@ =~= before + Seq::<char>::empty());
        }
        i += 1;
    }
    Ok(out)
}

/// Writes what is shown of the documents of a listed context.
fn write_entries(
    p: &Parameters,
    task_lists: &Vec<&str>,
    sections: &Vec<&str>,
    docs: &Vec<&str>,
) -> (res: Result<String, ParseError>)
    requires
        task_lists.deep_view() == p@.task_lists,
        sections.deep_view() == p@.sections,
    ensures
        match res {
            Ok(text) => p@.entries_text(docs.deep_view()) == Ok::<Seq<char>, ParseError>(text@),
            Err(e) => p@.entries_text(docs.deep_view()) == Err::<Seq<char>, ParseError>(e),
        },
{
    let mut out = String::new();
    let mut k: usize = 0;
    assert(docs.deep_view().take(0) =~= Seq::empty());
    while k < docs.len()
        invariant
            k <= docs.len(),
            task_lists.deep_view() == p@.task_lists,
            sections.deep_view() == p@.sections,
            p@.entries_text(docs.deep_view().take(k as int)) == Ok::<Seq<char>, ParseError>(out@),
        decreases docs.len() - k,
    {
        let todo_raw = docs[k];
        let ghost next = docs.deep_view().take(k + 1);
        assert(next.drop_last() =~= docs.deep_view().take(k as int));
        assert(next.last() == todo_raw@);
        match write_entry(p, task_lists, sections, todo_raw) {
            Ok(text) => {
                out.append(text.as_str());
            },
            Err(e) => {
                proof {
                    p@.lemma_entries_error_stays(docs.deep_view(), k + 1);
                }
                return Err(e);
            },
        }
        k += 1;
    }
    assert(docs.deep_view().take(k as int) =~= docs.deep_view());
    Ok(out)
}

/// Writes what is shown of one document of a listed context.
fn write_entry(p: &Parameters, task_lists: &Vec<&str>, sections: &Vec<&str>, todo_raw: &str) -> (res:
    Result<String, ParseError>)
    requires
        task_lists.deep_view() == p@.task_lists,
        sections.deep_view() == p@.sections,
    ensures
        match res {
            Ok(text) => p@.entry_text(todo_raw@) == Ok::<Seq<char>, ParseError>(text@),
            Err(e) => p@.entry_text(todo_raw@) == Err::<Seq<char>, ParseError>(e),
        },
{
    let list = match parse_todo_list(todo_raw) {
        Ok(list) => list,
        Err(e) => {
            return Err(e);
        },
    };
    if task_lists.len() == 0 || contains_str(task_lists, &list.title) {
        print_todo(
            todo_raw,
            &p.labels,
            p.all,
            p.done,
            p.short,
            p.completed,
            p.open,
            sections,
        )
    } else {
        Ok(String::new())
    }
}

} // verus!
