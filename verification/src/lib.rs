//! Todo lists kept as plain text files, grouped into contexts.
//!
//! A context is a named folder of todo lists. A configuration holds the
//! contexts and the name of the active one. A todo list is a text that its
//! owner edits by hand: the modules `format` and `parse` say what such a text
//! holds, and `list` writes out what a listing shows.
use crate::text::{decimal, decimal_string, join, join_strings};
use vstd::prelude::*;
use vstd::string::StringExecFns;

pub mod config_get_contexts;
pub mod edit;
pub mod format;
pub mod list;
pub mod move_list;
pub mod parse;
pub mod text;

verus! {

/// A themed set of todo lists, all kept in one folder. Its name tells it
/// apart from the other contexts.
#[derive(Debug)]
pub struct Context {
    pub ide: String,
    pub name: String,
    pub timezone: String,
    pub folder_location: String,
}

/// What a `Context` holds, as mathematical values.
pub struct ContextView {
    pub ide: Seq<char>,
    pub name: Seq<char>,
    pub timezone: Seq<char>,
    pub folder_location: Seq<char>,
}

impl View for Context {
    type V = ContextView;

    open spec fn view(&self) -> ContextView {
        ContextView {
            ide: self.ide@,
            name: self.name@,
            timezone: self.timezone@,
            folder_location: self.folder_location@,
        }
    }
}

impl Clone for Context {
    fn clone(&self) -> (res: Self)
        ensures
            res == *self,
    {
        Context {
            ide: self.ide.clone(),
            name: self.name.clone(),
            timezone: self.timezone.clone(),
            folder_location: self.folder_location.clone(),
        }
    }
}

/// The lines that describe a context under the given heading.
pub open spec fn context_lines(heading: Seq<char>, ctx: ContextView) -> Seq<char> {
    heading + "\nname: "@ + ctx.name + "\nide: "@ + ctx.ide + "\ntimezone: "@ + ctx.timezone
        + "\nfolder location: "@ + ctx.folder_location + "\n"@
}

/// A context written out in full.
pub open spec fn context_text(ctx: ContextView) -> Seq<char> {
    context_lines("--- Context ---"@, ctx)
}

impl Context {
    /// Writes the context out under the given heading, one line for each field.
    pub fn to_text_under(&self, heading: &str) -> (text: String)
        ensures
            text@ == context_lines(heading@, self@),
    {
        let mut text = String::from_str(heading);
        text.append("\nname: ");
        text.append(self.name.as_str());
        text.append("\nide: ");
        text.append(self.ide.as_str());
        text.append("\ntimezone: ");
        text.append(self.timezone.as_str());
        text.append("\nfolder location: ");
        text.append(self.folder_location.as_str());
        text.append("\n");
        text
    }

    /// Writes the context out in full.
    pub fn to_text(&self) -> (text: String)
        ensures
            text@ == context_text(self@),
    {
        self.to_text_under("--- Context ---")
    }

    /// Returns the short form of the context: its name.
    pub fn short(&self) -> (name: String)
        ensures
            name@ == self@.name,
    {
        self.name.clone()
    }
}

/// All contexts and the name of the active one.
#[derive(Debug)]
pub struct Configuration {
    pub active_ctx_name: String,
    pub ctxs: Vec<Context>,
}

/// What a `Configuration` holds, as mathematical values.
pub struct ConfigurationView {
    pub active_ctx_name: Seq<char>,
    pub ctxs: Seq<ContextView>,
}

impl ConfigurationView {
    /// The least index of a context of the given name.
    pub open spec fn position_of(self, name: Seq<char>) -> Option<int> {
        first_named(self.ctxs, name, 0)
    }

    /// Some context has the given name.
    pub open spec fn has_context(self, name: Seq<char>) -> bool {
        exists|i: int| 0 <= i < self.ctxs.len() && (#[trigger] self.ctxs[i]).name == name
    }

    /// The active context is one of the contexts.
    pub open spec fn is_valid(self) -> bool {
        self.has_context(self.active_ctx_name)
    }
}

/// The least index at or after `from` of a context of the given name.
pub open spec fn first_named(ctxs: Seq<ContextView>, name: Seq<char>, from: int) -> Option<int>
    decreases ctxs.len() - from,
{
    if from < 0 || from >= ctxs.len() {
        None
    } else if ctxs[from].name == name {
        Some(from)
    } else {
        first_named(ctxs, name, from + 1)
    }
}

/// `first_named` finds the first context of the name, and finds one wherever
/// there is one.
pub proof fn lemma_first_named(ctxs: Seq<ContextView>, name: Seq<char>, from: int)
    requires
        0 <= from,
    ensures
        match first_named(ctxs, name, from) {
            Some(i) => {
                &&& from <= i < ctxs.len()
                &&& ctxs[i].name == name
                &&& forall|j: int| from <= j < i ==> (#[trigger] ctxs[j]).name != name
            },
            None => forall|j: int| from <= j < ctxs.len() ==> (#[trigger] ctxs[j]).name != name,
        },
    decreases ctxs.len() - from,
{
    if from < ctxs.len() && ctxs[from].name != name {
        lemma_first_named(ctxs, name, from + 1);
    }
}

impl View for Configuration {
    type V = ConfigurationView;

    open spec fn view(&self) -> ConfigurationView {
        ConfigurationView {
            active_ctx_name: self.active_ctx_name@,
            ctxs: Seq::new(self.ctxs@.len(), |i: int| self.ctxs@[i]@),
        }
    }
}

impl Clone for Configuration {
    fn clone(&self) -> (res: Self)
        ensures
            res@ == self@,
    {
        let mut ctxs: Vec<Context> = Vec::new();
        let mut k: usize = 0;
        while k < self.ctxs.len()
            invariant
                k <= self.ctxs.len(),
                ctxs@.len() == k,
                forall|j: int| 0 <= j < k ==> ctxs@[j] == self.ctxs@[j],
            decreases self.ctxs.len() - k,
        {
            ctxs.push(self.ctxs[k].clone());
            k += 1;
        }
        let res = Configuration { active_ctx_name: self.active_ctx_name.clone(), ctxs };
        assert(res@.ctxs =~= self@.ctxs);
        res
    }
}

/// The text that refuses an empty name for the active context.
pub open spec fn no_name_message() -> Seq<char> {
    "Active context has no name"@
}

/// The text that refuses a name that no context has.
pub open spec fn no_match_message() -> Seq<char> {
    "No matching context could be found among available contexts"@
}

/// The contexts written out one after another, as a configuration shows them.
pub open spec fn configuration_contexts_text(ctxs: Seq<ContextView>) -> Seq<char>
    decreases ctxs.len(),
{
    if ctxs.len() == 0 {
        Seq::empty()
    } else {
        configuration_contexts_text(ctxs.drop_last()) + "==="@ + ctxs.last().name
            + " context===\nide\t\t: "@ + ctxs.last().ide + "\ntimezone\t: "@
            + ctxs.last().timezone + "\nfolder\t\t: "@ + ctxs.last().folder_location + "\n"@
    }
}

/// A configuration written out: the active name, an empty line, the contexts.
pub open spec fn configuration_text(config: ConfigurationView) -> Seq<char> {
    "active_ctx_name = "@ + config.active_ctx_name + "\n\n"@ + configuration_contexts_text(
        config.ctxs,
    )
}

impl Configuration {
    /// Returns a configuration without contexts and without an active name.
    pub fn new() -> (config: Configuration)
        ensures
            config@.active_ctx_name.len() == 0,
            config@.ctxs.len() == 0,
    {
        Configuration { active_ctx_name: String::new(), ctxs: Vec::new() }
    }

    /// Finds the first context of the given name.
    pub fn find_context(&self, name: &String) -> (found: Option<usize>)
        ensures
            match found {
                Some(i) => self@.position_of(name@) == Some(i as int) && i < self.ctxs.len(),
                None => self@.position_of(name@) is None,
            },
    {
        let mut k: usize = 0;
        proof {
            lemma_first_named(self@.ctxs, name@, 0);
        }
        while k < self.ctxs.len()
            invariant
                k <= self.ctxs.len(),
                first_named(self@.ctxs, name@, 0) == first_named(self@.ctxs, name@, k as int),
            decreases self.ctxs.len() - k,
        {
            assert(self@.ctxs[k as int] == self.ctxs@[k as int]@);
            if self.ctxs[k].name == *name {
                return Some(k);
            }
            k += 1;
        }
        None
    }

    /// Tells whether the active context is one of the contexts.
    pub fn is_valid(&self) -> (valid: bool)
        ensures
            valid == self@.is_valid(),
    {
        proof {
            lemma_first_named(self@.ctxs, self@.active_ctx_name, 0);
        }
        self.find_context(&self.active_ctx_name).is_some()
    }

    /// Makes the context of the given name the active one.
    ///
    /// An empty name and a name that no context has are refused, and then the
    /// configuration stays as it was.
    pub fn update_active_ctx(&mut self, new_active_ctx_name: &str) -> (res: Result<
        (),
        &'static str,
    >)
        ensures
            final(self)@.ctxs == old(self)@.ctxs,
            match res {
                Ok(_) => {
                    &&& old(self)@.has_context(new_active_ctx_name@)
                    &&& new_active_ctx_name@.len() > 0
                    &&& final(self)@.active_ctx_name == new_active_ctx_name@
                },
                Err(message) => {
                    &&& final(self)@ == old(self)@
                    &&& if new_active_ctx_name@.len() == 0 {
                        message@ == no_name_message()
                    } else {
                        !old(self)@.has_context(new_active_ctx_name@) && message@
                            == no_match_message()
                    }
                },
            },
    {
        if new_active_ctx_name.is_empty() {
            return Err("Active context has no name");
        }
        let name = String::from_str(new_active_ctx_name);
        proof {
            lemma_first_named(self@.ctxs, name@, 0);
        }
        if self.find_context(&name).is_none() {
            return Err("No matching context could be found among available contexts");
        }
        self.active_ctx_name = name;
        Ok(())
    }

    /// Adds a context and makes it the active one.
    ///
    /// A context without a name is refused, and then the configuration stays
    /// as it was.
    pub fn add_context(&mut self, ctx: Context) -> (res: Result<(), &'static str>)
        ensures
            match res {
                Ok(_) => {
                    &&& ctx@.name.len() > 0
                    &&& final(self)@.ctxs == old(self)@.ctxs.push(ctx@)
                    &&& final(self)@.active_ctx_name == ctx@.name
                    &&& final(self)@.is_valid()
                },
                Err(message) => {
                    &&& ctx@.name.len() == 0
                    &&& final(self)@ == old(self)@
                    &&& message@ == no_name_message()
                },
            },
    {
        if ctx.name.as_str().is_empty() {
            return Err("Active context has no name");
        }
        let name = ctx.name.clone();
        self.ctxs.push(ctx);
        self.active_ctx_name = name;
        proof {
            assert(self@.ctxs =~= old(self)@.ctxs.push(ctx@));
            assert(self@.ctxs[old(self)@.ctxs.len() as int].name == ctx@.name);
        }
        Ok(())
    }

    /// Returns the active context: the first context of the active name.
    pub fn active_context(&self) -> (found: Option<&Context>)
        ensures
            match found {
                Some(ctx) => match self@.position_of(self@.active_ctx_name) {
                    Some(i) => ctx@ == self@.ctxs[i],
                    None => false,
                },
                None => !self@.is_valid(),
            },
    {
        proof {
            lemma_first_named(self@.ctxs, self@.active_ctx_name, 0);
        }
        match self.find_context(&self.active_ctx_name) {
            Some(i) => {
                assert(self@.ctxs[i as int] == self.ctxs@[i as int]@);
                Some(&self.ctxs[i])
            },
            None => None,
        }
    }

    /// Writes the configuration out.
    pub fn to_text(&self) -> (text: String)
        ensures
            text@ == configuration_text(self@),
    {
        let mut text = String::from_str("active_ctx_name = ");
        text.append(self.active_ctx_name.as_str());
        text.append("\n\n");
        let ghost head = text@;
        let mut k: usize = 0;
        assert(self@.ctxs.take(0) =~= Seq::empty());
        assert(text@ =~= head + configuration_contexts_text(self@.ctxs.take(0)));
        while k < self.ctxs.len()
            invariant
                k <= self.ctxs.len(),
                text@ == head + configuration_contexts_text(self@.ctxs.take(k as int)),
            decreases self.ctxs.len() - k,
        {
            let ctx = &self.ctxs[k];
            let ghost before = self@.ctxs.take(k as int);
            let ghost after = self@.ctxs.take(k + 1);
            assert(after.drop_last() =~= before);
            assert(after.last() == ctx@);
            text.append("===");
            text.append(ctx.name.as_str());
            text.append(" context===\nide\t\t: ");
            text.append(ctx.ide.as_str());
            text.append("\ntimezone\t: ");
            text.append(ctx.timezone.as_str());
            text.append("\nfolder\t\t: ");
            text.append(ctx.folder_location.as_str());
            text.append("\n");
            assert(text@ =~= head + configuration_contexts_text(after));
            k += 1;
        }
        assert(self@.ctxs.take(k as int) =~= self@.ctxs);
        text
    }
}

/// What a new todo list is made of.
///
/// Its items start out unchecked. The labels group todo lists when they are
/// listed.
#[derive(Debug)]
pub struct TodoList {
    pub title: String,
    pub description: String,
    pub labels: Vec<String>,
    pub list_items: Vec<String>,
    pub motives: Vec<String>,
}

/// What a `TodoList` holds, as mathematical values.
pub struct TodoListView {
    pub title: Seq<char>,
    pub description: Seq<char>,
    pub labels: Seq<Seq<char>>,
    pub list_items: Seq<Seq<char>>,
    pub motives: Seq<Seq<char>>,
}

impl View for TodoList {
    type V = TodoListView;

    open spec fn view(&self) -> TodoListView {
        TodoListView {
            title: self.title@,
            description: self.description@,
            labels: self.labels.deep_view(),
            list_items: self.list_items.deep_view(),
            motives: self.motives.deep_view(),
        }
    }
}

/// The items as open checklist lines.
pub open spec fn checklist_text(items: Seq<Seq<char>>) -> Seq<char>
    decreases items.len(),
{
    if items.len() == 0 {
        Seq::empty()
    } else {
        checklist_text(items.drop_last()) + "* [ ] "@ + items.last() + "\n"@
    }
}

/// The motives as lines numbered from 1.
pub open spec fn motives_text(motives: Seq<Seq<char>>) -> Seq<char>
    decreases motives.len(),
{
    if motives.len() == 0 {
        Seq::empty()
    } else {
        motives_text(motives.drop_last()) + decimal(motives.len()) + ". "@ + motives.last()
            + "\n"@
    }
}

/// The description as a line of its own, or nothing where it is empty.
pub open spec fn description_part(description: Seq<char>) -> Seq<char> {
    if description.len() > 0 {
        description + "\n"@
    } else {
        Seq::empty()
    }
}

/// The task block with its heading, or nothing where there are no items.
pub open spec fn checklist_part(items: Seq<Seq<char>>) -> Seq<char> {
    if items.len() > 0 {
        "\n## Todo list\n\n"@ + checklist_text(items)
    } else {
        Seq::empty()
    }
}

/// The motives with their heading, or nothing where there are none.
pub open spec fn motives_part(motives: Seq<Seq<char>>) -> Seq<char> {
    if motives.len() > 0 {
        "\n## Motives\n\n"@ + motives_text(motives)
    } else {
        Seq::empty()
    }
}

/// The document of a new todo list: the title line, the description heading
/// with the line of labels, then the description, the task block and the
/// motives as far as there are any.
pub open spec fn document_text(list: TodoListView) -> Seq<char> {
    "# "@ + list.title + "\n\n## Description\n\nLABEL="@ + join(list.labels, ","@) + "\n"@
        + description_part(list.description) + checklist_part(list.list_items) + motives_part(
        list.motives,
    )
}

impl TodoList {
    /// Writes the todo list out as the document that is kept on file.
    pub fn to_text(&self) -> (text: String)
        ensures
            text@ == document_text(self@),
    {
        let mut text = String::from_str("# ");
        text.append(self.title.as_str());
        text.append("\n\n## Description\n\nLABEL=");
        let labels = join_strings(&self.labels, ",");
        text.append(labels.as_str());
        text.append("\n");
        let ghost head = text@;
        if !self.description.as_str().is_empty() {
            text.append(self.description.as_str());
            text.append("\n");
        }
        assert(text@ =~= head + description_part(self@.description));
        let ghost head = text@;
        if self.list_items.len() > 0 {
            text.append("\n## Todo list\n\n");
            let ghost start = text@;
            let mut k: usize = 0;
            assert(self@.list_items.take(0) =~= Seq::empty());
            assert(text@ =~= start + checklist_text(self@.list_items.take(0)));
            while k < self.list_items.len()
                invariant
                    k <= self.list_items.len(),
                    text@ == start + checklist_text(self@.list_items.take(k as int)),
                decreases self.list_items.len() - k,
            {
                let ghost after = self@.list_items.take(k + 1);
                assert(after.drop_last() =~= self@.list_items.take(k as int));
                assert(after.last() == self.list_items@[k as int]@);
                text.append("* [ ] ");
                text.append(self.list_items[k].as_str());
                text.append("\n");
                assert(text@ =~= start + checklist_text(after));
                k += 1;
            }
            assert(self@.list_items.take(k as int) =~= self@.list_items);
        }
        assert(text@ =~= head + checklist_part(self@.list_items));
        let ghost head = text@;
        if self.motives.len() > 0 {
            text.append("\n## Motives\n\n");
            let ghost start = text@;
            let mut k: usize = 0;
            assert(self@.motives.take(0) =~= Seq::empty());
            assert(text@ =~= start + motives_text(self@.motives.take(0)));
            while k < self.motives.len()
                invariant
                    k <= self.motives.len(),
                    text@ == start + motives_text(self@.motives.take(k as int)),
                decreases self.motives.len() - k,
            {
                let ghost after = self@.motives.take(k + 1);
                assert(after.drop_last() =~= self@.motives.take(k as int));
                assert(after.last() == self.motives@[k as int]@);
                let number = decimal_string(k + 1);
                text.append(number.as_str());
                text.append(". ");
                text.append(self.motives[k].as_str());
                text.append("\n");
                assert(text@ =~= start + motives_text(after));
                k += 1;
            }
            assert(self@.motives.take(k as int) =~= self@.motives);
        }
        assert(text@ =~= head + motives_part(self@.motives));
        text
    }
}

/// The path of a todo list inside the folder of a context.
pub open spec fn todo_path_spec(folder: Seq<char>, name: Seq<char>) -> Seq<char> {
    folder + "/"@ + name + ".md"@
}

/// Returns the path of the todo list of the given name inside the folder of a
/// context. A todo list is always kept as a markdown file.
pub fn todo_path(todo_folder_of_todo_ctx: &str, todo_list_name: &str) -> (path: String)
    ensures
        path@ == todo_path_spec(todo_folder_of_todo_ctx@, todo_list_name@),
{
    let mut path = String::from_str(todo_folder_of_todo_ctx);
    path.append("/");
    path.append(todo_list_name);
    path.append(".md");
    path
}

} // verus!
