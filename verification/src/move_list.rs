//! Moves a todo list from the active context into another one.
//!
//! The paths are worked out here; the file itself is moved by the caller.
use crate::todo_path;
use crate::todo_path_spec;
use crate::Configuration;
use crate::ConfigurationView;
use crate::ContextView;
use vstd::prelude::*;
use vstd::string::StringExecFns;

verus! {

/// Why a todo list was not moved.
#[derive(Debug)]
pub enum Error {
    /// No context has the wanted name.
    ///
    /// The first field tells whether it is the context to move from that is
    /// unknown; otherwise it is the context to move to. The second is the
    /// name that was asked for, the third the names of the contexts there are.
    UnknownContext(bool, String, Vec<String>),
    /// Asking the user whether to make the folder of the context went wrong.
    PromptingUserForContextFolderCreation,
    /// The file could not be renamed.
    Renaming,
    /// There is no file to move.
    ///
    /// The first field is the name of the todo list, the second the path at
    /// which it was looked for.
    NothingToMove(String, String),
}

/// What an `Error` holds, as mathematical values.
pub enum ErrorView {
    UnknownContext(bool, Seq<char>, Seq<Seq<char>>),
    PromptingUserForContextFolderCreation,
    Renaming,
    NothingToMove(Seq<char>, Seq<char>),
}

impl View for Error {
    type V = ErrorView;

    open spec fn view(&self) -> ErrorView {
        match self {
            Error::UnknownContext(old, name, names) => ErrorView::UnknownContext(
                *old,
                name@,
                names.deep_view(),
            ),
            Error::PromptingUserForContextFolderCreation => {
                ErrorView::PromptingUserForContextFolderCreation
            },
            Error::Renaming => ErrorView::Renaming,
            Error::NothingToMove(file, path) => ErrorView::NothingToMove(file@, path@),
        }
    }
}

/// The names as the items of a list, one to a line.
pub open spec fn name_items(names: Seq<Seq<char>>) -> Seq<char>
    decreases names.len(),
{
    if names.len() == 0 {
        Seq::empty()
    } else {
        name_items(names.drop_last()) + "- "@ + names.last() + "\n"@
    }
}

/// What an error tells the user.
pub open spec fn error_text(e: ErrorView) -> Seq<char> {
    match e {
        ErrorView::UnknownContext(old, name, names) => (if old {
            "Old path is unknown!\n"@
        } else {
            "New path is unknown!\n"@
        }) + "\""@ + name + "\" does not match any available context.\n"@
            + "Please select a name among:\n"@ + name_items(names),
        ErrorView::PromptingUserForContextFolderCreation => "Something went wrong while asking user to create Todo Context folder to move Todo list into.\n"@,
        ErrorView::Renaming => "Error while renaming the file to another location.\n"@,
        ErrorView::NothingToMove(file, path) => "File \""@ + file
            + "\" could not be moved because there is nothing at \""@ + path + "\"\n"@,
    }
}

impl Error {
    /// Writes out what the error tells the user.
    pub fn message(&self) -> (text: String)
        ensures
            text@ == error_text(self@),
    {
        match self {
            Error::UnknownContext(old, name, names) => {
                let mut text = if *old {
                    String::from_str("Old path is unknown!\n")
                } else {
                    String::from_str("New path is unknown!\n")
                };
                text.append("\"");
                text.append(name.as_str());
                text.append("\" does not match any available context.\n");
                text.append("Please select a name among:\n");
                let ghost head = text@;
                let mut k: usize = 0;
                assert(names.deep_view().take(0) =~= Seq::empty());
                assert(text@ =~= head + name_items(names.deep_view().take(0)));
                while k < names.len()
                    invariant
                        k <= names.len(),
                        text@ == head + name_items(names.deep_view().take(k as int)),
                    decreases names.len() - k,
                {
                    let ghost after = names.deep_view().take(k + 1);
                    assert(after.drop_last() =~= names.deep_view().take(k as int));
                    assert(after.last() == names@[k as int]@);
                    text.append("- ");
                    text.append(names[k].as_str());
                    text.append("\n");
                    assert(text@ =~= head + name_items(after));
                    k += 1;
                }
                assert(names.deep_view().take(k as int) =~= names.deep_view());
                text
            },
            Error::PromptingUserForContextFolderCreation => String::from_str(
                "Something went wrong while asking user to create Todo Context folder to move Todo list into.\n",
            ),
            Error::Renaming => String::from_str(
                "Error while renaming the file to another location.\n",
            ),
            Error::NothingToMove(file, path) => {
                let mut text = String::from_str("File \"");
                text.append(file.as_str());
                text.append("\" could not be moved because there is nothing at \"");
                text.append(path.as_str());
                text.append("\"\n");
                text
            },
        }
    }
}

/// The names of the contexts, in their order.
pub open spec fn context_names(ctxs: Seq<ContextView>) -> Seq<Seq<char>> {
    Seq::new(ctxs.len(), |i: int| ctxs[i].name)
}

/// Where a todo list lies and where it is to lie after the move, or why it
/// cannot be moved: the active context is looked up first, then the one to
/// move to, each by the first context of its name.
pub open spec fn moving_paths(title: Seq<char>, ctx_name: Seq<char>, config: ConfigurationView)
    -> Result<(Seq<char>, Seq<char>), ErrorView> {
    match config.position_of(config.active_ctx_name) {
        None => Err(ErrorView::UnknownContext(true, ctx_name, context_names(config.ctxs))),
        Some(from) => match config.position_of(ctx_name) {
            None => Err(ErrorView::UnknownContext(false, ctx_name, context_names(config.ctxs))),
            Some(to) => Ok(
                (
                    todo_path_spec(config.ctxs[from].folder_location, title),
                    todo_path_spec(config.ctxs[to].folder_location, title),
                ),
            ),
        },
    }
}

/// Returns the names of the contexts, in their order.
pub fn names_of_contexts(config: &Configuration) -> (names: Vec<String>)
    ensures
        names.deep_view() == context_names(config@.ctxs),
{
    let mut names: Vec<String> = Vec::new();
    let mut k: usize = 0;
    while k < config.ctxs.len()
        invariant
            k <= config.ctxs.len(),
            names@.len() == k,
            forall|j: int| 0 <= j < k ==> (#[trigger] names@[j])@ == config.ctxs@[j]@.name,
        decreases config.ctxs.len() - k,
    {
        names.push(config.ctxs[k].name.clone());
        k += 1;
    }
    assert(names.deep_view() =~= context_names(config@.ctxs));
    names
}

/// Returns the path of the todo list in the active context and the path it
/// is to be moved to in the context named `ctx_name`.
pub fn paths_for_moving_todo_list(title: &str, ctx_name: &str, config: &Configuration) -> (res:
    Result<(String, String), Error>)
    ensures
        match res {
            Ok((old_path, new_path)) => moving_paths(title@, ctx_name@, config@) == Ok::<
                (Seq<char>, Seq<char>),
                ErrorView,
            >((old_path@, new_path@)),
            Err(e) => moving_paths(title@, ctx_name@, config@) == Err::<
                (Seq<char>, Seq<char>),
                ErrorView,
            >(e@),
        },
{
    let wanted = String::from_str(ctx_name);
    let from = match config.find_context(&config.active_ctx_name) {
        Some(i) => i,
        None => {
            return Err(Error::UnknownContext(true, wanted, names_of_contexts(config)));
        },
    };
    let to = match config.find_context(&wanted) {
        Some(i) => i,
        None => {
            return Err(Error::UnknownContext(false, wanted, names_of_contexts(config)));
        },
    };
    assert(config@.ctxs[from as int] == config.ctxs@[from as int]@);
    assert(config@.ctxs[to as int] == config.ctxs@[to as int]@);
    let old_path = todo_path(config.ctxs[from].folder_location.as_str(), title);
    let new_path = todo_path(config.ctxs[to].folder_location.as_str(), title);
    Ok((old_path, new_path))
}

} // verus!
