//! Opens a todo list in the editor of its context.
//!
//! What to open and with which editor is worked out here; the editor is
//! started by the caller.
use crate::todo_path;
use crate::todo_path_spec;
use crate::Configuration;
use crate::ConfigurationView;
use crate::Context;
use crate::ContextView;
use vstd::prelude::*;
use vstd::string::StringExecFns;

verus! {

/// Why a todo list was not opened.
#[derive(Debug)]
pub enum Error {
    /// No context has the name that was asked for.
    UnknownContext(String),
}

/// What an error tells the user.
pub open spec fn error_text(name: Seq<char>) -> Seq<char> {
    "Unknown context \""@ + name + "\" was referrenced.\n"@
}

impl Error {
    /// The name that no context has.
    pub open spec fn name(self) -> Seq<char> {
        match self {
            Error::UnknownContext(name) => name@,
        }
    }

    /// Writes out what the error tells the user.
    pub fn message(&self) -> (text: String)
        ensures
            text@ == error_text(self.name()),
    {
        match self {
            Error::UnknownContext(name) => {
                let mut text = String::from_str("Unknown context \"");
                text.append(name.as_str());
                text.append("\" was referrenced.\n");
                text
            },
        }
    }
}

/// The editor to start and the file to open with it.
#[derive(Debug)]
pub struct EditTarget {
    pub ide: String,
    pub path: String,
}

/// The context whose editor and folder are used: the first one of the given
/// name, or the active context where no name is given.
pub open spec fn edited_context(
    ctx: ContextView,
    config: ConfigurationView,
    ctx_name: Option<Seq<char>>,
) -> Option<ContextView> {
    match ctx_name {
        None => Some(ctx),
        Some(name) => match config.position_of(name) {
            Some(i) => Some(config.ctxs[i]),
            None => None,
        },
    }
}

/// The name of a context, if one was given, as a mathematical value.
pub open spec fn name_view(name: Option<&str>) -> Option<Seq<char>> {
    match name {
        Some(name) => Some(name@),
        None => None,
    }
}

/// Returns the editor and the path with which to open the todo list `title`:
/// those of the context named `ctx_name`, or of the active context `ctx`
/// where no name is given. A name that no context has is refused.
pub fn edit_target(title: &str, ctx: &Context, config: &Configuration, ctx_name: Option<&str>) -> (res:
    Result<EditTarget, Error>)
    ensures
        match res {
            Ok(target) => match edited_context(ctx@, config@, name_view(ctx_name)) {
                Some(used) => target.ide@ == used.ide && target.path@ == todo_path_spec(
                    used.folder_location,
                    title@,
                ),
                None => false,
            },
            Err(e) => edited_context(ctx@, config@, name_view(ctx_name)) is None && ctx_name
                is Some && e.name() == ctx_name.unwrap()@,
        },
{
    let used = match ctx_name {
        None => ctx,
        Some(name) => {
            let name = String::from_str(name);
            match config.find_context(&name) {
                Some(i) => {
                    assert(config@.ctxs[i as int] == config.ctxs@[i as int]@);
                    &config.ctxs[i]
                },
                None => {
                    return Err(Error::UnknownContext(name));
                },
            }
        },
    };
    Ok(EditTarget { ide: used.ide.clone(), path: todo_path(used.folder_location.as_str(), title) })
}

} // verus!
