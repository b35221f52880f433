//! Shows the contexts of a configuration.
use crate::context_lines;
use crate::Configuration;
use crate::ConfigurationView;
use crate::ContextView;
use vstd::prelude::*;
use vstd::string::StringExecFns;

verus! {

/// What is shown of one context.
///
/// In full: its fields under a heading that marks the active context, and an
/// empty line. Otherwise its name on a line, after an arrow for the active
/// context and after two spaces for the others.
pub open spec fn context_entry(ctx: ContextView, active: bool, full: bool) -> Seq<char> {
    if full {
        context_lines(
            if active {
                "--- Context (active) ---"@
            } else {
                "--- Context ---"@
            },
            ctx,
        ) + "\n"@
    } else {
        (if active {
            "\u{2192} "@
        } else {
            "  "@
        }) + ctx.name + "\n"@
    }
}

/// What is shown of the first `n` contexts of a configuration, in their order.
pub open spec fn contexts_text(config: ConfigurationView, full: bool, n: int) -> Seq<char>
    decreases n,
{
    if n <= 0 {
        Seq::empty()
    } else {
        contexts_text(config, full, n - 1) + context_entry(
            config.ctxs[n - 1],
            config.ctxs[n - 1].name == config.active_ctx_name,
            full,
        )
    }
}

/// Writes out all contexts of a configuration, the active one marked.
pub fn contexts_listing(config: &Configuration, full: bool) -> (text: String)
    ensures
        text@ == contexts_text(config@, full, config@.ctxs.len() as int),
{
    let mut text = String::new();
    let mut k: usize = 0;
    while k < config.ctxs.len()
        invariant
            k <= config.ctxs.len(),
            text@ == contexts_text(config@, full, k as int),
        decreases config.ctxs.len() - k,
    {
        let ctx = &config.ctxs[k];
        let ghost before = text@;
        assert(config@.ctxs[k as int] == ctx@);
        let active = ctx.name == config.active_ctx_name;
        if full {
            let heading = if active {
                "--- Context (active) ---"
            } else {
                "--- Context ---"
            };
            text.append(ctx.to_text_under(heading).as_str());
            text.append("\n");
        } else {
            if active {
                text.append("\u{2192} ");
            } else {
                text.append("  ");
            }
            text.append(ctx.name.as_str());
            text.append("\n");
        }
        assert(text@ =~= before + context_entry(ctx@, active, full));
        k += 1;
    }
    text
}

} // verus!
