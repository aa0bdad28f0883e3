//! Command dispatch: response constructors, the routing of invocations by
//! command name to the article handlers, and the diagnostic fallback that
//! echoes an unregistered invocation.
use vstd::prelude::*;
use vstd::string::StringExecFns;

use crate::article::{spec_query_of, spec_title_of};
use crate::envelope::{CommandInvocation, InvocationModel, OptionModel, OptionValueModel};
use crate::jsontext::{push_quoted, quoted};
use crate::response::{join_comma, Embed, InteractionResponse, ResponseModel};
use crate::text::str_eq;

verus! {

/// Shorthand for a text response to an interaction.
pub fn text_response(content: String, ephemeral: bool) -> (r: InteractionResponse)
    ensures
        r@ == (ResponseModel::Message {
            content: Option::Some(content@),
            embeds: Seq::empty(),
            ephemeral,
        }),
{
    let r = InteractionResponse::Message { content: Some(content), embeds: Vec::new(), ephemeral };
    proof {
        assert(r@->Message_embeds =~= Seq::<crate::response::EmbedModel>::empty());
    }
    r
}

/// Shorthand for an embed response to an interaction.
pub fn embed_response(embeds: Vec<Embed>, ephemeral: bool) -> (r: InteractionResponse)
    ensures
        r@ == (ResponseModel::Message {
            content: Option::None,
            embeds: embeds@.map_values(|e: Embed| e@),
            ephemeral,
        }),
{
    InteractionResponse::Message { content: None, embeds, ephemeral }
}

/// What one option looks like in the diagnostic echo.
pub open spec fn spec_opt_text(o: OptionModel) -> Seq<char> {
    quoted(o.name) + ": "@ + match o.value {
        OptionValueModel::Text(s) => quoted(s),
        OptionValueModel::Flag(b) => if b {
            "true"@
        } else {
            "false"@
        },
        OptionValueModel::Focused(s) => "focused "@ + quoted(s),
    }
}

/// The diagnostic echo of an invocation, shown for unregistered commands.
pub open spec fn spec_echo(m: InvocationModel) -> Seq<char> {
    "```rust\ncommand "@ + quoted(m.name) + ", options: ["@ + join_comma(
        m.options.map_values(|o: OptionModel| spec_opt_text(o)),
    ) + "]\n```"@
}

fn opt_text(o: &crate::envelope::CommandOption) -> (r: String)
    ensures
        r@ == spec_opt_text(o@),
{
    let mut out = String::new();
    push_quoted(&mut out, o.name.as_str());
    out.append(": ");
    match &o.value {
        crate::envelope::OptionValue::Text(s) => {
            push_quoted(&mut out, s.as_str());
        },
        crate::envelope::OptionValue::Flag(b) => {
            if *b {
                out.append("true");
            } else {
                out.append("false");
            }
        },
        crate::envelope::OptionValue::Focused(s) => {
            out.append("focused ");
            push_quoted(&mut out, s.as_str());
        },
    }
    proof {
        assert(out@ =~= spec_opt_text(o@));
    }
    out
}

/// The diagnostic fallback: a plain message echoing the invocation for
/// operator visibility.
pub fn debug(inv: &CommandInvocation) -> (r: InteractionResponse)
    ensures
        r@ == (ResponseModel::Message {
            content: Option::Some(spec_echo(inv@)),
            embeds: Seq::empty(),
            ephemeral: false,
        }),
{
    let mut parts: Vec<String> = Vec::new();
    let mut i: usize = 0;
    while i < inv.options.len()
        invariant
            0 <= i <= inv.options@.len(),
            parts@.len() == i,
            forall|k: int|
                0 <= k < i ==> #[trigger] parts@[k]@ == spec_opt_text(inv.options@[k]@),
        decreases inv.options@.len() - i,
    {
        parts.push(opt_text(&inv.options[i]));
        i = i + 1;
        proof {
            assert(parts@[i - 1]@ == spec_opt_text(inv.options@[i - 1]@));
        }
    }
    let joined = crate::response::join_texts(&parts);
    proof {
        let vm = inv@.options;
        let whole = vm.map_values(|o: OptionModel| spec_opt_text(o));
        assert forall|k: int| 0 <= k < whole.len() implies parts@.map_values(|s: String| s@)[k]
            == whole[k] by {
            assert(vm[k] == inv.options@[k]@);
            assert(whole[k] == spec_opt_text(vm[k]));
            assert(parts@[k]@ == spec_opt_text(inv.options@[k]@));
        }
        assert(parts@.map_values(|s: String| s@) =~= whole);
    }
    let mut content = String::new();
    content.append("```rust\ncommand ");
    push_quoted(&mut content, inv.name.as_str());
    content.append(", options: [");
    content.append(joined.as_str());
    content.append("]\n```");
    proof {
        assert(content@ =~= spec_echo(inv@));
    }
    text_response(content, false)
}

/// What a command handler decides: an immediate response, or an outbound
/// fetch that the surrounding program performs before completion.
pub enum CommandAction {
    /// Respond now, no outbound call.
    Done(InteractionResponse),
    /// Fetch the page summary for the title, then complete the execute path.
    FetchSummary { title: String, plaintext: bool },
    /// Fetch search results for the query, then complete the suggest path.
    FetchSearch { query: String },
}

pub enum ActionModel {
    Done(ResponseModel),
    FetchSummary(Seq<char>, bool),
    FetchSearch(Seq<char>),
}

impl View for CommandAction {
    type V = ActionModel;

    open spec fn view(&self) -> ActionModel {
        match self {
            CommandAction::Done(r) => ActionModel::Done(r@),
            CommandAction::FetchSummary { title, plaintext } => ActionModel::FetchSummary(
                title@,
                *plaintext,
            ),
            CommandAction::FetchSearch { query } => ActionModel::FetchSearch(query@),
        }
    }
}

/// The fixed corrective message when the title option is missing.
pub open spec fn spec_missing_title_response() -> ResponseModel {
    ResponseModel::Message {
        content: Option::Some("You need to provide a title!"@),
        embeds: Seq::empty(),
        ephemeral: true,
    }
}

/// What the article execute handler plans: a corrective ephemeral message
/// when no title string option is present, else a summary fetch.
pub open spec fn spec_chat_input(m: InvocationModel) -> ActionModel {
    match spec_title_of(m) {
        Option::Some(t) => ActionModel::FetchSummary(t, crate::article::spec_plaintext_of(m)),
        Option::None => ActionModel::Done(spec_missing_title_response()),
    }
}

/// An invocation without a title string option always yields the fixed
/// ephemeral corrective message, and plans no outbound call.
pub proof fn lemma_missing_title(m: InvocationModel)
    requires
        spec_title_of(m) is None,
    ensures
        spec_chat_input(m) == ActionModel::Done(spec_missing_title_response()),
{
}

/// Plan the article execute path.
pub fn chat_input(inv: &CommandInvocation) -> (r: CommandAction)
    ensures
        r@ == spec_chat_input(inv@),
{
    match crate::article::title_of(inv) {
        Option::Some(title) => {
            let plaintext = crate::article::plaintext_of(inv);
            CommandAction::FetchSummary { title, plaintext }
        },
        Option::None => {
            let resp = text_response("You need to provide a title!".to_owned(), true);
            CommandAction::Done(resp)
        },
    }
}

/// Plan the article suggest path: always a search fetch for the query.
pub fn autocomplete(inv: &CommandInvocation) -> (r: CommandAction)
    ensures
        r@ == ActionModel::FetchSearch(spec_query_of(inv@)),
{
    let query = crate::article::query_of(inv);
    CommandAction::FetchSearch { query }
}

/// What dispatching a command by name plans.
pub open spec fn spec_handle_command(m: InvocationModel) -> ActionModel {
    if m.name == "article"@ {
        spec_chat_input(m)
    } else {
        ActionModel::Done(
            ResponseModel::Message {
                content: Option::Some(spec_echo(m)),
                embeds: Seq::empty(),
                ephemeral: false,
            },
        )
    }
}

/// What dispatching an autocomplete by name plans.
pub open spec fn spec_handle_auto_complete(m: InvocationModel) -> ActionModel {
    if m.name == "article"@ {
        ActionModel::FetchSearch(spec_query_of(m))
    } else {
        ActionModel::Done(
            ResponseModel::Message {
                content: Option::Some(spec_echo(m)),
                embeds: Seq::empty(),
                ephemeral: false,
            },
        )
    }
}

/// Route a command invocation by name: the registered article command, or the
/// diagnostic fallback.
pub fn handle_command(inv: &CommandInvocation) -> (r: CommandAction)
    ensures
        r@ == spec_handle_command(inv@),
{
    if str_eq(inv.name.as_str(), "article") {
        chat_input(inv)
    } else {
        CommandAction::Done(debug(inv))
    }
}

/// Route an autocomplete invocation by name.
pub fn handle_auto_complete(inv: &CommandInvocation) -> (r: CommandAction)
    ensures
        r@ == spec_handle_auto_complete(inv@),
{
    if str_eq(inv.name.as_str(), "article") {
        autocomplete(inv)
    } else {
        CommandAction::Done(debug(inv))
    }
}

} // verus!
