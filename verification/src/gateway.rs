//! The request pipeline: authenticate, decode, dispatch, and shape the wire
//! reply — with the outbound fetches handed back to the surrounding program
//! as explicit steps, so every decision in between is verified.
use vstd::prelude::*;
use vstd::string::StringExecFns;

use crate::commands::{ActionModel, CommandAction};
use crate::envelope::{wf_envelope, DecodeError, EnvelopeModel, InteractionEnvelope};
use crate::response::{spec_response_body, ResponseModel};
use crate::sig::spec_verify;
use crate::wikipedia::{Page, WikipediaPageSummary};

verus! {

/// A finished reply: the HTTP status and the body to write back.
pub struct Reply {
    pub status: u16,
    pub body: String,
}

/// What the pipeline asks of the surrounding program next: reply now, or
/// perform one outbound fetch and hand the outcome back.
pub enum Step {
    /// Reply immediately; no outbound call is performed.
    Respond(Reply),
    /// Fetch the page summary for this title, then call `finish_summary`.
    FetchSummary { title: String, plaintext: bool },
    /// Fetch search results for this query, then call `finish_search`.
    FetchSearch { query: String },
}

pub enum StepModel {
    Respond(u16, Seq<char>),
    FetchSummary(Seq<char>, bool),
    FetchSearch(Seq<char>),
}

pub open spec fn step_view(s: Step) -> StepModel {
    match s {
        Step::Respond(rep) => StepModel::Respond(rep.status, rep.body@),
        Step::FetchSummary { title, plaintext } => StepModel::FetchSummary(title@, plaintext),
        Step::FetchSearch { query } => StepModel::FetchSearch(query@),
    }
}

/// What dispatching an envelope yields: Pong for a ping, the planned command
/// action for command-bearing kinds, and a client error for any other kind.
pub open spec fn spec_dispatch(m: EnvelopeModel) -> StepModel {
    match m {
        EnvelopeModel::Ping => StepModel::Respond(200, spec_response_body(ResponseModel::Pong)),
        EnvelopeModel::Command(inv) => spec_step_of_action(
            crate::commands::spec_handle_command(inv),
        ),
        EnvelopeModel::Autocomplete(inv) => spec_step_of_action(
            crate::commands::spec_handle_auto_complete(inv),
        ),
        EnvelopeModel::Other(k) => StepModel::Respond(400, "invalid interaction type"@),
    }
}

pub open spec fn spec_step_of_action(a: ActionModel) -> StepModel {
    match a {
        ActionModel::Done(resp) => StepModel::Respond(200, spec_response_body(resp)),
        ActionModel::FetchSummary(title, plaintext) => StepModel::FetchSummary(title, plaintext),
        ActionModel::FetchSearch(query) => StepModel::FetchSearch(query),
    }
}

/// A ping dispatches to Pong immediately, with no outbound call planned.
pub proof fn lemma_ping_dispatch()
    ensures
        spec_dispatch(EnvelopeModel::Ping) == StepModel::Respond(
            200,
            spec_response_body(ResponseModel::Pong),
        ),
{
}

/// An envelope of a kind outside the known set is a client error.
pub proof fn lemma_unknown_kind(k: u64)
    ensures
        spec_dispatch(EnvelopeModel::Other(k)) == StepModel::Respond(
            400,
            "invalid interaction type"@,
        ),
{
}

/// Dispatch never answers unauthorized: it replies 200 or 400, or asks for a
/// fetch. The 401 status is decided by the signature check alone, before any
/// envelope is looked at.
pub proof fn lemma_dispatch_never_unauthorized(m: EnvelopeModel)
    ensures
        match spec_dispatch(m) {
            StepModel::Respond(st, _) => st == 200 || st == 400,
            _ => true,
        },
{
}

fn step_of_action(a: CommandAction) -> (r: Step)
    ensures
        step_view(r) == spec_step_of_action(a@),
{
    match a {
        CommandAction::Done(resp) => {
            let body = crate::response::response_body(&resp);
            Step::Respond(Reply { status: 200, body })
        },
        CommandAction::FetchSummary { title, plaintext } => Step::FetchSummary { title, plaintext },
        CommandAction::FetchSearch { query } => Step::FetchSearch { query },
    }
}

/// Dispatch one decoded envelope.
pub fn dispatch(envelope: &InteractionEnvelope) -> (r: Step)
    ensures
        step_view(r) == spec_dispatch(envelope@),
{
    match envelope {
        InteractionEnvelope::Ping => {
            let body = crate::response::response_body(&crate::response::InteractionResponse::Pong);
            Step::Respond(Reply { status: 200, body })
        },
        InteractionEnvelope::Command(inv) => step_of_action(crate::commands::handle_command(inv)),
        InteractionEnvelope::Autocomplete(inv) => step_of_action(
            crate::commands::handle_auto_complete(inv),
        ),
        InteractionEnvelope::Other(_) => Step::Respond(
            Reply { status: 400, body: "invalid interaction type".to_owned() },
        ),
    }
}

/// Handle one authenticated request from its transport pieces: the 32-byte
/// public key, the two header values, and the raw body. A bad signature is
/// rejected with 401 before anything is parsed; a malformed body with 400;
/// otherwise the decoded envelope's dispatch decides.
pub fn handle_request(pk: &Vec<u8>, timestamp: &str, signature_hex: &str, body: &[u8]) -> (r: Step)
    requires
        pk@.len() == 32,
    ensures
        !spec_verify(pk@, timestamp@, body@, signature_hex@) ==> step_view(r) == StepModel::Respond(
            401,
            "invalid signature"@,
        ),
        spec_verify(pk@, timestamp@, body@, signature_hex@) ==> step_view(r) == StepModel::Respond(
            400,
            "invalid interaction"@,
        ) || (exists|m: EnvelopeModel| wf_envelope(m) && step_view(r) == #[trigger] spec_dispatch(
            m,
        )),
        spec_verify(pk@, timestamp@, body@, signature_hex@) ==> (match step_view(r) {
            StepModel::Respond(st, _) => st == 200 || st == 400,
            _ => true,
        }),
        forall|m: EnvelopeModel|
            spec_verify(pk@, timestamp@, body@, signature_hex@)
                && #[trigger] crate::parse::nodata_canonical(body@, m) ==> step_view(r)
                == spec_dispatch(m),
{
    if !crate::sig::verify(pk, timestamp, body, signature_hex) {
        return Step::Respond(Reply { status: 401, body: "invalid signature".to_owned() });
    }
    let envelope = match crate::parse::decode(body) {
        Result::Ok(e) => e,
        Result::Err(DecodeError::Malformed) => {
            return Step::Respond(Reply { status: 400, body: "invalid interaction".to_owned() });
        },
    };
    let r = dispatch(&envelope);
    proof {
        assert(wf_envelope(envelope@) && step_view(r) == spec_dispatch(envelope@));
        lemma_dispatch_never_unauthorized(envelope@);
    }
    r
}

/// Finish the execute path once the summary fetch has returned: a failure
/// reason becomes a normal 200 reply whose message text is exactly that
/// reason, never a server error.
pub fn finish_summary(plaintext: bool, fetched: Result<WikipediaPageSummary, String>) -> (r: Reply)
    ensures
        r.status == 200,
        match fetched {
            Result::Ok(s) => r.body@ == spec_response_body(
                crate::article::spec_summary_response(s, plaintext),
            ),
            Result::Err(reason) => r.body@ == spec_response_body(
                ResponseModel::Message {
                    content: Option::Some(reason@),
                    embeds: Seq::empty(),
                    ephemeral: true,
                },
            ),
        },
{
    let resp = crate::article::execute_complete(fetched, plaintext);
    let body = crate::response::response_body(&resp);
    Reply { status: 200, body }
}

/// Finish the suggest path once the search fetch has returned: results become
/// the choice list; a fetch failure surfaces as the server error reply, as
/// dispatch faults do.
pub fn finish_search(fetched: Result<Vec<Page>, String>) -> (r: Reply)
    ensures
        match fetched {
            Result::Ok(pages) => r.status == 200 && r.body@ == spec_response_body(
                ResponseModel::AutocompleteChoices {
                    choices: pages@.map_values(|p: Page| crate::article::spec_choice_of_page(p)),
                },
            ),
            Result::Err(_) => r.status == 500 && r.body@ == "failed to handle autocomplete"@,
        },
{
    match fetched {
        Result::Ok(pages) => {
            let resp = crate::article::suggest_complete(pages);
            let body = crate::response::response_body(&resp);
            Reply { status: 200, body }
        },
        Result::Err(_) => Reply { status: 500, body: "failed to handle autocomplete".to_owned() },
    }
}

} // verus!
