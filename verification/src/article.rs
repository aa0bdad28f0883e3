//! The article command: option reading, the planned outbound fetches, and the
//! shaping of fetched summaries and search results into responses.
use vstd::prelude::*;
use vstd::string::StringExecFns;

use crate::envelope::{CommandInvocation, CommandOption, InvocationModel, OptionModel, OptionValue, OptionValueModel};
use crate::numfmt::{dec_digits_signed, i64_to_dec};
use crate::response::{Choice, ChoiceModel, Embed, EmbedField, EmbedModel, InteractionResponse, ResponseModel};
use crate::text::{chars_vec, has_prefix, str_eq, string_from_chars};
use crate::wikipedia::{Page, WikipediaPageSummary};

verus! {

/// The markdown text that HTML converts to. The conversion depends on the
/// input characters alone.
pub uninterp spec fn markdown_of(html: Seq<char>) -> Seq<char>;

/// Relies on html2md::parse_html: it turns an HTML fragment into markdown
/// text, a pure function of the input string.
#[verifier::external_body]
fn html_to_markdown(html: &str) -> (r: String)
    ensures
        r@ == markdown_of(html@),
{
    html2md::parse_html(html)
}

/// The Unix timestamp that an ISO-8601 text denotes, if it parses; a pure
/// function of the input characters.
pub uninterp spec fn iso8601_unix(s: Seq<char>) -> Option<i64>;

/// Relies on time::OffsetDateTime::parse with the default ISO-8601 format,
/// and on OffsetDateTime::unix_timestamp: parsing either fails or yields a
/// date and time whose Unix timestamp is returned, deterministically.
#[verifier::external_body]
fn parse_iso8601_unix(s: &str) -> (r: Option<i64>)
    ensures
        r == iso8601_unix(s@),
{
    match time::OffsetDateTime::parse(s, &time::format_description::well_known::Iso8601::DEFAULT) {
        Ok(t) => Some(t.unix_timestamp()),
        Err(_) => None,
    }
}

/// The first option with the given name, if any.
pub open spec fn spec_find_option(opts: Seq<OptionModel>, name: Seq<char>) -> Option<OptionModel>
    decreases opts.len(),
{
    if opts.len() == 0 {
        Option::None
    } else if opts[0].name == name {
        Option::Some(opts[0])
    } else {
        spec_find_option(opts.drop_first(), name)
    }
}

proof fn lemma_find_from(opts: Seq<OptionModel>, name: Seq<char>, i: int)
    requires
        0 <= i <= opts.len(),
        forall|k: int| 0 <= k < i ==> opts[k].name != name,
    ensures
        i < opts.len() && opts[i].name == name ==> spec_find_option(opts, name) == Option::Some(
            opts[i],
        ),
        i == opts.len() ==> spec_find_option(opts, name) is None,
    decreases opts.len(),
{
    if opts.len() > 0 {
        if i == 0 {
        } else {
            assert(opts[0].name != name);
            lemma_find_from(opts.drop_first(), name, i - 1);
        }
    }
}

fn find_option(opts: &Vec<CommandOption>, name: &str) -> (r: Option<usize>)
    ensures
        ({
            let ms = opts@.map_values(|c: CommandOption| c@);
            match r {
                Option::Some(i) => 0 <= i < ms.len() && spec_find_option(ms, name@)
                    == Option::Some(ms[i as int]),
                Option::None => spec_find_option(ms, name@) is None,
            }
        }),
{
    let ghost ms = opts@.map_values(|c: CommandOption| c@);
    let mut i: usize = 0;
    while i < opts.len()
        invariant
            0 <= i <= ms.len(),
            ms == opts@.map_values(|c: CommandOption| c@),
            forall|k: int| 0 <= k < i ==> ms[k].name != name@,
        decreases ms.len() - i,
    {
        if str_eq(opts[i].name.as_str(), name) {
            proof {
                assert(ms[i as int].name == name@);
                lemma_find_from(ms, name@, i as int);
            }
            return Some(i);
        }
        i = i + 1;
    }
    proof {
        lemma_find_from(ms, name@, i as int);
    }
    None
}

/// The title option's text, when the invocation carries a string option of
/// that name; the first option named `title` decides.
pub open spec fn spec_title_of(m: InvocationModel) -> Option<Seq<char>> {
    match spec_find_option(m.options, "title"@) {
        Option::Some(o) => match o.value {
            OptionValueModel::Text(s) => Option::Some(s),
            _ => Option::None,
        },
        Option::None => Option::None,
    }
}

/// The plaintext flag: the first option named `plaintext` when it is a
/// boolean; anything else means false.
pub open spec fn spec_plaintext_of(m: InvocationModel) -> bool {
    match spec_find_option(m.options, "plaintext"@) {
        Option::Some(o) => match o.value {
            OptionValueModel::Flag(b) => b,
            _ => false,
        },
        Option::None => false,
    }
}

/// The autocomplete query: the focused text of the first option named
/// `title`, with a fixed placeholder when it is absent, not focused text,
/// or empty.
pub open spec fn spec_query_of(m: InvocationModel) -> Seq<char> {
    match spec_find_option(m.options, "title"@) {
        Option::Some(o) => match o.value {
            OptionValueModel::Focused(s) => if s.len() == 0 {
                "Discord"@
            } else {
                s
            },
            _ => "Discord"@,
        },
        Option::None => "Discord"@,
    }
}

/// Read the title option from an invocation.
pub fn title_of(inv: &CommandInvocation) -> (r: Option<String>)
    ensures
        match r {
            Option::Some(s) => spec_title_of(inv@) == Option::Some(s@),
            Option::None => spec_title_of(inv@) is None,
        },
{
    match find_option(&inv.options, "title") {
        Option::Some(i) => match &inv.options[i].value {
            OptionValue::Text(s) => Some(s.clone()),
            _ => None,
        },
        Option::None => None,
    }
}

/// Read the plaintext flag from an invocation.
pub fn plaintext_of(inv: &CommandInvocation) -> (r: bool)
    ensures
        r == spec_plaintext_of(inv@),
{
    match find_option(&inv.options, "plaintext") {
        Option::Some(i) => match &inv.options[i].value {
            OptionValue::Flag(b) => *b,
            _ => false,
        },
        Option::None => false,
    }
}

/// Read the autocomplete query from an invocation.
pub fn query_of(inv: &CommandInvocation) -> (r: String)
    ensures
        r@ == spec_query_of(inv@),
{
    match find_option(&inv.options, "title") {
        Option::Some(i) => match &inv.options[i].value {
            OptionValue::Focused(s) => {
                if s.as_str().is_empty() {
                    "Discord".to_owned()
                } else {
                    s.clone()
                }
            },
            _ => "Discord".to_owned(),
        },
        Option::None => "Discord".to_owned(),
    }
}

/// A display name over 100 characters is cut to 97 characters and an
/// ellipsis marker; at most 100 characters it is left untouched.
pub open spec fn spec_truncate(s: Seq<char>) -> Seq<char> {
    if s.len() <= 100 {
        s
    } else {
        s.subrange(0, 97) + "..."@
    }
}

/// The truncated length never passes 100 characters, and exactly reaches it
/// on truncation.
pub proof fn lemma_truncate_length(s: Seq<char>)
    ensures
        s.len() > 100 ==> spec_truncate(s).len() == 100,
        s.len() <= 100 ==> spec_truncate(s) == s,
{
    reveal_strlit("...");
}

/// Truncate a choice display name to the platform's 100-character cap.
pub fn truncate_display(name: String) -> (r: String)
    ensures
        r@ == spec_truncate(name@),
{
    let v = chars_vec(name.as_str());
    if v.len() <= 100 {
        return name;
    }
    let mut out: Vec<char> = Vec::new();
    let mut i: usize = 0;
    while i < 97
        invariant
            0 <= i <= 97 < v@.len(),
            v@ == name@,
            out@ == v@.subrange(0, i as int),
        decreases 97 - i,
    {
        out.push(v[i]);
        i = i + 1;
        proof {
            assert(out@ =~= v@.subrange(0, i as int));
        }
    }
    let mut s = string_from_chars(&out);
    s.append("...");
    proof {
        assert(s@ =~= spec_truncate(name@));
    }
    s
}

/// The display name of one search result: `title: description` when a
/// description exists, else the title, truncated to the cap.
pub open spec fn spec_display_name(p: Page) -> Seq<char> {
    match p.description {
        Option::Some(d) => p.title@ + ": "@ + d@,
        Option::None => p.title@,
    }
}

/// The choice one search result becomes: its truncated display name, and the
/// page key as the value sent back.
pub open spec fn spec_choice_of_page(p: Page) -> ChoiceModel {
    ChoiceModel { name: spec_truncate(spec_display_name(p)), value: p.key@ }
}

/// Map one search result page to a choice.
pub fn choice_of_page(p: &Page) -> (c: Choice)
    ensures
        c@ == spec_choice_of_page(*p),
{
    let name = match &p.description {
        Option::Some(d) => {
            let mut n = p.title.clone();
            n.append(": ");
            n.append(d.as_str());
            n
        },
        Option::None => p.title.clone(),
    };
    let name = truncate_display(name);
    Choice { name, value: p.key.clone() }
}

/// Whether the collaborator's thumbnail URL is usable in an embed: only web
/// URLs are accepted.
pub open spec fn spec_valid_image_url(u: Seq<char>) -> bool {
    ||| u.len() >= "https:"@.len() && u.subrange(0, "https:"@.len() as int) == "https:"@
    ||| u.len() >= "http:"@.len() && u.subrange(0, "http:"@.len() as int) == "http:"@
}

fn valid_image_url(u: &str) -> (r: bool)
    ensures
        r == spec_valid_image_url(u@),
{
    let a = has_prefix(u, "https:");
    let b = has_prefix(u, "http:");
    a || b
}

/// The line carrying the page's last-updated time, when its timestamp parses
/// as ISO-8601; empty otherwise.
pub open spec fn spec_last_updated(timestamp: Seq<char>) -> Seq<char> {
    match iso8601_unix(timestamp) {
        Option::Some(ts) => "Last updated <t:"@ + dec_digits_signed(ts as int) + ":F> (<t:"@
            + dec_digits_signed(ts as int) + ":R>)"@,
        Option::None => Seq::empty(),
    }
}

/// The condensed plain-text rendering of a summary.
pub open spec fn spec_plain_content(s: WikipediaPageSummary) -> Seq<char> {
    "## ["@ + s.title@ + "](<"@ + s.content_urls.desktop.page@ + ">)\n"@ + markdown_of(
        s.description@,
    ) + "\n### Excerpt\n"@ + markdown_of(s.extract_html@) + "\n\n"@ + spec_last_updated(
        s.timestamp@,
    ) + "\n"@
}

/// The rich embed rendering of a summary.
pub open spec fn spec_summary_embed(s: WikipediaPageSummary) -> EmbedModel {
    EmbedModel {
        title: s.title@,
        url: s.content_urls.desktop.page@,
        description: if spec_last_updated(s.timestamp@).len() > 0 {
            Option::Some(spec_last_updated(s.timestamp@))
        } else {
            Option::None
        },
        fields: seq![
            crate::response::EmbedFieldModel {
                name: "Description"@,
                value: markdown_of(s.description@),
            },
            crate::response::EmbedFieldModel {
                name: "Excerpt"@,
                value: markdown_of(s.extract_html@),
            },
        ],
        footer_text: "Powered by Wikipedia"@,
        thumbnail_url: match s.thumbnail {
            Option::Some(t) => if spec_valid_image_url(t.source@) {
                Option::Some(t.source@)
            } else {
                Option::None
            },
            Option::None => Option::None,
        },
    }
}

/// What a fetched summary becomes: plain text or a rich embed, never
/// ephemeral.
pub open spec fn spec_summary_response(s: WikipediaPageSummary, plaintext: bool) -> ResponseModel {
    if plaintext {
        ResponseModel::Message {
            content: Option::Some(spec_plain_content(s)),
            embeds: Seq::empty(),
            ephemeral: false,
        }
    } else {
        ResponseModel::Message {
            content: Option::None,
            embeds: seq![spec_summary_embed(s)],
            ephemeral: false,
        }
    }
}

fn last_updated_text(timestamp: &str) -> (r: String)
    ensures
        r@ == spec_last_updated(timestamp@),
{
    match parse_iso8601_unix(timestamp) {
        Option::Some(ts) => {
            let mut out = String::new();
            out.append("Last updated <t:");
            let d = i64_to_dec(ts);
            out.append(d.as_str());
            out.append(":F> (<t:");
            out.append(d.as_str());
            out.append(":R>)");
            proof {
                assert(out@ =~= spec_last_updated(timestamp@));
            }
            out
        },
        Option::None => String::new(),
    }
}

/// Shape a fetched summary, or the collaborator's failure reason, into the
/// command's response: a failure becomes an ephemeral message whose text is
/// exactly the reason, never an error.
pub fn execute_complete(fetched: Result<WikipediaPageSummary, String>, plaintext: bool) -> (r:
    InteractionResponse)
    ensures
        match fetched {
            Result::Ok(s) => r@ == spec_summary_response(s, plaintext),
            Result::Err(reason) => r@ == (ResponseModel::Message {
                content: Option::Some(reason@),
                embeds: Seq::empty(),
                ephemeral: true,
            }),
        },
{
    let s = match fetched {
        Result::Ok(s) => s,
        Result::Err(reason) => {
            return crate::commands::text_response(reason, true);
        },
    };
    let description = html_to_markdown(s.description.as_str());
    let excerpt = html_to_markdown(s.extract_html.as_str());
    let last_updated = last_updated_text(s.timestamp.as_str());
    if plaintext {
        let mut content = String::new();
        content.append("## [");
        content.append(s.title.as_str());
        content.append("](<");
        content.append(s.content_urls.desktop.page.as_str());
        content.append(">)\n");
        content.append(description.as_str());
        content.append("\n### Excerpt\n");
        content.append(excerpt.as_str());
        content.append("\n\n");
        content.append(last_updated.as_str());
        content.append("\n");
        proof {
            assert(content@ =~= spec_plain_content(s));
        }
        crate::commands::text_response(content, false)
    } else {
        let description_field = EmbedField { name: "Description".to_owned(), value: description };
        let excerpt_field = EmbedField { name: "Excerpt".to_owned(), value: excerpt };
        let mut fields: Vec<EmbedField> = Vec::new();
        fields.push(description_field);
        fields.push(excerpt_field);
        let thumbnail_url = match &s.thumbnail {
            Option::Some(t) => {
                if valid_image_url(t.source.as_str()) {
                    Some(t.source.clone())
                } else {
                    None
                }
            },
            Option::None => None,
        };
        let embed = Embed {
            title: s.title.clone(),
            url: s.content_urls.desktop.page.clone(),
            description: if last_updated.as_str().is_empty() {
                None
            } else {
                Some(last_updated)
            },
            fields,
            footer_text: "Powered by Wikipedia".to_owned(),
            thumbnail_url,
        };
        proof {
            assert(embed@.fields =~= spec_summary_embed(s).fields);
            assert(embed@ == spec_summary_embed(s));
        }
        let mut embeds: Vec<Embed> = Vec::new();
        embeds.push(embed);
        let r = crate::commands::embed_response(embeds, false);
        proof {
            assert(r@->Message_embeds =~= seq![spec_summary_embed(s)]);
        }
        r
    }
}

/// Shape fetched search result pages into the autocomplete choice list.
pub fn suggest_complete(pages: Vec<Page>) -> (r: InteractionResponse)
    ensures
        r@ == (ResponseModel::AutocompleteChoices {
            choices: pages@.map_values(|p: Page| spec_choice_of_page(p)),
        }),
{
    let mut choices: Vec<Choice> = Vec::new();
    let mut i: usize = 0;
    while i < pages.len()
        invariant
            0 <= i <= pages@.len(),
            choices@.len() == i,
            forall|k: int| 0 <= k < i ==> #[trigger] choices@[k]@ == spec_choice_of_page(pages@[k]),
        decreases pages@.len() - i,
    {
        choices.push(choice_of_page(&pages[i]));
        i = i + 1;
        proof {
            assert(choices@[i - 1]@ == spec_choice_of_page(pages@[i - 1]));
        }
    }
    let r = InteractionResponse::AutocompleteChoices { choices };
    proof {
        let lhs = choices@.map_values(|c: Choice| c@);
        let rhs = pages@.map_values(|p: Page| spec_choice_of_page(p));
        assert forall|k: int| 0 <= k < lhs.len() implies lhs[k] == rhs[k] by {
            assert(choices@[k]@ == spec_choice_of_page(pages@[k]));
        }
        assert(lhs =~= rhs);
    }
    r
}

} // verus!
