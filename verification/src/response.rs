//! Response shapes and their wire form: acknowledge-only, plain or ephemeral
//! text, rich embed, and autocomplete choice list, each serialized as JSON
//! text whose exact content the contracts state.
use vstd::prelude::*;
use vstd::string::StringExecFns;

use crate::jsontext::{push_quoted, quoted};
use crate::numfmt::dec_digits;
use crate::text::push_char;

verus! {

/// One autocomplete choice: what is shown, and the value sent back.
pub struct Choice {
    pub name: String,
    pub value: String,
}

pub struct ChoiceModel {
    pub name: Seq<char>,
    pub value: Seq<char>,
}

impl View for Choice {
    type V = ChoiceModel;

    open spec fn view(&self) -> ChoiceModel {
        ChoiceModel { name: self.name@, value: self.value@ }
    }
}

/// One named field of a rich embed.
pub struct EmbedField {
    pub name: String,
    pub value: String,
}

pub struct EmbedFieldModel {
    pub name: Seq<char>,
    pub value: Seq<char>,
}

impl View for EmbedField {
    type V = EmbedFieldModel;

    open spec fn view(&self) -> EmbedFieldModel {
        EmbedFieldModel { name: self.name@, value: self.value@ }
    }
}

/// A rich embed: linked title, optional description line, named fields,
/// attribution footer, optional thumbnail image.
pub struct Embed {
    pub title: String,
    pub url: String,
    pub description: Option<String>,
    pub fields: Vec<EmbedField>,
    pub footer_text: String,
    pub thumbnail_url: Option<String>,
}

pub struct EmbedModel {
    pub title: Seq<char>,
    pub url: Seq<char>,
    pub description: Option<Seq<char>>,
    pub fields: Seq<EmbedFieldModel>,
    pub footer_text: Seq<char>,
    pub thumbnail_url: Option<Seq<char>>,
}

impl View for Embed {
    type V = EmbedModel;

    open spec fn view(&self) -> EmbedModel {
        EmbedModel {
            title: self.title@,
            url: self.url@,
            description: match self.description {
                Option::Some(d) => Option::Some(d@),
                Option::None => Option::None,
            },
            fields: self.fields@.map_values(|f: EmbedField| f@),
            footer_text: self.footer_text@,
            thumbnail_url: match self.thumbnail_url {
                Option::Some(t) => Option::Some(t@),
                Option::None => Option::None,
            },
        }
    }
}

/// A response to an interaction: exactly one shape.
pub enum InteractionResponse {
    /// The acknowledge-only reply to a liveness ping.
    Pong,
    /// A message, as plain text or embeds, optionally ephemeral.
    Message { content: Option<String>, embeds: Vec<Embed>, ephemeral: bool },
    /// An autocomplete suggestion list.
    AutocompleteChoices { choices: Vec<Choice> },
}

pub enum ResponseModel {
    Pong,
    Message { content: Option<Seq<char>>, embeds: Seq<EmbedModel>, ephemeral: bool },
    AutocompleteChoices { choices: Seq<ChoiceModel> },
}

impl View for InteractionResponse {
    type V = ResponseModel;

    open spec fn view(&self) -> ResponseModel {
        match self {
            InteractionResponse::Pong => ResponseModel::Pong,
            InteractionResponse::Message { content, embeds, ephemeral } => ResponseModel::Message {
                content: match content {
                    Option::Some(c) => Option::Some(c@),
                    Option::None => Option::None,
                },
                embeds: embeds@.map_values(|e: Embed| e@),
                ephemeral: *ephemeral,
            },
            InteractionResponse::AutocompleteChoices { choices } => ResponseModel::AutocompleteChoices {
                choices: choices@.map_values(|c: Choice| c@),
            },
        }
    }
}

/// Texts joined by commas.
pub open spec fn join_comma(parts: Seq<Seq<char>>) -> Seq<char>
    decreases parts.len(),
{
    if parts.len() == 0 {
        Seq::empty()
    } else if parts.len() == 1 {
        parts[0]
    } else {
        join_comma(parts.drop_last()) + seq![','] + parts.last()
    }
}

/// A JSON object from its member texts.
pub open spec fn spec_obj(parts: Seq<Seq<char>>) -> Seq<char> {
    seq!['{'] + join_comma(parts) + seq!['}']
}

/// A JSON array from its element texts.
pub open spec fn spec_arr(parts: Seq<Seq<char>>) -> Seq<char> {
    seq!['['] + join_comma(parts) + seq![']']
}

/// One object member: quoted key, colon, value text.
pub open spec fn member(key: Seq<char>, val_text: Seq<char>) -> Seq<char> {
    quoted(key) + seq![':'] + val_text
}

pub open spec fn spec_choice(c: ChoiceModel) -> Seq<char> {
    spec_obj(seq![member("name"@, quoted(c.name)), member("value"@, quoted(c.value))])
}

pub open spec fn spec_embed_field(f: EmbedFieldModel) -> Seq<char> {
    spec_obj(seq![member("name"@, quoted(f.name)), member("value"@, quoted(f.value))])
}

pub open spec fn spec_embed(e: EmbedModel) -> Seq<char> {
    spec_obj(spec_embed_members(e))
}

pub open spec fn spec_embed_members(e: EmbedModel) -> Seq<Seq<char>> {
    let a = seq![member("title"@, quoted(e.title)), member("url"@, quoted(e.url))];
    let b = match e.description {
        Option::Some(d) => a.push(member("description"@, quoted(d))),
        Option::None => a,
    };
    let c = b.push(
        member("fields"@, spec_arr(e.fields.map_values(|f: EmbedFieldModel| spec_embed_field(f)))),
    );
    let d = c.push(member("footer"@, spec_obj(seq![member("text"@, quoted(e.footer_text))])));
    match e.thumbnail_url {
        Option::Some(t) => d.push(member("thumbnail"@, spec_obj(seq![member("url"@, quoted(t))]))),
        Option::None => d,
    }
}

pub open spec fn spec_message_members(
    content: Option<Seq<char>>,
    embeds: Seq<EmbedModel>,
    ephemeral: bool,
) -> Seq<Seq<char>> {
    let a = match content {
        Option::Some(t) => seq![member("content"@, quoted(t))],
        Option::None => Seq::empty(),
    };
    let b = if embeds.len() > 0 {
        a.push(member("embeds"@, spec_arr(embeds.map_values(|e: EmbedModel| spec_embed(e)))))
    } else {
        a
    };
    if ephemeral {
        b.push(member("flags"@, dec_digits(64)))
    } else {
        b
    }
}

/// The exact wire text of a response.
pub open spec fn spec_response_body(m: ResponseModel) -> Seq<char> {
    match m {
        ResponseModel::Pong => spec_obj(seq![member("type"@, dec_digits(1))]),
        ResponseModel::Message { content, embeds, ephemeral } => spec_obj(
            seq![
                member("type"@, dec_digits(4)),
                member("data"@, spec_obj(spec_message_members(content, embeds, ephemeral))),
            ],
        ),
        ResponseModel::AutocompleteChoices { choices } => spec_obj(
            seq![
                member("type"@, dec_digits(8)),
                member(
                    "data"@,
                    spec_obj(
                        seq![
                            member(
                                "choices"@,
                                spec_arr(choices.map_values(|c: ChoiceModel| spec_choice(c))),
                            ),
                        ],
                    ),
                ),
            ],
        ),
    }
}

pub(crate) fn quoted_text(s: &str) -> (r: String)
    ensures
        r@ == quoted(s@),
{
    let mut out = String::new();
    push_quoted(&mut out, s);
    proof {
        assert(out@ =~= quoted(s@));
    }
    out
}

pub(crate) fn member_text(key: &str, val: String) -> (r: String)
    ensures
        r@ == member(key@, val@),
{
    let mut out = String::new();
    push_quoted(&mut out, key);
    push_char(&mut out, ':');
    out.append(val.as_str());
    proof {
        assert(out@ =~= member(key@, val@));
    }
    out
}

pub(crate) fn join_texts(parts: &Vec<String>) -> (r: String)
    ensures
        r@ == join_comma(parts@.map_values(|s: String| s@)),
{
    let ghost ps = parts@.map_values(|s: String| s@);
    let mut out = String::new();
    let mut i: usize = 0;
    while i < parts.len()
        invariant
            0 <= i <= parts@.len(),
            ps == parts@.map_values(|s: String| s@),
            out@ == join_comma(ps.subrange(0, i as int)),
        decreases parts@.len() - i,
    {
        if i > 0 {
            push_char(&mut out, ',');
        }
        out.append(parts[i].as_str());
        i = i + 1;
        proof {
            let p = ps.subrange(0, i as int);
            assert(p.drop_last() =~= ps.subrange(0, i as int - 1));
            if i == 1 {
                assert(out@ =~= join_comma(p));
            } else {
                assert(out@ =~= join_comma(p));
            }
        }
    }
    proof {
        assert(ps.subrange(0, ps.len() as int) =~= ps);
    }
    out
}

pub(crate) fn obj_text(parts: &Vec<String>) -> (r: String)
    ensures
        r@ == spec_obj(parts@.map_values(|s: String| s@)),
{
    let mut out = String::new();
    push_char(&mut out, '{');
    let inner = join_texts(parts);
    out.append(inner.as_str());
    push_char(&mut out, '}');
    proof {
        assert(out@ =~= spec_obj(parts@.map_values(|s: String| s@)));
    }
    out
}

pub(crate) fn arr_text(parts: &Vec<String>) -> (r: String)
    ensures
        r@ == spec_arr(parts@.map_values(|s: String| s@)),
{
    let mut out = String::new();
    push_char(&mut out, '[');
    let inner = join_texts(parts);
    out.append(inner.as_str());
    push_char(&mut out, ']');
    proof {
        assert(out@ =~= spec_arr(parts@.map_values(|s: String| s@)));
    }
    out
}

fn choice_text(c: &Choice) -> (r: String)
    ensures
        r@ == spec_choice(c@),
{
    let mut parts: Vec<String> = Vec::new();
    parts.push(member_text("name", quoted_text(c.name.as_str())));
    parts.push(member_text("value", quoted_text(c.value.as_str())));
    let r = obj_text(&parts);
    proof {
        assert(parts@.map_values(|s: String| s@) =~= seq![
            member("name"@, quoted(c@.name)),
            member("value"@, quoted(c@.value)),
        ]);
    }
    r
}

fn embed_field_text(f: &EmbedField) -> (r: String)
    ensures
        r@ == spec_embed_field(f@),
{
    let mut parts: Vec<String> = Vec::new();
    parts.push(member_text("name", quoted_text(f.name.as_str())));
    parts.push(member_text("value", quoted_text(f.value.as_str())));
    let r = obj_text(&parts);
    proof {
        assert(parts@.map_values(|s: String| s@) =~= seq![
            member("name"@, quoted(f@.name)),
            member("value"@, quoted(f@.value)),
        ]);
    }
    r
}

fn embed_text(e: &Embed) -> (r: String)
    ensures
        r@ == spec_embed(e@),
{
    let mut parts: Vec<String> = Vec::new();
    parts.push(member_text("title", quoted_text(e.title.as_str())));
    parts.push(member_text("url", quoted_text(e.url.as_str())));
    match &e.description {
        Option::Some(d) => {
            parts.push(member_text("description", quoted_text(d.as_str())));
        },
        Option::None => {},
    }
    let mut field_parts: Vec<String> = Vec::new();
    let mut i: usize = 0;
    while i < e.fields.len()
        invariant
            0 <= i <= e.fields@.len(),
            field_parts@.len() == i,
            forall|k: int|
                0 <= k < i ==> #[trigger] field_parts@[k]@ == spec_embed_field(e.fields@[k]@),
        decreases e.fields@.len() - i,
    {
        field_parts.push(embed_field_text(&e.fields[i]));
        i = i + 1;
        proof {
            assert(field_parts@[i - 1]@ == spec_embed_field(e.fields@[i - 1]@));
        }
    }
    proof {
        let vm = e.fields@.map_values(|f: EmbedField| f@);
        let whole = vm.map_values(|f: EmbedFieldModel| spec_embed_field(f));
        assert forall|k: int| 0 <= k < whole.len() implies field_parts@.map_values(
            |s: String| s@,
        )[k] == whole[k] by {
            assert(vm[k] == e.fields@[k]@);
            assert(whole[k] == spec_embed_field(vm[k]));
            assert(field_parts@[k]@ == spec_embed_field(e.fields@[k]@));
        }
        assert(field_parts@.map_values(|s: String| s@) =~= whole);
    }
    parts.push(member_text("fields", arr_text(&field_parts)));
    let mut footer_parts: Vec<String> = Vec::new();
    footer_parts.push(member_text("text", quoted_text(e.footer_text.as_str())));
    proof {
        assert(footer_parts@.map_values(|s: String| s@) =~= seq![
            member("text"@, quoted(e@.footer_text)),
        ]);
    }
    parts.push(member_text("footer", obj_text(&footer_parts)));
    match &e.thumbnail_url {
        Option::Some(t) => {
            let mut thumb_parts: Vec<String> = Vec::new();
            thumb_parts.push(member_text("url", quoted_text(t.as_str())));
            proof {
                assert(thumb_parts@.map_values(|s: String| s@) =~= seq![
                    member("url"@, quoted(e@.thumbnail_url->0)),
                ]);
            }
            parts.push(member_text("thumbnail", obj_text(&thumb_parts)));
        },
        Option::None => {},
    }
    let r = obj_text(&parts);
    proof {
        assert(parts@.map_values(|s: String| s@) =~= spec_embed_members(e@));
    }
    r
}

/// The wire text of a response: exactly `spec_response_body` of its model.
#[verifier::rlimit(80)]
pub fn response_body(resp: &InteractionResponse) -> (r: String)
    ensures
        r@ == spec_response_body(resp@),
{
    match resp {
        InteractionResponse::Pong => {
            let mut parts: Vec<String> = Vec::new();
            parts.push(member_text("type", crate::numfmt::u64_to_dec(1)));
            let r = obj_text(&parts);
            proof {
                assert(parts@.map_values(|s: String| s@) =~= seq![member("type"@, dec_digits(1))]);
            }
            r
        },
        InteractionResponse::Message { content, embeds, ephemeral } => {
            let mut data_parts: Vec<String> = Vec::new();
            match content {
                Option::Some(t) => {
                    data_parts.push(member_text("content", quoted_text(t.as_str())));
                },
                Option::None => {},
            }
            if embeds.len() > 0 {
                let mut embed_parts: Vec<String> = Vec::new();
                let mut i: usize = 0;
                while i < embeds.len()
                    invariant
                        0 <= i <= embeds@.len(),
                        embed_parts@.len() == i,
                        forall|k: int|
                            0 <= k < i ==> #[trigger] embed_parts@[k]@ == spec_embed(
                                embeds@[k]@,
                            ),
                    decreases embeds@.len() - i,
                {
                    embed_parts.push(embed_text(&embeds[i]));
                    i = i + 1;
                    proof {
                        assert(embed_parts@[i - 1]@ == spec_embed(embeds@[i - 1]@));
                    }
                }
                proof {
                    let vm = embeds@.map_values(|e: Embed| e@);
                    let whole = vm.map_values(|e: EmbedModel| spec_embed(e));
                    assert forall|k: int| 0 <= k < whole.len() implies embed_parts@.map_values(
                        |s: String| s@,
                    )[k] == whole[k] by {
                        assert(vm[k] == embeds@[k]@);
                        assert(whole[k] == spec_embed(vm[k]));
                        assert(embed_parts@[k]@ == spec_embed(embeds@[k]@));
                    }
                    assert(embed_parts@.map_values(|s: String| s@) =~= whole);
                }
                data_parts.push(member_text("embeds", arr_text(&embed_parts)));
            }
            if *ephemeral {
                data_parts.push(member_text("flags", crate::numfmt::u64_to_dec(64)));
            }
            proof {
                let m = resp@;
                assert(data_parts@.map_values(|s: String| s@) =~= spec_message_members(
                    m->Message_content,
                    m->Message_embeds,
                    m->Message_ephemeral,
                ));
            }
            let mut parts: Vec<String> = Vec::new();
            parts.push(member_text("type", crate::numfmt::u64_to_dec(4)));
            parts.push(member_text("data", obj_text(&data_parts)));
            let r = obj_text(&parts);
            proof {
                let m = resp@;
                assert(parts@.map_values(|s: String| s@) =~= seq![
                    member("type"@, dec_digits(4)),
                    member(
                        "data"@,
                        spec_obj(
                            spec_message_members(
                                m->Message_content,
                                m->Message_embeds,
                                m->Message_ephemeral,
                            ),
                        ),
                    ),
                ]);
            }
            r
        },
        InteractionResponse::AutocompleteChoices { choices } => {
            let mut choice_parts: Vec<String> = Vec::new();
            let mut i: usize = 0;
            while i < choices.len()
                invariant
                    0 <= i <= choices@.len(),
                    choice_parts@.len() == i,
                    forall|k: int|
                        0 <= k < i ==> #[trigger] choice_parts@[k]@ == spec_choice(choices@[k]@),
                decreases choices@.len() - i,
            {
                choice_parts.push(choice_text(&choices[i]));
                i = i + 1;
                proof {
                    assert(choice_parts@[i - 1]@ == spec_choice(choices@[i - 1]@));
                }
            }
            proof {
                let vm = choices@.map_values(|c: Choice| c@);
                let whole = vm.map_values(|c: ChoiceModel| spec_choice(c));
                assert forall|k: int| 0 <= k < whole.len() implies choice_parts@.map_values(
                    |s: String| s@,
                )[k] == whole[k] by {
                    assert(vm[k] == choices@[k]@);
                    assert(whole[k] == spec_choice(vm[k]));
                    assert(choice_parts@[k]@ == spec_choice(choices@[k]@));
                }
                assert(choice_parts@.map_values(|s: String| s@) =~= whole);
            }
            let mut data_parts: Vec<String> = Vec::new();
            data_parts.push(member_text("choices", arr_text(&choice_parts)));
            let mut parts: Vec<String> = Vec::new();
            parts.push(member_text("type", crate::numfmt::u64_to_dec(8)));
            parts.push(member_text("data", obj_text(&data_parts)));
            let r = obj_text(&parts);
            proof {
                let m = resp@;
                assert(data_parts@.map_values(|s: String| s@) =~= seq![
                    member(
                        "choices"@,
                        spec_arr(
                            m->AutocompleteChoices_choices.map_values(
                                |c: ChoiceModel| spec_choice(c),
                            ),
                        ),
                    ),
                ]);
                assert(parts@.map_values(|s: String| s@) =~= seq![
                    member("type"@, dec_digits(8)),
                    member(
                        "data"@,
                        spec_obj(
                            seq![
                                member(
                                    "choices"@,
                                    spec_arr(
                                        m->AutocompleteChoices_choices.map_values(
                                            |c: ChoiceModel| spec_choice(c),
                                        ),
                                    ),
                                ),
                            ],
                        ),
                    ),
                ]);
            }
            r
        },
    }
}

} // verus!
