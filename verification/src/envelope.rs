//! The interaction envelope: the typed form of an inbound event, its raw
//! parsed form, and the reading of one from the other.
use vstd::prelude::*;

use crate::jsontext::quoted;
use crate::numfmt::dec_digits;
use crate::response::{arr_text, member, member_text, obj_text, quoted_text, spec_arr, spec_obj};
use crate::text::str_eq;

verus! {

/// Why a request body was rejected by the decoder.
#[derive(Clone, Copy, Debug, PartialEq, Eq, Structural)]
pub enum DecodeError {
    /// A required field is missing, has the wrong type, appears twice,
    /// carries an empty command name, or repeats an option name.
    Malformed,
}

/// The value of one command option.
pub enum OptionValue {
    /// A plain string option.
    Text(String),
    /// A boolean option.
    Flag(bool),
    /// The string option the user is currently typing, for autocomplete.
    Focused(String),
}

/// The mathematical form of an option value.
pub enum OptionValueModel {
    Text(Seq<char>),
    Flag(bool),
    Focused(Seq<char>),
}

impl View for OptionValue {
    type V = OptionValueModel;

    open spec fn view(&self) -> OptionValueModel {
        match self {
            OptionValue::Text(s) => OptionValueModel::Text(s@),
            OptionValue::Flag(b) => OptionValueModel::Flag(*b),
            OptionValue::Focused(s) => OptionValueModel::Focused(s@),
        }
    }
}

/// One named option of a command invocation.
pub struct CommandOption {
    pub name: String,
    pub value: OptionValue,
}

/// The mathematical form of one option.
pub struct OptionModel {
    pub name: Seq<char>,
    pub value: OptionValueModel,
}

impl View for CommandOption {
    type V = OptionModel;

    open spec fn view(&self) -> OptionModel {
        OptionModel { name: self.name@, value: self.value@ }
    }
}

/// A command invocation: its name and its ordered options.
pub struct CommandInvocation {
    pub name: String,
    pub options: Vec<CommandOption>,
}

/// The mathematical form of an invocation.
pub struct InvocationModel {
    pub name: Seq<char>,
    pub options: Seq<OptionModel>,
}

impl View for CommandInvocation {
    type V = InvocationModel;

    open spec fn view(&self) -> InvocationModel {
        InvocationModel {
            name: self.name@,
            options: self.options@.map_values(|o: CommandOption| o@),
        }
    }
}

/// A decoded interaction envelope.
pub enum InteractionEnvelope {
    /// The platform's liveness check.
    Ping,
    /// A slash-command invocation.
    Command(CommandInvocation),
    /// An autocomplete request for a command option being typed.
    Autocomplete(CommandInvocation),
    /// An envelope whose kind is outside the known set; carries the kind number.
    Other(u64),
}

/// The mathematical form of an envelope.
pub enum EnvelopeModel {
    Ping,
    Command(InvocationModel),
    Autocomplete(InvocationModel),
    Other(u64),
}

impl View for InteractionEnvelope {
    type V = EnvelopeModel;

    open spec fn view(&self) -> EnvelopeModel {
        match self {
            InteractionEnvelope::Ping => EnvelopeModel::Ping,
            InteractionEnvelope::Command(inv) => EnvelopeModel::Command(inv@),
            InteractionEnvelope::Autocomplete(inv) => EnvelopeModel::Autocomplete(inv@),
            InteractionEnvelope::Other(k) => EnvelopeModel::Other(*k),
        }
    }
}

/// The value of one option as the parser found it, before its shape is checked.
pub enum RawValue {
    /// A JSON string.
    RText(String),
    /// A JSON true or false.
    RFlag(bool),
    /// No value field was present.
    RMissing,
    /// A value field of some other JSON type.
    ROther,
}

/// One member of the options array as parsed, fields still optional.
pub struct RawOption {
    pub name: Option<String>,
    pub focused: Option<bool>,
    pub value: RawValue,
}

/// The data object as parsed.
pub struct RawData {
    pub name: Option<String>,
    pub options: Option<Vec<RawOption>>,
}

/// The envelope as parsed: the fields this system reads, shape unchecked.
pub struct RawEnvelope {
    pub kind: Option<u64>,
    pub data: Option<RawData>,
}

/// The interaction kind numbers this system knows.
pub const KIND_PING: u64 = 1;

pub const KIND_COMMAND: u64 = 2;

pub const KIND_AUTOCOMPLETE: u64 = 4;

/// What reading one raw option yields: a checked option, or the reason it is
/// malformed (missing name, missing value, a value of an unknown type, or a
/// focused marker on a non-string value).
pub open spec fn spec_read_option(o: RawOption) -> Result<OptionModel, DecodeError> {
    match o.name {
        Option::None => Result::Err(DecodeError::Malformed),
        Option::Some(n) => {
            let focused = o.focused matches Option::Some(true);
            match o.value {
                RawValue::RText(s) => Result::Ok(
                    OptionModel {
                        name: n@,
                        value: if focused {
                            OptionValueModel::Focused(s@)
                        } else {
                            OptionValueModel::Text(s@)
                        },
                    },
                ),
                RawValue::RFlag(b) => if focused {
                    Result::Err(DecodeError::Malformed)
                } else {
                    Result::Ok(OptionModel { name: n@, value: OptionValueModel::Flag(b) })
                },
                RawValue::RMissing => Result::Err(DecodeError::Malformed),
                RawValue::ROther => Result::Err(DecodeError::Malformed),
            }
        },
    }
}

/// Reading every raw option in order; the first malformed one decides.
pub open spec fn spec_read_options(opts: Seq<RawOption>) -> Result<Seq<OptionModel>, DecodeError>
    decreases opts.len(),
{
    if opts.len() == 0 {
        Result::Ok(Seq::empty())
    } else {
        match spec_read_options(opts.drop_last()) {
            Result::Ok(s) => match spec_read_option(opts.last()) {
                Result::Ok(o) => Result::Ok(s.push(o)),
                Result::Err(e) => Result::Err(e),
            },
            Result::Err(e) => Result::Err(e),
        }
    }
}

/// Option names are pairwise distinct.
pub open spec fn unique_names(opts: Seq<OptionModel>) -> bool {
    forall|i: int, j: int| 0 <= i < j < opts.len() ==> opts[i].name != opts[j].name
}

/// A well-formed invocation: a non-empty command name and unique option names.
pub open spec fn wf_invocation(m: InvocationModel) -> bool {
    m.name.len() > 0 && unique_names(m.options)
}

/// A well-formed envelope: command-bearing kinds carry a well-formed
/// invocation, and an Other kind lies outside the known set.
pub open spec fn wf_envelope(m: EnvelopeModel) -> bool {
    match m {
        EnvelopeModel::Ping => true,
        EnvelopeModel::Command(inv) => wf_invocation(inv),
        EnvelopeModel::Autocomplete(inv) => wf_invocation(inv),
        EnvelopeModel::Other(k) => k != KIND_PING && k != KIND_COMMAND && k != KIND_AUTOCOMPLETE,
    }
}

/// What reading a raw envelope yields. Kind 1 is Ping; kinds 2 and 4 must
/// carry a data object with a non-empty name and well-shaped, uniquely named
/// options; every other kind passes through as Other.
pub open spec fn spec_envelope_of_raw(raw: RawEnvelope) -> Result<EnvelopeModel, DecodeError> {
    match raw.kind {
        Option::None => Result::Err(DecodeError::Malformed),
        Option::Some(k) => {
            if k == KIND_PING {
                Result::Ok(EnvelopeModel::Ping)
            } else if k == KIND_COMMAND || k == KIND_AUTOCOMPLETE {
                match raw.data {
                    Option::None => Result::Err(DecodeError::Malformed),
                    Option::Some(d) => match d.name {
                        Option::None => Result::Err(DecodeError::Malformed),
                        Option::Some(n) => {
                            if n@.len() == 0 {
                                Result::Err(DecodeError::Malformed)
                            } else {
                                let opts = match d.options {
                                    Option::Some(v) => v@,
                                    Option::None => Seq::empty(),
                                };
                                match spec_read_options(opts) {
                                    Result::Ok(os) => {
                                        if unique_names(os) {
                                            let inv = InvocationModel { name: n@, options: os };
                                            if k == KIND_COMMAND {
                                                Result::Ok(EnvelopeModel::Command(inv))
                                            } else {
                                                Result::Ok(EnvelopeModel::Autocomplete(inv))
                                            }
                                        } else {
                                            Result::Err(DecodeError::Malformed)
                                        }
                                    },
                                    Result::Err(e) => Result::Err(e),
                                }
                            }
                        },
                    },
                }
            } else {
                Result::Ok(EnvelopeModel::Other(k))
            }
        },
    }
}

fn read_option(o: &RawOption) -> (r: Result<CommandOption, DecodeError>)
    ensures
        match spec_read_option(*o) {
            Result::Ok(m) => r matches Result::Ok(c) && c@ == m,
            Result::Err(er) => r matches Result::Err(e2) && e2 == er,
        },
{
    let name = match &o.name {
        Option::Some(n) => n.clone(),
        Option::None => {
            return Result::Err(DecodeError::Malformed);
        },
    };
    let focused = match o.focused {
        Option::Some(b) => b,
        Option::None => false,
    };
    match &o.value {
        RawValue::RText(s) => {
            if focused {
                Result::Ok(CommandOption { name, value: OptionValue::Focused(s.clone()) })
            } else {
                Result::Ok(CommandOption { name, value: OptionValue::Text(s.clone()) })
            }
        },
        RawValue::RFlag(b) => {
            if focused {
                Result::Err(DecodeError::Malformed)
            } else {
                Result::Ok(CommandOption { name, value: OptionValue::Flag(*b) })
            }
        },
        RawValue::RMissing => Result::Err(DecodeError::Malformed),
        RawValue::ROther => Result::Err(DecodeError::Malformed),
    }
}

fn read_options(opts: &Vec<RawOption>) -> (r: Result<Vec<CommandOption>, DecodeError>)
    ensures
        match spec_read_options(opts@) {
            Result::Ok(ms) => r matches Result::Ok(cs) && cs@.map_values(
                |c: CommandOption| c@,
            ) == ms,
            Result::Err(er) => r matches Result::Err(e2) && e2 == er,
        },
{
    let mut out: Vec<CommandOption> = Vec::new();
    let mut i: usize = 0;
    proof {
        assert(out@.map_values(|c: CommandOption| c@) =~= Seq::<OptionModel>::empty());
        assert(opts@.subrange(0, 0) =~= Seq::<RawOption>::empty());
    }
    while i < opts.len()
        invariant
            0 <= i <= opts@.len(),
            spec_read_options(opts@.subrange(0, i as int)) == Result::<
                Seq<OptionModel>,
                DecodeError,
            >::Ok(out@.map_values(|c: CommandOption| c@)),
        decreases opts@.len() - i,
    {
        let ghost prev = out@.map_values(|c: CommandOption| c@);
        let c = match read_option(&opts[i]) {
            Result::Ok(c) => c,
            Result::Err(e) => {
                proof {
                    lemma_read_options_err(opts@, i as int, e);
                }
                return Result::Err(e);
            },
        };
        out.push(c);
        i = i + 1;
        proof {
            let p = opts@.subrange(0, i as int);
            assert(p.drop_last() =~= opts@.subrange(0, i as int - 1));
            assert(out@.map_values(|c2: CommandOption| c2@) =~= prev.push(c@));
        }
    }
    proof {
        assert(opts@.subrange(0, opts@.len() as int) =~= opts@);
    }
    Result::Ok(out)
}

/// If a prefix reads cleanly and the next option is malformed, the whole
/// sequence is malformed with that same error.
proof fn lemma_read_options_err(opts: Seq<RawOption>, i: int, e: DecodeError)
    requires
        0 <= i < opts.len(),
        spec_read_options(opts.subrange(0, i)) is Ok,
        spec_read_option(opts[i]) == Result::<OptionModel, DecodeError>::Err(e),
    ensures
        spec_read_options(opts) == Result::<Seq<OptionModel>, DecodeError>::Err(e),
    decreases opts.len(),
{
    if opts.len() == i + 1 {
        assert(opts.drop_last() =~= opts.subrange(0, i));
        assert(opts.last() == opts[i]);
    } else {
        assert(opts.drop_last().subrange(0, i) =~= opts.subrange(0, i));
        assert(opts.drop_last()[i] == opts[i]);
        lemma_read_options_err(opts.drop_last(), i, e);
    }
}

fn options_unique(opts: &Vec<CommandOption>) -> (r: bool)
    ensures
        r == unique_names(opts@.map_values(|c: CommandOption| c@)),
{
    let ghost ms = opts@.map_values(|c: CommandOption| c@);
    let mut i: usize = 0;
    while i < opts.len()
        invariant
            0 <= i <= opts@.len(),
            ms == opts@.map_values(|c: CommandOption| c@),
            forall|a: int, b: int| 0 <= a < b < opts@.len() && a < i ==> ms[a].name != ms[b].name,
        decreases opts@.len() - i,
    {
        let mut j: usize = i + 1;
        while j < opts.len()
            invariant
                0 <= i < j <= opts@.len(),
                ms == opts@.map_values(|c: CommandOption| c@),
                forall|b: int| i < b < j ==> ms[i as int].name != ms[b].name,
            decreases opts@.len() - j,
        {
            if str_eq(opts[i].name.as_str(), opts[j].name.as_str()) {
                proof {
                    assert(ms[i as int].name == ms[j as int].name);
                    assert(!unique_names(ms));
                }
                return false;
            }
            j = j + 1;
        }
        i = i + 1;
    }
    true
}

/// Read a parsed raw envelope into a typed envelope; exactly the malformed
/// shapes that `spec_envelope_of_raw` names are rejected.
pub fn envelope_of_raw(raw: RawEnvelope) -> (r: Result<InteractionEnvelope, DecodeError>)
    ensures
        match spec_envelope_of_raw(raw) {
            Result::Ok(m) => r matches Result::Ok(e) && e@ == m,
            Result::Err(er) => r matches Result::Err(e2) && e2 == er,
        },
{
    let k = match raw.kind {
        Option::Some(k) => k,
        Option::None => {
            return Result::Err(DecodeError::Malformed);
        },
    };
    if k == KIND_PING {
        return Result::Ok(InteractionEnvelope::Ping);
    }
    if k != KIND_COMMAND && k != KIND_AUTOCOMPLETE {
        return Result::Ok(InteractionEnvelope::Other(k));
    }
    let data = match raw.data {
        Option::Some(d) => d,
        Option::None => {
            return Result::Err(DecodeError::Malformed);
        },
    };
    let name = match data.name {
        Option::Some(n) => n,
        Option::None => {
            return Result::Err(DecodeError::Malformed);
        },
    };
    if name.as_str().is_empty() {
        return Result::Err(DecodeError::Malformed);
    }
    let raw_opts = match data.options {
        Option::Some(v) => v,
        Option::None => Vec::new(),
    };
    proof {
        if raw.data->0.options is None {
            assert(raw_opts@ =~= Seq::<RawOption>::empty());
        }
    }
    let options = match read_options(&raw_opts) {
        Result::Ok(v) => v,
        Result::Err(e) => {
            return Result::Err(e);
        },
    };
    if !options_unique(&options) {
        return Result::Err(DecodeError::Malformed);
    }
    let inv = CommandInvocation { name, options };
    if k == KIND_COMMAND {
        Result::Ok(InteractionEnvelope::Command(inv))
    } else {
        Result::Ok(InteractionEnvelope::Autocomplete(inv))
    }
}

/// A raw option carries exactly the fields of a checked option.
pub open spec fn raw_opt_represents(ro: RawOption, om: OptionModel) -> bool {
    &&& ro.name matches Option::Some(n) && n@ == om.name
    &&& match om.value {
        OptionValueModel::Text(s) => {
            &&& ro.focused is None || ro.focused == Option::Some(false)
            &&& ro.value matches RawValue::RText(t) && t@ == s
        },
        OptionValueModel::Flag(b) => {
            &&& ro.focused is None || ro.focused == Option::Some(false)
            &&& ro.value matches RawValue::RFlag(c) && c == b
        },
        OptionValueModel::Focused(s) => {
            &&& ro.focused == Option::Some(true)
            &&& ro.value matches RawValue::RText(t) && t@ == s
        },
    }
}

/// A raw data object carries exactly the fields of an invocation.
pub open spec fn raw_data_represents(rd: RawData, m: InvocationModel) -> bool {
    &&& rd.name matches Option::Some(n) && n@ == m.name
    &&& match rd.options {
        Option::Some(v) => v@.len() == m.options.len() && forall|i: int|
            0 <= i < m.options.len() ==> raw_opt_represents(v@[i], m.options[i]),
        Option::None => m.options.len() == 0,
    }
}

/// A raw envelope carries exactly the fields of an envelope model.
pub open spec fn raw_represents(raw: RawEnvelope, m: EnvelopeModel) -> bool {
    match m {
        EnvelopeModel::Ping => raw.kind == Option::Some(KIND_PING),
        EnvelopeModel::Command(inv) => {
            &&& raw.kind == Option::Some(KIND_COMMAND)
            &&& raw.data matches Option::Some(d) && raw_data_represents(d, inv)
        },
        EnvelopeModel::Autocomplete(inv) => {
            &&& raw.kind == Option::Some(KIND_AUTOCOMPLETE)
            &&& raw.data matches Option::Some(d) && raw_data_represents(d, inv)
        },
        EnvelopeModel::Other(k) => raw.kind == Option::Some(k) && k != KIND_PING && k
            != KIND_COMMAND && k != KIND_AUTOCOMPLETE,
    }
}

proof fn lemma_read_options_represents(ros: Seq<RawOption>, oms: Seq<OptionModel>)
    requires
        ros.len() == oms.len(),
        forall|i: int| 0 <= i < ros.len() ==> raw_opt_represents(ros[i], oms[i]),
    ensures
        spec_read_options(ros) == Result::<Seq<OptionModel>, DecodeError>::Ok(oms),
    decreases ros.len(),
{
    if ros.len() == 0 {
        assert(oms =~= Seq::<OptionModel>::empty());
    } else {
        lemma_read_options_represents(ros.drop_last(), oms.drop_last());
        assert(raw_opt_represents(ros.last(), oms.last()));
        assert(spec_read_option(ros.last()) == Result::<OptionModel, DecodeError>::Ok(oms.last()));
        assert(oms.drop_last().push(oms.last()) =~= oms);
    }
}

/// The round trip through the raw form is lossless: a raw envelope that
/// carries exactly the fields of a well-formed envelope reads back to that
/// very envelope — kind, command name, and option name/value pairs all kept.
pub proof fn lemma_raw_roundtrip(raw: RawEnvelope, m: EnvelopeModel)
    requires
        wf_envelope(m),
        raw_represents(raw, m),
    ensures
        spec_envelope_of_raw(raw) == Result::<EnvelopeModel, DecodeError>::Ok(m),
{
    match m {
        EnvelopeModel::Ping => {},
        EnvelopeModel::Command(inv) => {
            let d = raw.data->0;
            match d.options {
                Option::Some(v) => {
                    lemma_read_options_represents(v@, inv.options);
                },
                Option::None => {
                    assert(inv.options =~= Seq::<OptionModel>::empty());
                    lemma_read_options_represents(Seq::empty(), inv.options);
                },
            }
        },
        EnvelopeModel::Autocomplete(inv) => {
            let d = raw.data->0;
            match d.options {
                Option::Some(v) => {
                    lemma_read_options_represents(v@, inv.options);
                },
                Option::None => {
                    assert(inv.options =~= Seq::<OptionModel>::empty());
                    lemma_read_options_represents(Seq::empty(), inv.options);
                },
            }
        },
        EnvelopeModel::Other(k) => {},
    }
}

/// Turn an envelope back into its raw form, losing nothing that the decoder
/// reads; for a well-formed envelope the result reads back to the same value.
pub fn raw_of_envelope(e: &InteractionEnvelope) -> (raw: RawEnvelope)
    ensures
        wf_envelope(e@) ==> raw_represents(raw, e@) && spec_envelope_of_raw(raw) == Result::<
            EnvelopeModel,
            DecodeError,
        >::Ok(e@),
{
    let raw = match e {
        InteractionEnvelope::Ping => RawEnvelope { kind: Option::Some(KIND_PING), data: Option::None },
        InteractionEnvelope::Command(inv) => RawEnvelope {
            kind: Option::Some(KIND_COMMAND),
            data: Option::Some(raw_of_invocation(inv)),
        },
        InteractionEnvelope::Autocomplete(inv) => RawEnvelope {
            kind: Option::Some(KIND_AUTOCOMPLETE),
            data: Option::Some(raw_of_invocation(inv)),
        },
        InteractionEnvelope::Other(k) => RawEnvelope { kind: Option::Some(*k), data: Option::None },
    };
    proof {
        if wf_envelope(e@) {
            lemma_raw_roundtrip(raw, e@);
        }
    }
    raw
}

fn raw_of_invocation(inv: &CommandInvocation) -> (rd: RawData)
    ensures
        raw_data_represents(rd, inv@),
{
    let mut ros: Vec<RawOption> = Vec::new();
    let ghost oms = inv@.options;
    let mut i: usize = 0;
    while i < inv.options.len()
        invariant
            0 <= i <= inv.options@.len(),
            oms == inv@.options,
            oms.len() == inv.options@.len(),
            ros@.len() == i,
            forall|j: int| 0 <= j < i ==> raw_opt_represents(ros@[j], oms[j]),
        decreases inv.options@.len() - i,
    {
        let o = &inv.options[i];
        let ro = match &o.value {
            OptionValue::Text(s) => RawOption {
                name: Option::Some(o.name.clone()),
                focused: Option::None,
                value: RawValue::RText(s.clone()),
            },
            OptionValue::Flag(b) => RawOption {
                name: Option::Some(o.name.clone()),
                focused: Option::None,
                value: RawValue::RFlag(*b),
            },
            OptionValue::Focused(s) => RawOption {
                name: Option::Some(o.name.clone()),
                focused: Option::Some(true),
                value: RawValue::RText(s.clone()),
            },
        };
        proof {
            assert(raw_opt_represents(ro, oms[i as int]));
        }
        ros.push(ro);
        i = i + 1;
    }
    RawData { name: Option::Some(inv.name.clone()), options: Option::Some(ros) }
}

/// The canonical wire text of one option: name, the platform's type number
/// (3 for strings, 5 for booleans), the value, and the focused marker where
/// it applies.
pub open spec fn spec_encode_option(o: OptionModel) -> Seq<char> {
    match o.value {
        OptionValueModel::Text(s) => spec_obj(
            seq![
                member("name"@, quoted(o.name)),
                member("type"@, dec_digits(3)),
                member("value"@, quoted(s)),
            ],
        ),
        OptionValueModel::Flag(b) => spec_obj(
            seq![
                member("name"@, quoted(o.name)),
                member("type"@, dec_digits(5)),
                member(
                    "value"@,
                    if b {
                        "true"@
                    } else {
                        "false"@
                    },
                ),
            ],
        ),
        OptionValueModel::Focused(s) => spec_obj(
            seq![
                member("name"@, quoted(o.name)),
                member("type"@, dec_digits(3)),
                member("value"@, quoted(s)),
                member("focused"@, "true"@),
            ],
        ),
    }
}

/// The canonical wire text of an envelope: its kind number, and for
/// command-bearing kinds the data object with name and options.
pub open spec fn spec_encode_envelope(m: EnvelopeModel) -> Seq<char> {
    match m {
        EnvelopeModel::Ping => spec_obj(seq![member("type"@, dec_digits(KIND_PING as nat))]),
        EnvelopeModel::Command(inv) => spec_obj(
            seq![
                member("type"@, dec_digits(KIND_COMMAND as nat)),
                member("data"@, spec_encode_data(inv)),
            ],
        ),
        EnvelopeModel::Autocomplete(inv) => spec_obj(
            seq![
                member("type"@, dec_digits(KIND_AUTOCOMPLETE as nat)),
                member("data"@, spec_encode_data(inv)),
            ],
        ),
        EnvelopeModel::Other(k) => spec_obj(seq![member("type"@, dec_digits(k as nat))]),
    }
}

pub open spec fn spec_encode_data(inv: InvocationModel) -> Seq<char> {
    spec_obj(
        seq![
            member("name"@, quoted(inv.name)),
            member(
                "options"@,
                spec_arr(inv.options.map_values(|o: OptionModel| spec_encode_option(o))),
            ),
        ],
    )
}

fn encode_option(o: &CommandOption) -> (r: String)
    ensures
        r@ == spec_encode_option(o@),
{
    let mut parts: Vec<String> = Vec::new();
    parts.push(member_text("name", quoted_text(o.name.as_str())));
    match &o.value {
        OptionValue::Text(s) => {
            parts.push(member_text("type", crate::numfmt::u64_to_dec(3)));
            parts.push(member_text("value", quoted_text(s.as_str())));
            let r = obj_text(&parts);
            proof {
                assert(parts@.map_values(|p: String| p@) =~= seq![
                    member("name"@, quoted(o@.name)),
                    member("type"@, dec_digits(3)),
                    member("value"@, quoted(o@.value->Text_0)),
                ]);
            }
            r
        },
        OptionValue::Flag(b) => {
            parts.push(member_text("type", crate::numfmt::u64_to_dec(5)));
            if *b {
                parts.push(member_text("value", "true".to_owned()));
            } else {
                parts.push(member_text("value", "false".to_owned()));
            }
            let r = obj_text(&parts);
            proof {
                assert(parts@.map_values(|p: String| p@) =~= seq![
                    member("name"@, quoted(o@.name)),
                    member("type"@, dec_digits(5)),
                    member(
                        "value"@,
                        if o@.value->Flag_0 {
                            "true"@
                        } else {
                            "false"@
                        },
                    ),
                ]);
            }
            r
        },
        OptionValue::Focused(s) => {
            parts.push(member_text("type", crate::numfmt::u64_to_dec(3)));
            parts.push(member_text("value", quoted_text(s.as_str())));
            parts.push(member_text("focused", "true".to_owned()));
            let r = obj_text(&parts);
            proof {
                assert(parts@.map_values(|p: String| p@) =~= seq![
                    member("name"@, quoted(o@.name)),
                    member("type"@, dec_digits(3)),
                    member("value"@, quoted(o@.value->Focused_0)),
                    member("focused"@, "true"@),
                ]);
            }
            r
        },
    }
}

fn encode_data(inv: &CommandInvocation) -> (r: String)
    ensures
        r@ == spec_encode_data(inv@),
{
    let mut option_parts: Vec<String> = Vec::new();
    let mut i: usize = 0;
    while i < inv.options.len()
        invariant
            0 <= i <= inv.options@.len(),
            option_parts@.len() == i,
            forall|k: int|
                0 <= k < i ==> #[trigger] option_parts@[k]@ == spec_encode_option(
                    inv.options@[k]@,
                ),
        decreases inv.options@.len() - i,
    {
        option_parts.push(encode_option(&inv.options[i]));
        i = i + 1;
        proof {
            assert(option_parts@[i - 1]@ == spec_encode_option(inv.options@[i - 1]@));
        }
    }
    proof {
        let vm = inv@.options;
        let whole = vm.map_values(|o: OptionModel| spec_encode_option(o));
        assert forall|k: int| 0 <= k < whole.len() implies option_parts@.map_values(
            |p: String| p@,
        )[k] == whole[k] by {
            assert(vm[k] == inv.options@[k]@);
            assert(whole[k] == spec_encode_option(vm[k]));
            assert(option_parts@[k]@ == spec_encode_option(inv.options@[k]@));
        }
        assert(option_parts@.map_values(|p: String| p@) =~= whole);
    }
    let mut parts: Vec<String> = Vec::new();
    parts.push(member_text("name", quoted_text(inv.name.as_str())));
    parts.push(member_text("options", arr_text(&option_parts)));
    let r = obj_text(&parts);
    proof {
        assert(parts@.map_values(|p: String| p@) =~= seq![
            member("name"@, quoted(inv@.name)),
            member(
                "options"@,
                spec_arr(inv@.options.map_values(|o: OptionModel| spec_encode_option(o))),
            ),
        ]);
    }
    r
}

/// Re-encode an envelope as canonical wire text: exactly
/// `spec_encode_envelope` of its model.
pub fn encode_envelope(e: &InteractionEnvelope) -> (r: String)
    ensures
        r@ == spec_encode_envelope(e@),
{
    let mut parts: Vec<String> = Vec::new();
    match e {
        InteractionEnvelope::Ping => {
            parts.push(member_text("type", crate::numfmt::u64_to_dec(KIND_PING)));
            let r = obj_text(&parts);
            proof {
                assert(parts@.map_values(|p: String| p@) =~= seq![
                    member("type"@, dec_digits(KIND_PING as nat)),
                ]);
            }
            r
        },
        InteractionEnvelope::Command(inv) => {
            parts.push(member_text("type", crate::numfmt::u64_to_dec(KIND_COMMAND)));
            parts.push(member_text("data", encode_data(inv)));
            let r = obj_text(&parts);
            proof {
                assert(parts@.map_values(|p: String| p@) =~= seq![
                    member("type"@, dec_digits(KIND_COMMAND as nat)),
                    member("data"@, spec_encode_data(inv@)),
                ]);
            }
            r
        },
        InteractionEnvelope::Autocomplete(inv) => {
            parts.push(member_text("type", crate::numfmt::u64_to_dec(KIND_AUTOCOMPLETE)));
            parts.push(member_text("data", encode_data(inv)));
            let r = obj_text(&parts);
            proof {
                assert(parts@.map_values(|p: String| p@) =~= seq![
                    member("type"@, dec_digits(KIND_AUTOCOMPLETE as nat)),
                    member("data"@, spec_encode_data(inv@)),
                ]);
            }
            r
        },
        InteractionEnvelope::Other(k) => {
            parts.push(member_text("type", crate::numfmt::u64_to_dec(*k)));
            let r = obj_text(&parts);
            proof {
                assert(parts@.map_values(|p: String| p@) =~= seq![
                    member("type"@, dec_digits(e@->Other_0 as nat)),
                ]);
            }
            r
        },
    }
}

} // verus!
