//! Tool replies as JSON, as they are handed back to the planner.

use vstd::prelude::*;

use crate::accounts::{SavedAccount, SavedAccountView};
use crate::chat::ToolCall;
use crate::amount::amount_text;
use crate::json::{
    json_rendering, lemma_object_view, members_view, JsonMember, JsonModel, JsonValue, Members,
};
use crate::payload::{
    items_view, lemma_array_view, opt_bytes_json, plan_json, plan_to_json, ArgField, ArgsError,
};
use crate::principal::principal_encoding;
use crate::session::ToolResult;
use crate::tokens::texts_of;
use crate::tools::{accounts_view, ReplyView, ToolReply};

verus! {

impl ArgField {
    /// The name of the member.
    pub open spec fn name_text(self) -> Seq<char> {
        match self {
            ArgField::To => "to"@,
            ArgField::AmountDec => "amount_dec"@,
            ArgField::Symbol => "symbol"@,
            ArgField::Ledger => "ledger"@,
            ArgField::Decimals => "decimals"@,
            ArgField::Memo => "memo"@,
            ArgField::Alias => "alias"@,
            ArgField::Owner => "owner"@,
            ArgField::Sub => "sub"@,
        }
    }

    /// The name of the member.
    pub fn name(&self) -> (s: &'static str)
        ensures
            s@ == self.name_text(),
    {
        match self {
            ArgField::To => "to",
            ArgField::AmountDec => "amount_dec",
            ArgField::Symbol => "symbol",
            ArgField::Ledger => "ledger",
            ArgField::Decimals => "decimals",
            ArgField::Memo => "memo",
            ArgField::Alias => "alias",
            ArgField::Owner => "owner",
            ArgField::Sub => "sub",
        }
    }
}

impl ArgsError {
    /// The text shown for this refusal.
    pub open spec fn message_text(self) -> Seq<char> {
        match self {
            ArgsError::NotAnObject => "arguments must be a JSON object"@,
            ArgsError::UnknownField => "unknown field"@,
            ArgsError::MissingField { field } => "missing field "@ + field.name_text(),
            ArgsError::InvalidType { field } => "invalid type for field "@ + field.name_text(),
        }
    }

    /// A short message naming what is wrong with the arguments.
    pub fn message(&self) -> (s: String)
        ensures
            s@ == self.message_text(),
    {
        match self {
            ArgsError::NotAnObject => "arguments must be a JSON object".to_string(),
            ArgsError::UnknownField => "unknown field".to_string(),
            ArgsError::MissingField { field } => {
                let mut s = "missing field ".to_string();
                s.append(field.name());
                s
            },
            ArgsError::InvalidType { field } => {
                let mut s = "invalid type for field ".to_string();
                s.append(field.name());
                s
            },
        }
    }
}

/// An object that reports a failure by its code, with further members.
pub open spec fn err_json(code: Seq<char>, extra: Members) -> JsonModel {
    JsonModel::Object(
        seq![("status"@, JsonModel::String("err"@)), ("code"@, JsonModel::String(code))] + extra,
    )
}

/// An array of strings.
pub open spec fn texts_json(list: Seq<Seq<char>>) -> JsonModel {
    JsonModel::Array(Seq::new(list.len(), |i: int| JsonModel::String(list[i])))
}

/// A saved account as a JSON object.
pub open spec fn account_json(a: SavedAccountView) -> JsonModel {
    JsonModel::Object(
        seq![
            ("alias"@, JsonModel::String(a.alias)),
            ("owner"@, JsonModel::String(principal_encoding(a.owner))),
            ("subaccount"@, opt_bytes_json(a.subaccount)),
        ],
    )
}

/// A list of saved accounts as a JSON array.
pub open spec fn accounts_json(list: Seq<SavedAccountView>) -> JsonModel {
    JsonModel::Array(Seq::new(list.len(), |i: int| account_json(list[i])))
}

/// The JSON value that a reply is handed back as.
pub open spec fn reply_json(r: ReplyView) -> JsonModel {
    match r {
        ReplyView::BadArgs { error } => err_json(
            "BadArgs"@,
            seq![("error"@, JsonModel::String(error.message_text()))],
        ),
        ReplyView::NeedRecipient => err_json(
            "NeedRecipient"@,
            seq![("field"@, JsonModel::String("to"@))],
        ),
        ReplyView::NeedAmount => err_json(
            "NeedAmount"@,
            seq![
                ("field"@, JsonModel::String("amount_dec"@)),
                ("example"@, JsonModel::String("10"@)),
            ],
        ),
        ReplyView::BadToken { requested, options } => err_json(
            "BadToken"@,
            seq![
                ("field"@, JsonModel::String("symbol"@)),
                ("requested"@, JsonModel::String(requested)),
                ("options"@, texts_json(options)),
            ],
        ),
        ReplyView::BadAmount { error, amount, example } => err_json(
            "BadAmount"@,
            seq![
                ("field"@, JsonModel::String("amount_dec"@)),
                ("error"@, JsonModel::String(error.message_text(amount))),
                ("example"@, JsonModel::String(example)),
            ],
        ),
        ReplyView::BadRecipient { error, to } => err_json(
            "BadRecipient"@,
            seq![
                ("field"@, JsonModel::String("to"@)),
                ("error"@, JsonModel::String(error.message_text(to))),
            ],
        ),
        ReplyView::Planned(plan) => plan_json(plan),
        ReplyView::MissingPlan => err_json(
            "MissingPlan"@,
            seq![("error"@, JsonModel::String("no last plan"@))],
        ),
        ReplyView::Duplicate => err_json("Duplicate"@, Seq::empty()),
        ReplyView::ExecError { kind, error } => err_json(
            "ExecError"@,
            seq![("error"@, JsonModel::String(error))],
        ),
        ReplyView::Executed { block_index } => JsonModel::Object(
            seq![
                ("status"@, JsonModel::String("ok"@)),
                ("block_index"@, JsonModel::String(amount_text(block_index))),
            ],
        ),
        ReplyView::BadPrincipal => err_json("BadPrincipal"@, Seq::empty()),
        ReplyView::BadSub => err_json("BadSub"@, Seq::empty()),
        ReplyView::Saved => JsonModel::Object(seq![("status"@, JsonModel::String("ok"@))]),
        ReplyView::Accounts(list) => accounts_json(list),
        ReplyView::UnknownTool => JsonModel::Object(
            seq![
                ("status"@, JsonModel::String("err"@)),
                ("error"@, JsonModel::String("unknown tool"@)),
            ],
        ),
    }
}

/// A member that holds a string.
fn text_member(key: &str, text: String) -> (m: JsonMember)
    ensures
        m.key@ == key@,
        m.value@ == JsonModel::String(text@),
{
    JsonMember { key: key.to_string(), value: JsonValue::String(text) }
}

/// A member that holds a string literal.
fn literal_member(key: &str, text: &str) -> (m: JsonMember)
    ensures
        m.key@ == key@,
        m.value@ == JsonModel::String(text@),
{
    JsonMember { key: key.to_string(), value: JsonValue::String(text.to_string()) }
}

/// A member that holds any value.
fn value_member(key: &str, value: JsonValue) -> (m: JsonMember)
    ensures
        m.key@ == key@,
        m.value@ == value@,
{
    JsonMember { key: key.to_string(), value }
}

/// An object with the given members.
fn object_of(members: Vec<JsonMember>) -> (r: JsonValue)
    ensures
        r@ == JsonModel::Object(members_view(members@)),
{
    proof {
        lemma_object_view(members);
    }
    JsonValue::Object(members)
}

/// An object that reports a failure by its code, with further members.
fn failure(code: &str, extra: Vec<JsonMember>) -> (r: JsonValue)
    ensures
        r@ == err_json(code@, members_view(extra@)),
{
    let mut extra = extra;
    let ghost tail = members_view(extra@);
    let mut m: Vec<JsonMember> = Vec::new();
    m.push(literal_member("status", "err"));
    m.push(literal_member("code", code));
    m.append(&mut extra);
    assert(members_view(m@) =~= err_json(code@, tail)->Object_0);
    object_of(m)
}

/// An array of strings.
fn json_of_texts(list: &Vec<&'static str>) -> (r: JsonValue)
    ensures
        r@ == texts_json(texts_of(list@)),
{
    let mut items: Vec<JsonValue> = Vec::new();
    let mut i: usize = 0;
    while i < list.len()
        invariant
            i <= list@.len(),
            items@.len() == i,
            forall|j: int| 0 <= j < i ==> items@[j]@ == JsonModel::String(list@[j]@),
        decreases list@.len() - i,
    {
        items.push(JsonValue::String(list[i].to_string()));
        i += 1;
    }
    proof {
        lemma_array_view(items);
        assert(items_view(items@) =~= texts_json(texts_of(list@))->Array_0);
    }
    JsonValue::Array(items)
}

/// A saved account as a JSON object.
fn json_of_account(a: &SavedAccount) -> (r: JsonValue)
    ensures
        r@ == account_json(a@),
{
    let mut m: Vec<JsonMember> = Vec::new();
    m.push(text_member("alias", a.alias.clone()));
    m.push(text_member("owner", a.owner.to_text()));
    m.push(
        value_member(
            "subaccount",
            match &a.subaccount {
                Some(sub) => crate::replies::json_of_byte_slice(sub.as_slice()),
                None => JsonValue::Null,
            },
        ),
    );
    assert(members_view(m@) =~= account_json(a@)->Object_0);
    object_of(m)
}

/// An array with one number for each byte.
fn json_of_byte_slice(b: &[u8]) -> (r: JsonValue)
    ensures
        r@ == crate::payload::bytes_json(b@),
{
    let mut items: Vec<JsonValue> = Vec::new();
    let mut i: usize = 0;
    while i < b.len()
        invariant
            i <= b@.len(),
            items@.len() == i,
            forall|j: int|
                0 <= j < i ==> items@[j]@ == JsonModel::Number(
                    crate::json::NumberModel::Unsigned(b@[j] as u64),
                ),
        decreases b@.len() - i,
    {
        items.push(JsonValue::unsigned(b[i] as u64));
        i += 1;
    }
    proof {
        lemma_array_view(items);
        assert(items_view(items@) =~= crate::payload::bytes_json(b@)->Array_0);
    }
    JsonValue::Array(items)
}

/// A list of saved accounts as a JSON array.
fn json_of_accounts(list: &Vec<SavedAccount>) -> (r: JsonValue)
    ensures
        r@ == accounts_json(accounts_view(list@)),
{
    let mut items: Vec<JsonValue> = Vec::new();
    let mut i: usize = 0;
    while i < list.len()
        invariant
            i <= list@.len(),
            items@.len() == i,
            forall|j: int| 0 <= j < i ==> items@[j]@ == account_json(list@[j]@),
        decreases list@.len() - i,
    {
        items.push(json_of_account(&list[i]));
        i += 1;
    }
    proof {
        lemma_array_view(items);
        assert(items_view(items@) =~= accounts_json(accounts_view(list@))->Array_0);
    }
    JsonValue::Array(items)
}

impl ToolReply {
    /// The JSON value that the reply is handed back as.
    pub fn to_json(&self) -> (r: JsonValue)
        ensures
            r@ == reply_json(self@),
    {
        match self {
            ToolReply::BadArgs { error } => {
                let mut extra: Vec<JsonMember> = Vec::new();
                extra.push(text_member("error", error.message()));
                assert(members_view(extra@) =~= seq![
                    ("error"@, JsonModel::String(error.message_text())),
                ]);
                failure("BadArgs", extra)
            },
            ToolReply::NeedRecipient => {
                let mut extra: Vec<JsonMember> = Vec::new();
                extra.push(literal_member("field", "to"));
                assert(members_view(extra@) =~= seq![("field"@, JsonModel::String("to"@))]);
                failure("NeedRecipient", extra)
            },
            ToolReply::NeedAmount => {
                let mut extra: Vec<JsonMember> = Vec::new();
                extra.push(literal_member("field", "amount_dec"));
                extra.push(literal_member("example", "10"));
                assert(members_view(extra@) =~= seq![
                    ("field"@, JsonModel::String("amount_dec"@)),
                    ("example"@, JsonModel::String("10"@)),
                ]);
                failure("NeedAmount", extra)
            },
            ToolReply::BadToken { requested, options } => {
                let mut extra: Vec<JsonMember> = Vec::new();
                extra.push(literal_member("field", "symbol"));
                extra.push(text_member("requested", requested.clone()));
                extra.push(value_member("options", json_of_texts(options)));
                assert(members_view(extra@) =~= seq![
                    ("field"@, JsonModel::String("symbol"@)),
                    ("requested"@, JsonModel::String(requested@)),
                    ("options"@, texts_json(texts_of(options@))),
                ]);
                failure("BadToken", extra)
            },
            ToolReply::BadAmount { error, amount, example } => {
                let mut extra: Vec<JsonMember> = Vec::new();
                extra.push(literal_member("field", "amount_dec"));
                extra.push(text_member("error", error.message(amount.as_str())));
                extra.push(literal_member("example", example));
                assert(members_view(extra@) =~= seq![
                    ("field"@, JsonModel::String("amount_dec"@)),
                    ("error"@, JsonModel::String(error.message_text(amount@))),
                    ("example"@, JsonModel::String(example@)),
                ]);
                failure("BadAmount", extra)
            },
            ToolReply::BadRecipient { error, to } => {
                let mut extra: Vec<JsonMember> = Vec::new();
                extra.push(literal_member("field", "to"));
                extra.push(text_member("error", error.message(to.as_str())));
                assert(members_view(extra@) =~= seq![
                    ("field"@, JsonModel::String("to"@)),
                    ("error"@, JsonModel::String(error.message_text(to@))),
                ]);
                failure("BadRecipient", extra)
            },
            ToolReply::Planned(plan) => plan_to_json(plan),
            ToolReply::MissingPlan => {
                let mut extra: Vec<JsonMember> = Vec::new();
                extra.push(literal_member("error", "no last plan"));
                assert(members_view(extra@) =~= seq![
                    ("error"@, JsonModel::String("no last plan"@)),
                ]);
                failure("MissingPlan", extra)
            },
            ToolReply::Duplicate => {
                let extra: Vec<JsonMember> = Vec::new();
                assert(members_view(extra@) =~= Seq::<(Seq<char>, JsonModel)>::empty());
                failure("Duplicate", extra)
            },
            ToolReply::ExecError { kind, error } => {
                let mut extra: Vec<JsonMember> = Vec::new();
                extra.push(text_member("error", error.clone()));
                assert(members_view(extra@) =~= seq![("error"@, JsonModel::String(error@))]);
                failure("ExecError", extra)
            },
            ToolReply::Executed { block_index } => {
                let mut m: Vec<JsonMember> = Vec::new();
                m.push(literal_member("status", "ok"));
                m.push(text_member("block_index", block_index.to_text()));
                assert(members_view(m@) =~= seq![
                    ("status"@, JsonModel::String("ok"@)),
                    ("block_index"@, JsonModel::String(amount_text(block_index@))),
                ]);
                object_of(m)
            },
            ToolReply::BadPrincipal => {
                let extra: Vec<JsonMember> = Vec::new();
                assert(members_view(extra@) =~= Seq::<(Seq<char>, JsonModel)>::empty());
                failure("BadPrincipal", extra)
            },
            ToolReply::BadSub => {
                let extra: Vec<JsonMember> = Vec::new();
                assert(members_view(extra@) =~= Seq::<(Seq<char>, JsonModel)>::empty());
                failure("BadSub", extra)
            },
            ToolReply::Saved => {
                let mut m: Vec<JsonMember> = Vec::new();
                m.push(literal_member("status", "ok"));
                assert(members_view(m@) =~= seq![("status"@, JsonModel::String("ok"@))]);
                object_of(m)
            },
            ToolReply::Accounts(list) => json_of_accounts(list),
            ToolReply::UnknownTool => {
                let mut m: Vec<JsonMember> = Vec::new();
                m.push(literal_member("status", "err"));
                m.push(literal_member("error", "unknown tool"));
                assert(members_view(m@) =~= seq![
                    ("status"@, JsonModel::String("err"@)),
                    ("error"@, JsonModel::String("unknown tool"@)),
                ]);
                object_of(m)
            },
        }
    }

    /// The compact JSON text of the reply.
    pub fn render(&self) -> (s: String)
        ensures
            s@ == json_rendering(reply_json(self@)),
    {
        self.to_json().render()
    }

    /// The result that reports this reply to the planner: the text of the
    /// reply, tagged with the identifier of the call that it answers.
    pub fn result_for(&self, call: &ToolCall) -> (r: ToolResult)
        ensures
            r.tool_call_id@ == call.id@,
            r.content@ == json_rendering(reply_json(self@)),
    {
        ToolResult { tool_call_id: call.id.clone(), content: self.render() }
    }
}

} // verus!
