//! What surrounds the planner and the executor: reading the planner's drafts,
//! reading tool specifications, and mapping a confirmed intent to a call.

use vstd::prelude::*;
use vstd::utf8::encode_utf8;

use crate::agent::{DraftIntent, DraftView};
use crate::amount::{decimal_value, number_digits, Nat};
use crate::chat::{ChatMessage, MessageView, messages_view};
use crate::hashing::extend_bytes;
use crate::json::{clone_value, json_parsing, json_rendering, JsonModel, JsonValue};
use crate::ledger::{Account, TransferArgs};
use crate::payload::{items_view, lemma_array_view, opt_text_at, text_at};
use crate::plan::opt_string_view;
use crate::principal::{principal_decoding, Principal};
use crate::text::{
    chars_of, contains_text, copy_range, find, first_position, str_is, string_of,
};

verus! {

/// Why an answer of the planner holds no draft.
#[derive(Clone, Copy, Debug, PartialEq, Eq, Structural)]
pub enum PlannerError {
    /// The answer holds no opening fence of a JSON block.
    NoJsonBlock,
    /// The JSON block is not closed.
    NoJsonClosing,
    /// What stands in the block is no draft.
    InvalidJson,
}

impl PlannerError {
    /// The text shown for this failure.
    pub open spec fn message_text(self) -> Seq<char> {
        match self {
            PlannerError::NoJsonBlock => "no json block"@,
            PlannerError::NoJsonClosing => "no json closing"@,
            PlannerError::InvalidJson => "invalid planner json"@,
        }
    }

    /// A short message naming the failure.
    pub fn message(&self) -> (s: String)
        ensures
            s@ == self.message_text(),
    {
        match self {
            PlannerError::NoJsonBlock => "no json block".to_string(),
            PlannerError::NoJsonClosing => "no json closing".to_string(),
            PlannerError::InvalidJson => "invalid planner json".to_string(),
        }
    }
}

/// What stands between the first opening fence of a JSON block and the first
/// closing fence behind it.
pub open spec fn fenced(text: Seq<char>) -> Result<Seq<char>, PlannerError> {
    let open = "```json"@;
    let close = "```"@;
    if !contains_text(text, open) {
        Err(PlannerError::NoJsonBlock)
    } else {
        let rest = text.skip(first_position(text, open) + open.len());
        if !contains_text(rest, close) {
            Err(PlannerError::NoJsonClosing)
        } else {
            Ok(rest.take(first_position(rest, close)))
        }
    }
}

/// The draft that a JSON value holds: an object with the texts `tool_name`
/// and `natural_summary`; its arguments are the member `args`, or `null`.
pub open spec fn draft_of(m: JsonModel) -> Option<DraftView> {
    if m is Object && text_at(m, "tool_name"@) is Some && text_at(m, "natural_summary"@) is Some {
        Some(
            DraftView {
                tool_name: text_at(m, "tool_name"@)->Some_0,
                args: match m.get("args"@) {
                    Some(v) => v,
                    None => JsonModel::Null,
                },
                natural_summary: text_at(m, "natural_summary"@)->Some_0,
            },
        )
    } else {
        None
    }
}

/// The draft that an answer of the planner holds.
pub open spec fn planner_reply(text: Seq<char>) -> Result<DraftView, PlannerError> {
    match fenced(text) {
        Err(e) => Err(e),
        Ok(block) => match json_parsing(block) {
            None => Err(PlannerError::InvalidJson),
            Some(m) => match draft_of(m) {
                Some(d) => Ok(d),
                None => Err(PlannerError::InvalidJson),
            },
        },
    }
}

/// The block between the fences.
fn fenced_block(text: &str) -> (r: Result<Vec<char>, PlannerError>)
    ensures
        match r {
            Ok(b) => fenced(text@) == Ok::<Seq<char>, PlannerError>(b@),
            Err(e) => fenced(text@) == Err::<Seq<char>, PlannerError>(e),
        },
{
    let chars = chars_of(text);
    let open = chars_of("```json");
    let close = chars_of("```");
    let start = match find(&chars, &open) {
        Some(i) => i,
        None => {
            return Err(PlannerError::NoJsonBlock);
        },
    };
    proof {
        crate::text::lemma_first_position(chars@, open@, start as int);
    }
    let total = chars.len();
    let rest = copy_range(&chars, start + open.len(), total);
    assert(rest@ =~= chars@.skip(start + open@.len()));
    let end = match find(&rest, &close) {
        Some(i) => i,
        None => {
            return Err(PlannerError::NoJsonClosing);
        },
    };
    proof {
        crate::text::lemma_first_position(rest@, close@, end as int);
    }
    let block = copy_range(&rest, 0, end);
    assert(block@ =~= rest@.take(end as int));
    Ok(block)
}

/// Read the draft that a JSON value holds.
fn draft_from(m: &JsonValue) -> (r: Option<DraftIntent>)
    ensures
        match r {
            Some(d) => draft_of(m@) == Some(d@),
            None => draft_of(m@) is None,
        },
{
    match m {
        JsonValue::Object(_) => {},
        _ => {
            return None;
        },
    }
    let tool_name = match m.get("tool_name") {
        Some(JsonValue::String(s)) => s.clone(),
        _ => {
            return None;
        },
    };
    let natural_summary = match m.get("natural_summary") {
        Some(JsonValue::String(s)) => s.clone(),
        _ => {
            return None;
        },
    };
    let args = match m.get("args") {
        Some(v) => clone_value(v),
        None => JsonValue::Null,
    };
    Some(DraftIntent { tool_name, args, natural_summary })
}

/// Read the draft from an answer of the planner: the JSON object between the
/// first opening fence of a JSON block and the first closing fence behind it.
pub fn parse_planner_reply(text: &str) -> (r: Result<DraftIntent, PlannerError>)
    ensures
        match r {
            Ok(d) => planner_reply(text@) == Ok::<DraftView, PlannerError>(d@),
            Err(e) => planner_reply(text@) == Err::<DraftView, PlannerError>(e),
        },
{
    let block = fenced_block(text)?;
    let m = match JsonValue::parse(string_of(&block).as_str()) {
        Some(m) => m,
        None => {
            return Err(PlannerError::InvalidJson);
        },
    };
    match draft_from(&m) {
        Some(d) => Ok(d),
        None => Err(PlannerError::InvalidJson),
    }
}

/// The instruction that tells the planner how to answer.
pub const PLANNER_PROMPT: &'static str =
    "\nYou are a planner. Given a user request and a list of tools (name, description, args),\npick ONE tool that best accomplishes the task and output EXACT JSON:\n\n{\n  \"tool_name\": \"<tool name>\",\n  \"args\": { ... fill fields as strings ... },\n  \"natural_summary\": \"<short human confirmation sentence>\"\n}\n\nRules:\n- Output only one JSON object inside ```json ... ``` and nothing else.\n- If the request is not solvable with provided tools, explain briefly in 'natural_summary' and set tool_name to \"\".\n";

/// The messages that ask the planner about a request: the instruction, the
/// manifest of the tools as compact JSON, and the request itself.
pub fn planner_messages(prompt: String, manifest: Vec<JsonValue>) -> (msgs: Vec<ChatMessage>)
    ensures
        messages_view(msgs@) == seq![
            MessageView::System { content: PLANNER_PROMPT@ },
            MessageView::System {
                content: "TOOLS_MANIFEST="@ + json_rendering(
                    JsonModel::Array(items_view(manifest@)),
                ),
            },
            MessageView::User { content: prompt@ },
        ],
{
    proof {
        lemma_array_view(manifest);
    }
    let ghost listed = json_rendering(JsonModel::Array(items_view(manifest@)));
    let tools = JsonValue::Array(manifest);
    let mut listing = "TOOLS_MANIFEST=".to_string();
    listing.append(tools.render().as_str());
    let mut msgs: Vec<ChatMessage> = Vec::new();
    msgs.push(ChatMessage::System { content: PLANNER_PROMPT.to_string() });
    msgs.push(ChatMessage::System { content: listing });
    msgs.push(ChatMessage::User { content: prompt });
    assert(messages_view(msgs@) =~= seq![
        MessageView::System { content: PLANNER_PROMPT@ },
        MessageView::System { content: "TOOLS_MANIFEST="@ + listed },
        MessageView::User { content: prompt@ },
    ]);
    msgs
}

/// The tools that a manifest lists: the items of a JSON array.
pub open spec fn manifest_of(text: Seq<char>) -> Option<Seq<JsonModel>> {
    match json_parsing(text) {
        Some(JsonModel::Array(items)) => Some(items),
        _ => None,
    }
}

/// Read the manifest that the registry handed out.
pub fn parse_manifest(text: &str) -> (r: Option<Vec<JsonValue>>)
    ensures
        match r {
            Some(items) => manifest_of(text@) == Some(items_view(items@)),
            None => manifest_of(text@) is None,
        },
{
    match JsonValue::parse(text) {
        Some(JsonValue::Array(items)) => {
            proof {
                lemma_array_view(items);
            }
            Some(items)
        },
        _ => None,
    }
}

/// How a tool is called.
#[derive(Debug, PartialEq, Eq)]
pub struct ToolSpec {
    pub name: String,
    pub description: String,
    pub canister_id: String,
    pub method: String,
    pub args_schema: JsonValue,
    pub safety: JsonValue,
    pub ui_hints: JsonValue,
    pub return_shape: Option<String>,
}

/// The mathematical content of a [`ToolSpec`].
pub struct ToolSpecView {
    pub name: Seq<char>,
    pub description: Seq<char>,
    pub canister_id: Seq<char>,
    pub method: Seq<char>,
    pub args_schema: JsonModel,
    pub safety: JsonModel,
    pub ui_hints: JsonModel,
    pub return_shape: Option<Seq<char>>,
}

impl View for ToolSpec {
    type V = ToolSpecView;

    open spec fn view(&self) -> ToolSpecView {
        ToolSpecView {
            name: self.name@,
            description: self.description@,
            canister_id: self.canister_id@,
            method: self.method@,
            args_schema: self.args_schema@,
            safety: self.safety@,
            ui_hints: self.ui_hints@,
            return_shape: opt_string_view(self.return_shape),
        }
    }
}

/// The member under `key`, or `null`.
pub open spec fn member_or_null(m: JsonModel, key: Seq<char>) -> JsonModel {
    match m.get(key) {
        Some(v) => v,
        None => JsonModel::Null,
    }
}

/// The specification that a JSON value holds: an object with the texts
/// `name`, `description`, `canister_id` and `method`, any `args_schema`,
/// `safety` and `ui_hints`, and optionally the text `return_shape`.
pub open spec fn tool_spec_of(m: JsonModel) -> Option<ToolSpecView> {
    if m is Object && text_at(m, "name"@) is Some && text_at(m, "description"@) is Some
        && text_at(m, "canister_id"@) is Some && text_at(m, "method"@) is Some && opt_text_at(
        m,
        "return_shape"@,
    ) is Some {
        Some(
            ToolSpecView {
                name: text_at(m, "name"@)->Some_0,
                description: text_at(m, "description"@)->Some_0,
                canister_id: text_at(m, "canister_id"@)->Some_0,
                method: text_at(m, "method"@)->Some_0,
                args_schema: member_or_null(m, "args_schema"@),
                safety: member_or_null(m, "safety"@),
                ui_hints: member_or_null(m, "ui_hints"@),
                return_shape: opt_text_at(m, "return_shape"@)->Some_0,
            },
        )
    } else {
        None
    }
}

/// The specification that a text holds.
pub open spec fn parsed_tool_spec(text: Seq<char>) -> Option<ToolSpecView> {
    match json_parsing(text) {
        Some(m) => tool_spec_of(m),
        None => None,
    }
}

/// A text member.
fn text_of(m: &JsonValue, key: &str) -> (r: Option<String>)
    ensures
        opt_string_view(r) == text_at(m@, key@),
{
    match m.get(key) {
        Some(JsonValue::String(s)) => Some(s.clone()),
        _ => None,
    }
}

/// A copy of the member under `key`, or `null`.
fn member_of(m: &JsonValue, key: &str) -> (r: JsonValue)
    ensures
        r@ == member_or_null(m@, key@),
{
    match m.get(key) {
        Some(v) => clone_value(v),
        None => JsonValue::Null,
    }
}

/// Read the specification of a tool that the registry handed out.
pub fn parse_tool_spec(text: &str) -> (r: Option<ToolSpec>)
    ensures
        match r {
            Some(s) => parsed_tool_spec(text@) == Some(s@),
            None => parsed_tool_spec(text@) is None,
        },
{
    let m = JsonValue::parse(text)?;
    match &m {
        JsonValue::Object(_) => {},
        _ => {
            return None;
        },
    }
    let name = text_of(&m, "name")?;
    let description = text_of(&m, "description")?;
    let canister_id = text_of(&m, "canister_id")?;
    let method = text_of(&m, "method")?;
    let return_shape = match m.get("return_shape") {
        None => None,
        Some(JsonValue::Null) => None,
        Some(JsonValue::String(s)) => Some(s.clone()),
        _ => {
            return None;
        },
    };
    Some(
        ToolSpec {
            name,
            description,
            canister_id,
            method,
            args_schema: member_of(&m, "args_schema"),
            safety: member_of(&m, "safety"),
            ui_hints: member_of(&m, "ui_hints"),
            return_shape,
        },
    )
}

/// Why a confirmed intent is not mapped to a call.
#[derive(Clone, Copy, Debug, PartialEq, Eq, Structural)]
pub enum ExecuteError {
    /// The tool's canister is no identity.
    BadCanister,
    /// The arguments name no recipient.
    MissingToOwner,
    /// The recipient is no identity.
    BadToOwner,
    /// The arguments name no amount.
    MissingAmount,
    /// The amount is no natural number.
    AmountNotNat,
    /// The tool answers in a shape that is not mapped.
    NotImplemented,
}

impl ExecuteError {
    /// The text shown for this failure.
    pub open spec fn message_text(self) -> Seq<char> {
        match self {
            ExecuteError::BadCanister => "canister id invalid"@,
            ExecuteError::MissingToOwner => "to_owner"@,
            ExecuteError::BadToOwner => "to_owner invalid"@,
            ExecuteError::MissingAmount => "amount"@,
            ExecuteError::AmountNotNat => "amount not nat"@,
            ExecuteError::NotImplemented => "variant_ok_err mapping not implemented in sample"@,
        }
    }

    /// A short message naming the failure.
    pub fn message(&self) -> (s: String)
        ensures
            s@ == self.message_text(),
    {
        match self {
            ExecuteError::BadCanister => "canister id invalid".to_string(),
            ExecuteError::MissingToOwner => "to_owner".to_string(),
            ExecuteError::BadToOwner => "to_owner invalid".to_string(),
            ExecuteError::MissingAmount => "amount".to_string(),
            ExecuteError::AmountNotNat => "amount not nat".to_string(),
            ExecuteError::NotImplemented => "variant_ok_err mapping not implemented in sample".to_string(),
        }
    }
}

/// The call that executes an intent.
#[derive(Debug, PartialEq, Eq)]
pub struct LedgerCall {
    pub canister: Principal,
    pub method: String,
    pub args: TransferArgs,
}

/// The mathematical content of a [`LedgerCall`] as the executor builds it:
/// from the caller's default account, without fee and creation time.
pub struct CallView {
    pub canister: Seq<u8>,
    pub method: Seq<char>,
    pub to_owner: Seq<u8>,
    pub amount: nat,
    pub memo: Option<Seq<u8>>,
}

/// Whether a call is the one that `view` describes.
pub open spec fn is_call(call: LedgerCall, view: CallView) -> bool {
    &&& call.canister@ == view.canister
    &&& call.method@ == view.method
    &&& call.args.from_subaccount is None
    &&& call.args.to.owner@ == view.to_owner
    &&& call.args.to.subaccount is None
    &&& call.args.amount@ == view.amount
    &&& call.args.fee is None
    &&& crate::ledger::bytes_view(call.args.memo) == view.memo
    &&& call.args.created_at_time is None
}

/// The call that executes an intent with the arguments `args` through the
/// tool `spec`: the recipient is the text `to_owner`, the amount the written
/// number `amount`, the memo the text `memo` if there is one.
pub open spec fn call_of(spec: ToolSpecView, args: JsonModel) -> Result<CallView, ExecuteError> {
    match principal_decoding(spec.canister_id) {
        None => Err(ExecuteError::BadCanister),
        Some(canister) => match text_at(args, "to_owner"@) {
            None => Err(ExecuteError::MissingToOwner),
            Some(to_text) => match principal_decoding(to_text) {
                None => Err(ExecuteError::BadToOwner),
                Some(to_owner) => match text_at(args, "amount"@) {
                    None => Err(ExecuteError::MissingAmount),
                    Some(amount) => if number_digits(amount) is None {
                        Err(ExecuteError::AmountNotNat)
                    } else if spec.return_shape == Some("variant_ok_err"@) {
                        Err(ExecuteError::NotImplemented)
                    } else {
                        Ok(
                            CallView {
                                canister,
                                method: spec.method,
                                to_owner,
                                amount: decimal_value(number_digits(amount)->Some_0),
                                memo: match text_at(args, "memo"@) {
                                    Some(m) => Some(encode_utf8(m)),
                                    None => None,
                                },
                            },
                        )
                    },
                },
            },
        },
    }
}

/// Map a confirmed intent to the call that executes it.
pub fn build_call(spec: &ToolSpec, args: &JsonValue) -> (r: Result<LedgerCall, ExecuteError>)
    ensures
        match r {
            Ok(call) => call_of(spec@, args@) is Ok && is_call(call, call_of(spec@, args@)->Ok_0),
            Err(e) => call_of(spec@, args@) == Err::<CallView, ExecuteError>(e),
        },
{
    let canister = match Principal::from_text(spec.canister_id.as_str()) {
        Some(p) => p,
        None => {
            return Err(ExecuteError::BadCanister);
        },
    };
    let to_text = match text_of(args, "to_owner") {
        Some(t) => t,
        None => {
            return Err(ExecuteError::MissingToOwner);
        },
    };
    let to_owner = match Principal::from_text(to_text.as_str()) {
        Some(p) => p,
        None => {
            return Err(ExecuteError::BadToOwner);
        },
    };
    let amount_text = match text_of(args, "amount") {
        Some(t) => t,
        None => {
            return Err(ExecuteError::MissingAmount);
        },
    };
    let amount = match Nat::parse_number(amount_text.as_str()) {
        Some(n) => n,
        None => {
            return Err(ExecuteError::AmountNotNat);
        },
    };
    let memo = match text_of(args, "memo") {
        Some(m) => {
            let mut bytes: Vec<u8> = Vec::new();
            extend_bytes(&mut bytes, m.as_str().as_bytes());
            Some(bytes)
        },
        None => None,
    };
    let unmapped = match &spec.return_shape {
        Some(shape) => str_is(shape.as_str(), "variant_ok_err"),
        None => false,
    };
    if unmapped {
        return Err(ExecuteError::NotImplemented);
    }
    Ok(
        LedgerCall {
            canister,
            method: spec.method.clone(),
            args: TransferArgs {
                from_subaccount: None,
                to: Account { owner: to_owner, subaccount: None },
                amount,
                fee: None,
                memo,
                created_at_time: None,
            },
        },
    )
}

/// The reply that tells of a tool that could not be looked up.
pub fn tool_fetch_failed(reason: &str) -> (s: String)
    ensures
        s@ == "\u{274c} tool fetch error: "@ + reason@,
{
    let mut s = "\u{274c} tool fetch error: ".to_string();
    s.append(reason);
    s
}

/// The reply that tells of a registry that could not be reached.
pub fn registry_failed(reason: &str) -> (s: String)
    ensures
        s@ == "\u{274c} registry error: "@ + reason@,
{
    let mut s = "\u{274c} registry error: ".to_string();
    s.append(reason);
    s
}

/// The reply that tells of a planner that gave no draft.
pub fn planner_failed(reason: &str) -> (s: String)
    ensures
        s@ == "\u{274c} planner error: "@ + reason@,
{
    let mut s = "\u{274c} planner error: ".to_string();
    s.append(reason);
    s
}

} // verus!
