//! The tools that a planner may call: planning a transfer, confirming it,
//! saving a recipient and listing the saved recipients.
//!
//! A call is handled in one step, except that a confirmed transfer is handed
//! out to be performed on the ledger; its outcome is then recorded with
//! [`complete_transfer`].

use vstd::prelude::*;

use crate::accounts::{list_accounts, save_outcome, SaveError, SavedAccount, SavedAccountView};
use crate::amount::Nat;
use crate::chat::{argument_views, ToolCall};
use crate::engine::{
    execution_gate, plan_outcome, selected_plan, with_executed, with_plan, Engine, EngineView,
    ExecRefusal, PlanRefusal, TransferFromArgs, TransferRequest,
};
use crate::errors::InvalidInput;
use crate::json::{argument_members, tool_args_json, JsonModel, JsonValue};
use crate::payload::{
    decode_plan_value, decoded_plan, plan_args_from_json, plan_args_of, save_args_from_json,
    save_args_of, text_at, ArgsError,
};
use crate::plan::{PlanArgs, PlanArgsView, PlanView, TransferPlan};
use crate::principal::Principal;
use crate::text::str_is;
use crate::tokens::{
    example_for_decimals, example_text, symbols_of, token_symbols, token_table, texts_of,
};

verus! {

/// The kind of failure that a ledger reported.
#[derive(Clone, Copy, Debug, PartialEq, Eq, Structural)]
pub enum LedgerErrorKind {
    BadFee,
    BadBurn,
    InsufficientFunds,
    InsufficientAllowance,
    TooOld,
    CreatedInFuture,
    Duplicate,
    TemporarilyUnavailable,
    GenericError,
}

/// A failure that a ledger reported: its kind, and the ledger's own words.
#[derive(Debug, PartialEq, Eq)]
pub struct LedgerError {
    pub kind: LedgerErrorKind,
    pub detail: String,
}

/// What a tool call is answered with.
#[derive(Debug, PartialEq, Eq)]
pub enum ToolReply {
    /// The arguments of the call are malformed.
    BadArgs { error: ArgsError },
    /// The recipient is missing.
    NeedRecipient,
    /// The amount is missing.
    NeedAmount,
    /// The asset asked for, `requested`, is not on the allow-list; `options`
    /// are the symbols that are.
    BadToken { requested: String, options: Vec<&'static str> },
    /// The amount `amount` is malformed; `example` shows a well-formed one.
    BadAmount { error: InvalidInput, amount: String, example: &'static str },
    /// The recipient `to` is neither an address nor a saved alias.
    BadRecipient { error: InvalidInput, to: String },
    /// A plan was drafted and is pending.
    Planned(TransferPlan),
    /// Nothing is pending for this confirmation.
    MissingPlan,
    /// The plan has been executed before.
    Duplicate,
    /// The transfer failed; it may be confirmed again.
    ExecError { kind: Option<LedgerErrorKind>, error: String },
    /// The transfer was performed; `block_index` is the settlement reference.
    Executed { block_index: Nat },
    /// The owner of an account to save is no identity.
    BadPrincipal,
    /// The sub-address of an account to save is not 32 bytes long.
    BadSub,
    /// The account was saved.
    Saved,
    /// The saved accounts.
    Accounts(Vec<SavedAccount>),
    /// No tool has the name that was called.
    UnknownTool,
}

/// The mathematical content of a [`ToolReply`].
pub enum ReplyView {
    BadArgs { error: ArgsError },
    NeedRecipient,
    NeedAmount,
    BadToken { requested: Seq<char>, options: Seq<Seq<char>> },
    BadAmount { error: InvalidInput, amount: Seq<char>, example: Seq<char> },
    BadRecipient { error: InvalidInput, to: Seq<char> },
    Planned(PlanView),
    MissingPlan,
    Duplicate,
    ExecError { kind: Option<LedgerErrorKind>, error: Seq<char> },
    Executed { block_index: nat },
    BadPrincipal,
    BadSub,
    Saved,
    Accounts(Seq<SavedAccountView>),
    UnknownTool,
}

/// The contents of a list of accounts.
pub open spec fn accounts_view(list: Seq<SavedAccount>) -> Seq<SavedAccountView> {
    Seq::new(list.len(), |i: int| list[i]@)
}

impl View for ToolReply {
    type V = ReplyView;

    open spec fn view(&self) -> ReplyView {
        match self {
            ToolReply::BadArgs { error } => ReplyView::BadArgs { error: *error },
            ToolReply::NeedRecipient => ReplyView::NeedRecipient,
            ToolReply::NeedAmount => ReplyView::NeedAmount,
            ToolReply::BadToken { requested, options } => ReplyView::BadToken {
                requested: requested@,
                options: texts_of(options@),
            },
            ToolReply::BadAmount { error, amount, example } => ReplyView::BadAmount {
                error: *error,
                amount: amount@,
                example: example@,
            },
            ToolReply::BadRecipient { error, to } => ReplyView::BadRecipient {
                error: *error,
                to: to@,
            },
            ToolReply::Planned(plan) => ReplyView::Planned(plan@),
            ToolReply::MissingPlan => ReplyView::MissingPlan,
            ToolReply::Duplicate => ReplyView::Duplicate,
            ToolReply::ExecError { kind, error } => ReplyView::ExecError {
                kind: *kind,
                error: error@,
            },
            ToolReply::Executed { block_index } => ReplyView::Executed {
                block_index: block_index@,
            },
            ToolReply::BadPrincipal => ReplyView::BadPrincipal,
            ToolReply::BadSub => ReplyView::BadSub,
            ToolReply::Saved => ReplyView::Saved,
            ToolReply::Accounts(list) => ReplyView::Accounts(accounts_view(list@)),
            ToolReply::UnknownTool => ReplyView::UnknownTool,
        }
    }
}

/// How the handling of a tool call goes on.
#[derive(Debug, PartialEq, Eq)]
pub enum ToolStep {
    /// The call is answered.
    Done(ToolReply),
    /// The plan was confirmed and is not in the replay guard: `request` is to
    /// be performed on the ledger, and the outcome recorded for `plan`.
    Transfer { plan: TransferPlan, request: TransferFromArgs },
}

/// The mathematical content of a [`ToolStep`].
pub enum StepView {
    Done(ReplyView),
    Transfer { plan: PlanView, request: TransferRequest },
}

impl View for ToolStep {
    type V = StepView;

    open spec fn view(&self) -> StepView {
        match self {
            ToolStep::Done(reply) => StepView::Done(reply@),
            ToolStep::Transfer { plan, request } => StepView::Transfer {
                plan: plan@,
                request: request@,
            },
        }
    }
}

/// The asset that the arguments ask for: the ledger identifier where one is
/// given, else the symbol.
pub open spec fn requested_asset(args: PlanArgsView) -> Seq<char> {
    match args.ledger {
        Some(ledger) => ledger,
        None => match args.symbol {
            Some(symbol) => symbol,
            None => Seq::empty(),
        },
    }
}

/// The reply that tells of a refused draft. A refused asset is named, with the
/// symbols that may stand in its place.
pub open spec fn refusal_reply(refusal: PlanRefusal, args: PlanArgsView) -> ReplyView {
    match refusal {
        PlanRefusal::NeedRecipient => ReplyView::NeedRecipient,
        PlanRefusal::NeedAmount => ReplyView::NeedAmount,
        PlanRefusal::BadToken { error } => ReplyView::BadToken {
            requested: requested_asset(args),
            options: symbols_of(token_table()),
        },
        PlanRefusal::BadAmount { error, decimals } => ReplyView::BadAmount {
            error,
            amount: args.amount_dec,
            example: example_text(decimals),
        },
        PlanRefusal::BadRecipient { error } => ReplyView::BadRecipient { error, to: args.to },
    }
}

/// The plan that a confirmation carries, if it carries a well-formed one.
pub open spec fn confirm_payload(args: JsonModel) -> Option<PlanView> {
    match args.get("plan"@) {
        Some(v) => match decoded_plan(v) {
            Ok(p) => Some(p),
            Err(_) => None,
        },
        None => None,
    }
}

/// What planning a transfer gives, and the state after it.
pub open spec fn plan_step(e: EngineView, caller: Seq<u8>, now: u64, args: JsonModel) -> (
    StepView,
    EngineView,
) {
    match plan_args_of(args) {
        Err(error) => (StepView::Done(ReplyView::BadArgs { error }), e),
        Ok(plan_args) => match plan_outcome(e.accounts, caller, now, plan_args) {
            Ok(p) => (StepView::Done(ReplyView::Planned(p)), with_plan(e, caller, p)),
            Err(refusal) => (StepView::Done(refusal_reply(refusal, plan_args)), e),
        },
    }
}

/// What confirming a transfer gives: the request for the ledger, for the plan
/// that the confirmation selects, unless none is pending for the caller or the
/// replay guard holds its checksum. The state is not changed.
pub open spec fn confirm_step(e: EngineView, caller: Seq<u8>, args: JsonModel) -> StepView {
    match selected_plan(e, caller, confirm_payload(args), text_at(args, "checksum"@)) {
        None => StepView::Done(ReplyView::MissingPlan),
        Some(p) => match execution_gate(e, p) {
            Err(ExecRefusal::DuplicateExecution) => StepView::Done(ReplyView::Duplicate),
            Err(ExecRefusal::MissingOwner) => StepView::Done(
                ReplyView::ExecError { kind: None, error: "missing from_owner"@ },
            ),
            Ok(request) => StepView::Transfer { plan: p, request },
        },
    }
}

/// What saving a recipient gives, and the state after it.
pub open spec fn save_step(e: EngineView, args: JsonModel) -> (StepView, EngineView) {
    match save_args_of(args) {
        Err(error) => (StepView::Done(ReplyView::BadArgs { error }), e),
        Ok(a) => match save_outcome(e.accounts, a.alias, a.owner, a.sub) {
            Err(SaveError::InvalidPrincipal) => (StepView::Done(ReplyView::BadPrincipal), e),
            Err(SaveError::InvalidSubaccount) => (StepView::Done(ReplyView::BadSub), e),
            Ok(after) => (StepView::Done(ReplyView::Saved), EngineView { accounts: after, ..e }),
        },
    }
}

/// What a call of the tool `name` with the arguments `args` gives for
/// `caller` at time `now`, and the state after it.
pub open spec fn tool_step(
    e: EngineView,
    caller: Seq<u8>,
    now: u64,
    name: Seq<char>,
    args: JsonModel,
) -> (StepView, EngineView) {
    if name == "plan_transfer"@ {
        plan_step(e, caller, now, args)
    } else if name == "confirm_transfer"@ {
        (confirm_step(e, caller, args), e)
    } else if name == "save_account"@ {
        save_step(e, args)
    } else if name == "list_accounts"@ {
        (StepView::Done(ReplyView::Accounts(e.accounts)), e)
    } else {
        (StepView::Done(ReplyView::UnknownTool), e)
    }
}

/// The arguments of a call as a JSON object.
pub open spec fn call_arguments(call: ToolCall) -> JsonModel {
    JsonModel::Object(argument_members(argument_views(call.function.arguments@)))
}

/// The asset that the arguments ask for.
fn asset_asked(args: &PlanArgs) -> (r: String)
    ensures
        r@ == requested_asset(args@),
{
    match &args.ledger {
        Some(ledger) => ledger.clone(),
        None => match &args.symbol {
            Some(symbol) => symbol.clone(),
            None => String::new(),
        },
    }
}

/// The reply that tells of a refused draft.
fn reply_for(refusal: PlanRefusal, args: &PlanArgs) -> (r: ToolReply)
    ensures
        r@ == refusal_reply(refusal, args@),
{
    match refusal {
        PlanRefusal::NeedRecipient => ToolReply::NeedRecipient,
        PlanRefusal::NeedAmount => ToolReply::NeedAmount,
        PlanRefusal::BadToken { error } => ToolReply::BadToken {
            requested: asset_asked(args),
            options: token_symbols(),
        },
        PlanRefusal::BadAmount { error, decimals } => ToolReply::BadAmount {
            error,
            amount: args.amount_dec.clone(),
            example: example_for_decimals(decimals),
        },
        PlanRefusal::BadRecipient { error } => ToolReply::BadRecipient {
            error,
            to: args.to.clone(),
        },
    }
}

/// Plan a transfer from the arguments of a call.
fn plan_tool(engine: &mut Engine, caller: &Principal, now: u64, args: &JsonValue) -> (step:
    ToolStep)
    ensures
        (step@, final(engine)@) == plan_step(old(engine)@, caller@, now, args@),
{
    let plan_args = match plan_args_from_json(args) {
        Ok(a) => a,
        Err(error) => {
            return ToolStep::Done(ToolReply::BadArgs { error });
        },
    };
    match engine.plan_transfer(caller, now, &plan_args) {
        Ok(plan) => ToolStep::Done(ToolReply::Planned(plan)),
        Err(refusal) => ToolStep::Done(reply_for(refusal, &plan_args)),
    }
}

/// Decide what a confirmation is for and whether it goes to the ledger.
fn confirm_tool(engine: &Engine, caller: &Principal, args: &JsonValue) -> (step: ToolStep)
    ensures
        step@ == confirm_step(engine@, caller@, args@),
{
    let payload = match args.get("plan") {
        Some(v) => match decode_plan_value(v) {
            Ok(p) => Some(p),
            Err(_) => None,
        },
        None => None,
    };
    let checksum = match args.get("checksum") {
        Some(JsonValue::String(s)) => Some(s.as_str()),
        _ => None,
    };
    let plan = match engine.select_plan(caller, payload, checksum) {
        Some(p) => p,
        None => {
            return ToolStep::Done(ToolReply::MissingPlan);
        },
    };
    match engine.begin_execution(&plan) {
        Err(ExecRefusal::DuplicateExecution) => ToolStep::Done(ToolReply::Duplicate),
        Err(ExecRefusal::MissingOwner) => ToolStep::Done(
            ToolReply::ExecError { kind: None, error: "missing from_owner".to_string() },
        ),
        Ok(request) => ToolStep::Transfer { plan, request },
    }
}

/// Save a recipient from the arguments of a call.
fn save_tool(engine: &mut Engine, args: &JsonValue) -> (step: ToolStep)
    ensures
        (step@, final(engine)@) == save_step(old(engine)@, args@),
{
    let a = match save_args_from_json(args) {
        Ok(a) => a,
        Err(error) => {
            return ToolStep::Done(ToolReply::BadArgs { error });
        },
    };
    match engine.save_account(a.alias, a.owner, a.sub) {
        Ok(()) => ToolStep::Done(ToolReply::Saved),
        Err(SaveError::InvalidPrincipal) => ToolStep::Done(ToolReply::BadPrincipal),
        Err(SaveError::InvalidSubaccount) => ToolStep::Done(ToolReply::BadSub),
    }
}

/// Handle one tool call of `caller` at time `now`.
///
/// Planning stores the drafted plan as pending; a refused draft stores
/// nothing. A confirmation changes nothing by itself: it is either answered
/// at once, or the transfer to perform is handed out.
pub fn handle_tool_call(engine: &mut Engine, caller: &Principal, now: u64, call: &ToolCall) -> (step:
    ToolStep)
    ensures
        (step@, final(engine)@) == tool_step(
            old(engine)@,
            caller@,
            now,
            call.function.name@,
            call_arguments(*call),
        ),
{
    let name = call.function.name.as_str();
    if str_is(name, "plan_transfer") {
        let args = tool_args_json(call);
        plan_tool(engine, caller, now, &args)
    } else if str_is(name, "confirm_transfer") {
        let args = tool_args_json(call);
        confirm_tool(engine, caller, &args)
    } else if str_is(name, "save_account") {
        let args = tool_args_json(call);
        save_tool(engine, &args)
    } else if str_is(name, "list_accounts") {
        let list = list_accounts(engine.accounts());
        assert(accounts_view(list@) =~= engine@.accounts);
        ToolStep::Done(ToolReply::Accounts(list))
    } else {
        ToolStep::Done(ToolReply::UnknownTool)
    }
}

/// The mathematical content of what a ledger answered.
pub open spec fn outcome_view(outcome: Result<Nat, LedgerError>) -> Result<
    nat,
    (LedgerErrorKind, Seq<char>),
> {
    match outcome {
        Ok(block) => Ok(block@),
        Err(e) => Err((e.kind, e.detail@)),
    }
}

/// What recording the ledger's answer for a plan gives, and the state after
/// it: success puts the plan's checksum into the replay guard; failure leaves
/// the state as it was.
pub open spec fn completion(
    e: EngineView,
    p: PlanView,
    outcome: Result<nat, (LedgerErrorKind, Seq<char>)>,
) -> (ReplyView, EngineView) {
    match outcome {
        Ok(block_index) => (
            ReplyView::Executed { block_index },
            with_executed(e, p.checksum, block_index),
        ),
        Err((kind, detail)) => (
            ReplyView::ExecError { kind: Some(kind), error: "ICRC2::"@ + detail },
            e,
        ),
    }
}

/// Record what the ledger answered for a transfer that [`handle_tool_call`]
/// handed out.
pub fn complete_transfer(
    engine: &mut Engine,
    plan: &TransferPlan,
    outcome: Result<Nat, LedgerError>,
) -> (reply: ToolReply)
    ensures
        (reply@, final(engine)@) == completion(old(engine)@, plan@, outcome_view(outcome)),
{
    match outcome {
        Ok(block_index) => {
            engine.finish_execution(plan, Some(block_index.clone()));
            ToolReply::Executed { block_index }
        },
        Err(e) => {
            engine.finish_execution(plan, None);
            let mut error = "ICRC2::".to_string();
            error.append(e.detail.as_str());
            ToolReply::ExecError { kind: Some(e.kind), error }
        },
    }
}

/// At most one transfer goes to the ledger for a checksum: once a transfer
/// has been recorded as performed, no confirmation hands out a transfer for a
/// plan with that checksum again, whoever confirms and whatever the request
/// carries.
pub proof fn lemma_confirm_after_execution(
    e: EngineView,
    executed: PlanView,
    block_index: nat,
    caller: Seq<u8>,
    args: JsonModel,
)
    ensures
        ({
            let after = completion(e, executed, Ok(block_index)).1;
            confirm_step(after, caller, args) matches StepView::Transfer { plan, request }
                ==> plan.checksum != executed.checksum
        }),
{
    let after = with_executed(e, executed.checksum, block_index);
    let selected = selected_plan(after, caller, confirm_payload(args), text_at(args, "checksum"@));
    if selected is Some {
        let p = selected->Some_0;
        if p.checksum == executed.checksum {
            crate::engine::lemma_at_most_once(e, executed, block_index, p);
        }
    }
}

/// A confirmation hands out only a transfer whose source is the caller.
pub proof fn lemma_confirm_owner(e: EngineView, caller: Seq<u8>, args: JsonModel)
    ensures
        confirm_step(e, caller, args) matches StepView::Transfer { plan, request }
            ==> plan.from_owner == Some(caller) && request.from_owner == caller,
{
    crate::engine::lemma_owner_isolation(
        e,
        caller,
        confirm_payload(args),
        text_at(args, "checksum"@),
    );
}

/// A failed transfer changes nothing: the same confirmation gives the same
/// step again.
pub proof fn lemma_failure_is_retryable(
    e: EngineView,
    p: PlanView,
    kind: LedgerErrorKind,
    detail: Seq<char>,
    caller: Seq<u8>,
    args: JsonModel,
)
    ensures
        confirm_step(completion(e, p, Err((kind, detail))).1, caller, args) == confirm_step(
            e,
            caller,
            args,
        ),
{
}

} // verus!
