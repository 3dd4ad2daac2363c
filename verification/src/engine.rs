//! The intent lifecycle: drafting a plan, deciding whether a request confirms
//! it, and executing it at most once.
//!
//! The engine owns all state. It never calls the ledger itself: it hands out
//! the transfer to perform and is told the outcome.

use vstd::prelude::*;

use crate::accounts::{
    resolve_to, resolved_recipient, save_account, save_outcome, opt_vec_view, AccountBook,
    SaveError, SavedAccountView,
};
use crate::amount::{opt_nat_view, scale_amount, scale_outcome, Nat};
use crate::errors::InvalidInput;
use crate::plan::{
    clone_opt_string, draft_plan, drafted, is_placeholder, memo_view, opt_str, placeholder_text,
    sub_view, Memo, PlanArgs, PlanArgsView, PlanView, Subaccount, TransferPlan,
};
use crate::principal::Principal;
use crate::seqs::{
    first_index, found, lemma_first_index, lemma_first_index_is, lemma_put_found, lemma_put_other,
    put,
};
use crate::text::{chars_eq, chars_of};
use crate::tokens::{opt_text, resolve_token, resolved_token, token_table, DEFAULT_TOKEN};

verus! {

/// Why no plan was drafted. Nothing is stored when a draft is refused.
#[derive(Clone, Copy, Debug, PartialEq, Eq, Structural)]
pub enum PlanRefusal {
    /// The recipient is missing or a placeholder.
    NeedRecipient,
    /// The amount is missing or a placeholder.
    NeedAmount,
    /// The asset is not on the allow-list.
    BadToken { error: InvalidInput },
    /// The amount is malformed for the asset, which has `decimals` decimal places.
    BadAmount { error: InvalidInput, decimals: u8 },
    /// The recipient is neither an address nor a saved alias.
    BadRecipient { error: InvalidInput },
}

/// Why a confirmed plan is not handed to the ledger.
#[derive(Clone, Copy, Debug, PartialEq, Eq, Structural)]
pub enum ExecRefusal {
    /// A plan with this checksum has been executed before.
    DuplicateExecution,
    /// The plan names no source owner.
    MissingOwner,
}

/// Where a plan stands in its life.
#[derive(Clone, Copy, Debug, PartialEq, Eq, Structural)]
pub enum IntentStatus {
    Pending,
    Executed,
}

/// An execution that was recorded: the checksum of the plan and the
/// settlement reference that the ledger gave.
#[derive(Debug, PartialEq, Eq)]
pub struct Settlement {
    pub checksum: String,
    pub block_index: Nat,
}

/// The mathematical content of a [`Settlement`].
pub struct SettlementView {
    pub checksum: Seq<char>,
    pub block_index: nat,
}

impl View for Settlement {
    type V = SettlementView;

    open spec fn view(&self) -> SettlementView {
        SettlementView { checksum: self.checksum@, block_index: self.block_index@ }
    }
}

/// An account on a ledger.
#[derive(Debug, PartialEq, Eq)]
pub struct IcrcAccount {
    pub owner: Principal,
    pub subaccount: Option<Subaccount>,
}

/// The transfer that the ledger is asked to perform for a confirmed plan.
#[derive(Debug, PartialEq, Eq)]
pub struct TransferFromArgs {
    /// The ledger to call.
    pub ledger: Principal,
    pub spender_subaccount: Option<Subaccount>,
    pub from: IcrcAccount,
    pub to: IcrcAccount,
    pub amount: Nat,
    pub fee: Option<Nat>,
    pub memo: Option<Memo>,
    pub created_at_time: Option<u64>,
}

/// The mathematical content of [`TransferFromArgs`].
pub struct TransferRequest {
    pub ledger: Seq<u8>,
    pub spender_subaccount: Option<Seq<u8>>,
    pub from_owner: Seq<u8>,
    pub from_sub: Option<Seq<u8>>,
    pub to_owner: Seq<u8>,
    pub to_sub: Option<Seq<u8>>,
    pub amount: nat,
    pub fee: Option<nat>,
    pub memo: Option<Seq<u8>>,
    pub created_at_time: Option<u64>,
}

impl View for TransferFromArgs {
    type V = TransferRequest;

    open spec fn view(&self) -> TransferRequest {
        TransferRequest {
            ledger: self.ledger@,
            spender_subaccount: sub_view(self.spender_subaccount),
            from_owner: self.from.owner@,
            from_sub: sub_view(self.from.subaccount),
            to_owner: self.to.owner@,
            to_sub: sub_view(self.to.subaccount),
            amount: self.amount@,
            fee: match self.fee {
                Some(f) => Some(f@),
                None => None,
            },
            memo: memo_view(self.memo),
            created_at_time: self.created_at_time,
        }
    }
}

/// The request that executes a plan whose source owner is `owner`: source and
/// destination, amount, memo and creation time are the plan's own; no fee is
/// named and the spender's default sub-address is used.
pub open spec fn request_for(p: PlanView, owner: Seq<u8>) -> TransferRequest {
    TransferRequest {
        ledger: p.ledger,
        spender_subaccount: None,
        from_owner: owner,
        from_sub: p.from_sub,
        to_owner: p.to_principal,
        to_sub: p.to_sub,
        amount: p.amount,
        fee: None,
        memo: p.memo,
        created_at_time: Some(p.created_at_time),
    }
}

/// The mathematical content of the engine's state.
pub struct EngineView {
    /// The saved recipients.
    pub accounts: Seq<SavedAccountView>,
    /// The most recent plan of each owner.
    pub last_plans: Seq<PlanView>,
    /// The drafted plans, one for each checksum.
    pub plans: Seq<PlanView>,
    /// The replay guard: the executions that were recorded, oldest first,
    /// at most one for each checksum.
    pub executed: Seq<SettlementView>,
}

/// The plans whose source owner is `owner`.
pub open spec fn owned_by(owner: Seq<u8>) -> spec_fn(PlanView) -> bool {
    |p: PlanView| p.from_owner == Some(owner)
}

/// The plans whose checksum is `checksum`.
pub open spec fn with_checksum(checksum: Seq<char>) -> spec_fn(PlanView) -> bool {
    |p: PlanView| p.checksum == checksum
}

/// The most recent plan that `caller` drafted.
pub open spec fn last_plan_of(e: EngineView, caller: Seq<u8>) -> Option<PlanView> {
    found(e.last_plans, owned_by(caller))
}

/// The plan drafted with `checksum`.
pub open spec fn plan_by_checksum(e: EngineView, checksum: Seq<char>) -> Option<PlanView> {
    found(e.plans, with_checksum(checksum))
}

/// The executions of plans with `checksum`.
pub open spec fn settled_with(checksum: Seq<char>) -> spec_fn(SettlementView) -> bool {
    |s: SettlementView| s.checksum == checksum
}

/// The settlement reference of the plan with `checksum`, if it was executed.
pub open spec fn settlement_of(e: EngineView, checksum: Seq<char>) -> Option<nat> {
    match found(e.executed, settled_with(checksum)) {
        Some(s) => Some(s.block_index),
        None => None,
    }
}

/// Whether a plan with `checksum` has been executed.
pub open spec fn is_executed(e: EngineView, checksum: Seq<char>) -> bool {
    settlement_of(e, checksum) is Some
}

/// The state after `p`, drafted by `caller`, is stored: as the most recent
/// plan of `caller` and under its checksum.
pub open spec fn with_plan(e: EngineView, caller: Seq<u8>, p: PlanView) -> EngineView {
    EngineView {
        last_plans: put(e.last_plans, owned_by(caller), p),
        plans: put(e.plans, with_checksum(p.checksum), p),
        ..e
    }
}

/// The state after the execution of a plan with `checksum` is recorded with
/// the settlement reference `block_index`: the replay guard holds the
/// checksum from then on. What it held before, it keeps.
pub open spec fn with_executed(e: EngineView, checksum: Seq<char>, block_index: nat) -> EngineView {
    EngineView {
        executed: if is_executed(e, checksum) {
            e.executed
        } else {
            e.executed.push(SettlementView { checksum, block_index })
        },
        ..e
    }
}

/// What a request to plan a transfer gives for `caller` at time `now`:
/// recipient and amount must be present, the asset on the allow-list, the
/// amount well formed for the asset, and the recipient an address or a saved
/// alias; then the plan is the draft from the resolved inputs.
pub open spec fn plan_outcome(
    accounts: Seq<SavedAccountView>,
    caller: Seq<u8>,
    now: u64,
    args: PlanArgsView,
) -> Result<PlanView, PlanRefusal> {
    if placeholder_text(args.to) {
        Err(PlanRefusal::NeedRecipient)
    } else if placeholder_text(args.amount_dec) {
        Err(PlanRefusal::NeedAmount)
    } else {
        match resolved_token(token_table(), DEFAULT_TOKEN as int, args.symbol, args.ledger) {
            Err(error) => Err(PlanRefusal::BadToken { error }),
            Ok((ledger, decimals, symbol)) => match scale_outcome(args.amount_dec, decimals) {
                Err(error) => Err(PlanRefusal::BadAmount { error, decimals }),
                Ok(amount) => match resolved_recipient(accounts, args.to) {
                    Err(error) => Err(PlanRefusal::BadRecipient { error }),
                    Ok((to, to_sub)) => Ok(
                        drafted(caller, now, ledger, symbol, amount, to, to_sub, args.memo),
                    ),
                },
            },
        }
    }
}

/// The plan that a confirmation by `caller` selects: the plan carried by the
/// request, else the plan stored under the checksum carried by the request,
/// else the most recent plan of the caller; in each case only a plan whose
/// source owner is the caller.
pub open spec fn selected_plan(
    e: EngineView,
    caller: Seq<u8>,
    payload: Option<PlanView>,
    checksum: Option<Seq<char>>,
) -> Option<PlanView> {
    match payload {
        Some(p) => if p.from_owner == Some(caller) {
            Some(p)
        } else {
            None
        },
        None => match checksum {
            Some(cs) => match plan_by_checksum(e, cs) {
                Some(p) => if p.from_owner == Some(caller) {
                    Some(p)
                } else {
                    None
                },
                None => None,
            },
            None => last_plan_of(e, caller),
        },
    }
}

/// Whether a confirmed plan goes to the ledger, and with which request: not
/// if its checksum is in the replay guard, and not without a source owner.
pub open spec fn execution_gate(e: EngineView, p: PlanView) -> Result<
    TransferRequest,
    ExecRefusal,
> {
    if is_executed(e, p.checksum) {
        Err(ExecRefusal::DuplicateExecution)
    } else {
        match p.from_owner {
            None => Err(ExecRefusal::MissingOwner),
            Some(owner) => Ok(request_for(p, owner)),
        }
    }
}

/// The contents of a list of plans.
pub open spec fn plans_view(plans: Seq<TransferPlan>) -> Seq<PlanView> {
    Seq::new(plans.len(), |i: int| plans[i]@)
}

/// The contents of a list of settlements.
pub open spec fn settlements_view(list: Seq<Settlement>) -> Seq<SettlementView> {
    Seq::new(list.len(), |i: int| list[i]@)
}

/// The view of an optional plan.
pub open spec fn opt_plan_view(o: Option<TransferPlan>) -> Option<PlanView> {
    match o {
        Some(p) => Some(p@),
        None => None,
    }
}

/// The mathematical content of a request or a refusal.
pub open spec fn gate_view(r: Result<TransferFromArgs, ExecRefusal>) -> Result<
    TransferRequest,
    ExecRefusal,
> {
    match r {
        Ok(args) => Ok(args@),
        Err(e) => Err(e),
    }
}

/// The mathematical content of a plan or a refusal.
pub open spec fn draft_view(r: Result<TransferPlan, PlanRefusal>) -> Result<PlanView, PlanRefusal> {
    match r {
        Ok(p) => Ok(p@),
        Err(e) => Err(e),
    }
}

/// Pending plans, saved recipients and the replay guard.
pub struct Engine {
    accounts: AccountBook,
    last_plans: Vec<TransferPlan>,
    plans: Vec<TransferPlan>,
    executed: Vec<Settlement>,
}

impl View for Engine {
    type V = EngineView;

    closed spec fn view(&self) -> EngineView {
        EngineView {
            accounts: self.accounts@,
            last_plans: plans_view(self.last_plans@),
            plans: plans_view(self.plans@),
            executed: settlements_view(self.executed@),
        }
    }
}

/// Where the first plan with source owner `owner` stands, or the number of plans.
fn position_by_owner(plans: &Vec<TransferPlan>, owner: &Principal) -> (i: usize)
    ensures
        i == first_index(plans_view(plans@), owned_by(owner@)),
        i <= plans@.len(),
{
    let ghost view = plans_view(plans@);
    let ghost pred = owned_by(owner@);
    let mut i: usize = 0;
    while i < plans.len()
        invariant
            i <= plans@.len(),
            view == plans_view(plans@),
            pred == owned_by(owner@),
            forall|j: int| 0 <= j < i ==> !pred(#[trigger] view[j]),
        decreases plans@.len() - i,
    {
        let same = match &plans[i].from_owner {
            Some(o) => o.same_as(owner),
            None => false,
        };
        if same {
            proof {
                assert(pred(view[i as int]));
                lemma_first_index_is(view, pred, i as int);
            }
            return i;
        }
        assert(!pred(view[i as int]));
        i += 1;
    }
    proof {
        lemma_first_index_is(view, pred, i as int);
    }
    i
}

/// Where the first plan with `checksum` stands, or the number of plans.
fn position_by_checksum(plans: &Vec<TransferPlan>, checksum: &Vec<char>) -> (i: usize)
    ensures
        i == first_index(plans_view(plans@), with_checksum(checksum@)),
        i <= plans@.len(),
{
    let ghost view = plans_view(plans@);
    let ghost pred = with_checksum(checksum@);
    let mut i: usize = 0;
    while i < plans.len()
        invariant
            i <= plans@.len(),
            view == plans_view(plans@),
            pred == with_checksum(checksum@),
            forall|j: int| 0 <= j < i ==> !pred(#[trigger] view[j]),
        decreases plans@.len() - i,
    {
        let have = chars_of(plans[i].checksum.as_str());
        if chars_eq(&have, checksum) {
            proof {
                assert(pred(view[i as int]));
                lemma_first_index_is(view, pred, i as int);
            }
            return i;
        }
        assert(!pred(view[i as int]));
        i += 1;
    }
    proof {
        lemma_first_index_is(view, pred, i as int);
    }
    i
}

/// Stores `plan` at position `i`, or last if `i` is the number of plans.
fn store_at(plans: &mut Vec<TransferPlan>, i: usize, plan: TransferPlan)
    requires
        i <= old(plans)@.len(),
    ensures
        plans_view(final(plans)@) == (if i < old(plans)@.len() {
            plans_view(old(plans)@).update(i as int, plan@)
        } else {
            plans_view(old(plans)@).push(plan@)
        }),
{
    let ghost before = plans_view(plans@);
    if i < plans.len() {
        plans.set(i, plan);
        assert(plans_view(plans@) =~= before.update(i as int, plan@));
    } else {
        plans.push(plan);
        assert(plans_view(plans@) =~= before.push(plan@));
    }
}

/// Where the execution of the plan with `checksum` stands, or the number of
/// executions.
fn position_of_settlement(list: &Vec<Settlement>, checksum: &Vec<char>) -> (i: usize)
    ensures
        i == first_index(settlements_view(list@), settled_with(checksum@)),
        i <= list@.len(),
{
    let ghost view = settlements_view(list@);
    let ghost pred = settled_with(checksum@);
    let mut i: usize = 0;
    while i < list.len()
        invariant
            i <= list@.len(),
            view == settlements_view(list@),
            pred == settled_with(checksum@),
            forall|j: int| 0 <= j < i ==> !pred(#[trigger] view[j]),
        decreases list@.len() - i,
    {
        let have = chars_of(list[i].checksum.as_str());
        if chars_eq(&have, checksum) {
            proof {
                assert(pred(view[i as int]));
                lemma_first_index_is(view, pred, i as int);
            }
            return i;
        }
        assert(!pred(view[i as int]));
        i += 1;
    }
    proof {
        lemma_first_index_is(view, pred, i as int);
    }
    i
}

impl Engine {
    /// An engine without plans, saved recipients or recorded executions.
    pub fn new() -> (engine: Engine)
        ensures
            engine@.accounts.len() == 0,
            engine@.last_plans.len() == 0,
            engine@.plans.len() == 0,
            engine@.executed.len() == 0,
    {
        Engine {
            accounts: AccountBook::new(),
            last_plans: Vec::new(),
            plans: Vec::new(),
            executed: Vec::new(),
        }
    }

    /// The saved recipients.
    pub fn accounts(&self) -> (book: &AccountBook)
        ensures
            book@ == self@.accounts,
    {
        &self.accounts
    }

    /// Number of plans stored under a checksum.
    pub fn pending_count(&self) -> (n: usize)
        ensures
            n == self@.plans.len(),
    {
        self.plans.len()
    }

    /// Save a recipient; plans and the replay guard are untouched.
    pub fn save_account(&mut self, alias: String, owner: String, sub: Option<Vec<u8>>) -> (r: Result<
        (),
        SaveError,
    >)
        ensures
            match save_outcome(old(self)@.accounts, alias@, owner@, opt_vec_view(sub)) {
                Ok(after) => r is Ok && final(self)@ == (EngineView {
                    accounts: after,
                    ..old(self)@
                }),
                Err(e) => r == Err::<(), SaveError>(e) && final(self)@ == old(self)@,
            },
    {
        save_account(&mut self.accounts, alias, owner, sub)
    }

    /// Draft a plan for `caller` at time `now` and store it as pending.
    ///
    /// On success the plan becomes the most recent plan of `caller` and is
    /// stored under its checksum. A refusal stores nothing.
    pub fn plan_transfer(&mut self, caller: &Principal, now: u64, args: &PlanArgs) -> (r: Result<
        TransferPlan,
        PlanRefusal,
    >)
        ensures
            draft_view(r) == plan_outcome(old(self)@.accounts, caller@, now, args@),
            match r {
                Ok(plan) => final(self)@ == with_plan(old(self)@, caller@, plan@),
                Err(_) => final(self)@ == old(self)@,
            },
    {
        if is_placeholder(args.to.as_str()) {
            return Err(PlanRefusal::NeedRecipient);
        }
        if is_placeholder(args.amount_dec.as_str()) {
            return Err(PlanRefusal::NeedAmount);
        }
        let (ledger, decimals, symbol) = match resolve_token(
            opt_str(&args.symbol),
            opt_str(&args.ledger),
        ) {
            Ok(t) => t,
            Err(error) => {
                return Err(PlanRefusal::BadToken { error });
            },
        };
        let amount = match scale_amount(args.amount_dec.as_str(), decimals) {
            Ok(n) => n,
            Err(error) => {
                return Err(PlanRefusal::BadAmount { error, decimals });
            },
        };
        let (to, to_sub) = match resolve_to(&self.accounts, args.to.as_str()) {
            Ok(t) => t,
            Err(error) => {
                return Err(PlanRefusal::BadRecipient { error });
            },
        };
        let plan = draft_plan(
            caller,
            now,
            ledger,
            symbol,
            amount,
            to,
            to_sub,
            clone_opt_string(&args.memo),
        );
        let i = position_by_owner(&self.last_plans, caller);
        store_at(&mut self.last_plans, i, plan.clone());
        let key = chars_of(plan.checksum.as_str());
        let k = position_by_checksum(&self.plans, &key);
        store_at(&mut self.plans, k, plan.clone());
        Ok(plan)
    }

    /// Decide which pending plan a confirmation by `caller` is for.
    ///
    /// `payload` is the plan that the request carried, if it carried one, and
    /// `checksum` the checksum that it carried, if it carried one. `None`
    /// means that nothing is pending for this request.
    pub fn select_plan(
        &self,
        caller: &Principal,
        payload: Option<TransferPlan>,
        checksum: Option<&str>,
    ) -> (r: Option<TransferPlan>)
        ensures
            opt_plan_view(r) == selected_plan(
                self@,
                caller@,
                opt_plan_view(payload),
                opt_text(checksum),
            ),
    {
        let candidate = match payload {
            Some(p) => Some(p),
            None => match checksum {
                Some(cs) => {
                    let key = chars_of(cs);
                    let i = position_by_checksum(&self.plans, &key);
                    if i < self.plans.len() {
                        Some(self.plans[i].clone())
                    } else {
                        None
                    }
                },
                None => {
                    let i = position_by_owner(&self.last_plans, caller);
                    proof {
                        lemma_first_index(plans_view(self.last_plans@), owned_by(caller@));
                    }
                    if i < self.last_plans.len() {
                        Some(self.last_plans[i].clone())
                    } else {
                        None
                    }
                },
            },
        };
        match candidate {
            Some(p) => {
                let owned = match &p.from_owner {
                    Some(o) => o.same_as(caller),
                    None => false,
                };
                if owned {
                    Some(p)
                } else {
                    None
                }
            },
            None => None,
        }
    }

    /// Whether a plan has been executed.
    pub fn status(&self, plan: &TransferPlan) -> (s: IntentStatus)
        ensures
            s == (if is_executed(self@, plan@.checksum) {
                IntentStatus::Executed
            } else {
                IntentStatus::Pending
            }),
    {
        let key = chars_of(plan.checksum.as_str());
        if position_of_settlement(&self.executed, &key) < self.executed.len() {
            IntentStatus::Executed
        } else {
            IntentStatus::Pending
        }
    }

    /// The settlement reference that was recorded for a plan, if it was
    /// executed.
    pub fn settlement(&self, plan: &TransferPlan) -> (r: Option<Nat>)
        ensures
            opt_nat_view(r) == settlement_of(self@, plan@.checksum),
    {
        let key = chars_of(plan.checksum.as_str());
        let i = position_of_settlement(&self.executed, &key);
        if i < self.executed.len() {
            Some(self.executed[i].block_index.clone())
        } else {
            None
        }
    }

    /// Check the replay guard and build the request for the ledger.
    ///
    /// A refusal means that the ledger must not be called.
    pub fn begin_execution(&self, plan: &TransferPlan) -> (r: Result<TransferFromArgs, ExecRefusal>)
        ensures
            gate_view(r) == execution_gate(self@, plan@),
    {
        let key = chars_of(plan.checksum.as_str());
        if position_of_settlement(&self.executed, &key) < self.executed.len() {
            return Err(ExecRefusal::DuplicateExecution);
        }
        let owner = match &plan.from_owner {
            Some(o) => o.clone(),
            None => {
                return Err(ExecRefusal::MissingOwner);
            },
        };
        Ok(
            TransferFromArgs {
                ledger: plan.ledger.clone(),
                spender_subaccount: None,
                from: IcrcAccount { owner, subaccount: plan.from_sub },
                to: IcrcAccount { owner: plan.to_principal.clone(), subaccount: plan.to_sub },
                amount: plan.amount.clone(),
                fee: None,
                memo: match &plan.memo {
                    Some(m) => Some(m.clone()),
                    None => None,
                },
                created_at_time: Some(plan.created_at_time),
            },
        )
    }

    /// Record what came of the ledger call for `plan`: the settlement
    /// reference if it succeeded, nothing if it failed.
    ///
    /// Only a successful call puts the checksum into the replay guard; a
    /// failed call leaves the state as it was, so that the same confirmation
    /// can be tried again.
    pub fn finish_execution(&mut self, plan: &TransferPlan, settled: Option<Nat>)
        ensures
            final(self)@ == (match settled {
                Some(block_index) => with_executed(old(self)@, plan@.checksum, block_index@),
                None => old(self)@,
            }),
    {
        if let Some(block_index) = settled {
            let key = chars_of(plan.checksum.as_str());
            if position_of_settlement(&self.executed, &key) >= self.executed.len() {
                let ghost before = settlements_view(self.executed@);
                let entry = Settlement { checksum: plan.checksum.clone(), block_index };
                let ghost stored = entry@;
                self.executed.push(entry);
                assert(settlements_view(self.executed@) =~= before.push(stored));
            }
        }
    }
}

/// Once an execution is recorded, the replay guard holds its checksum.
pub proof fn lemma_recorded(e: EngineView, checksum: Seq<char>, block_index: nat)
    ensures
        is_executed(with_executed(e, checksum, block_index), checksum),
{
    let after = with_executed(e, checksum, block_index);
    if !is_executed(e, checksum) {
        lemma_first_index(after.executed, settled_with(checksum));
        assert(settled_with(checksum)(after.executed.last()));
    }
}

/// A plan with a given checksum is handed to the ledger at most once: after
/// its execution is recorded, every plan with that checksum is refused as a
/// duplicate, whatever else it holds.
pub proof fn lemma_at_most_once(
    e: EngineView,
    executed: PlanView,
    block_index: nat,
    again: PlanView,
)
    requires
        again.checksum == executed.checksum,
    ensures
        execution_gate(with_executed(e, executed.checksum, block_index), again) == Err::<
            TransferRequest,
            ExecRefusal,
        >(ExecRefusal::DuplicateExecution),
{
    lemma_recorded(e, executed.checksum, block_index);
}

/// The replay guard only grows: recording an execution and storing a plan
/// keep every checksum that was in it, with its settlement reference.
pub proof fn lemma_replay_guard_grows(
    e: EngineView,
    checksum: Seq<char>,
    block_index: nat,
    caller: Seq<u8>,
    p: PlanView,
    earlier: Seq<char>,
)
    requires
        is_executed(e, earlier),
    ensures
        settlement_of(with_executed(e, checksum, block_index), earlier) == settlement_of(
            e,
            earlier,
        ),
        settlement_of(with_plan(e, caller, p), earlier) == settlement_of(e, earlier),
{
    let after = with_executed(e, checksum, block_index);
    if !is_executed(e, checksum) {
        lemma_first_index(e.executed, settled_with(earlier));
        let i = first_index(e.executed, settled_with(earlier));
        assert forall|j: int| 0 <= j < i implies !settled_with(earlier)(
            #[trigger] after.executed[j],
        ) by {
            assert(after.executed[j] == e.executed[j]);
        }
        assert(after.executed[i] == e.executed[i]);
        lemma_first_index_is(after.executed, settled_with(earlier), i);
    }
}

/// A confirmation never selects a plan of another owner: whatever payload or
/// checksum the request carries, the selected plan's source owner is the
/// caller.
pub proof fn lemma_owner_isolation(
    e: EngineView,
    caller: Seq<u8>,
    payload: Option<PlanView>,
    checksum: Option<Seq<char>>,
)
    ensures
        selected_plan(e, caller, payload, checksum) matches Some(p) ==> p.from_owner == Some(
            caller,
        ),
{
    lemma_first_index(e.last_plans, owned_by(caller));
}

/// A plan that was drafted is found again: as the most recent plan of its
/// owner, and under its checksum.
pub proof fn lemma_drafted_is_pending(e: EngineView, caller: Seq<u8>, p: PlanView)
    requires
        p.from_owner == Some(caller),
    ensures
        last_plan_of(with_plan(e, caller, p), caller) == Some(p),
        plan_by_checksum(with_plan(e, caller, p), p.checksum) == Some(p),
{
    lemma_put_found(e.last_plans, owned_by(caller), p);
    lemma_put_found(e.plans, with_checksum(p.checksum), p);
}

/// Drafting for one owner does not change the most recent plan of another.
pub proof fn lemma_draft_keeps_others(e: EngineView, caller: Seq<u8>, p: PlanView, other: Seq<u8>)
    requires
        p.from_owner == Some(caller),
        other != caller,
    ensures
        last_plan_of(with_plan(e, caller, p), other) == last_plan_of(e, other),
{
    lemma_put_other(e.last_plans, owned_by(caller), p, owned_by(other));
}

} // verus!
