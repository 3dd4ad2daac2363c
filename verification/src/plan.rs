//! Transfer plans: the reviewable proposal that is drafted, confirmed and
//! executed, and the checksum that identifies it.

use vstd::bytes::{spec_u64_to_le_bytes, u64_to_le_bytes};
use vstd::prelude::*;
use vstd::utf8::encode_utf8;

use crate::amount::{amount_text, Nat};
use crate::hashing::{extend_bytes, first_bytes, hex_encode, hex_text, sha256, sha256_digest};
use crate::principal::{principal_encoding, Principal};
use crate::text::{
    chars_eq, chars_of, extend_chars, lowered, string_of, to_ascii_lowercase, trim, trimmed,
};

verus! {

/// Number of digest bytes that make up a checksum.
pub const CHECKSUM_BYTES: usize = 8;

/// A sub-address: 32 bytes.
pub type Subaccount = [u8; 32];

/// The bytes of an optional sub-address.
pub open spec fn sub_view(sub: Option<Subaccount>) -> Option<Seq<u8>> {
    match sub {
        Some(a) => Some(a@),
        None => None,
    }
}

/// Free-form bytes attached to a transfer.
#[derive(Debug, PartialEq, Eq)]
pub struct Memo(pub Vec<u8>);

impl View for Memo {
    type V = Seq<u8>;

    open spec fn view(&self) -> Seq<u8> {
        self.0@
    }
}

impl Clone for Memo {
    fn clone(&self) -> (r: Self)
        ensures
            r@ == self@,
    {
        let bytes = self.0.clone();
        assert(bytes@ =~= self.0@);
        Memo(bytes)
    }
}

/// The bytes of an optional memo.
pub open spec fn memo_view(memo: Option<Memo>) -> Option<Seq<u8>> {
    match memo {
        Some(m) => Some(m@),
        None => None,
    }
}

/// The view of an optional string.
pub open spec fn opt_string_view(o: Option<String>) -> Option<Seq<char>> {
    match o {
        Some(s) => Some(s@),
        None => None,
    }
}

/// A copy of an optional string.
pub fn clone_opt_string(o: &Option<String>) -> (r: Option<String>)
    ensures
        opt_string_view(r) == opt_string_view(*o),
{
    match o {
        Some(s) => Some(s.clone()),
        None => None,
    }
}

/// The string slice inside an optional string.
pub fn opt_str(o: &Option<String>) -> (r: Option<&str>)
    ensures
        r is Some <==> o is Some,
        r is Some ==> r->Some_0@ == o->Some_0@,
{
    match o {
        Some(s) => Some(s.as_str()),
        None => None,
    }
}

/// The bytes of an optional identity.
pub open spec fn owner_view(owner: Option<Principal>) -> Option<Seq<u8>> {
    match owner {
        Some(p) => Some(p@),
        None => None,
    }
}

/// Arguments required to build a [`TransferPlan`].
#[derive(Debug, PartialEq, Eq)]
pub struct PlanArgs {
    /// Recipient principal text or saved alias.
    pub to: String,
    /// Amount represented as a decimal string (e.g. "0.5").
    pub amount_dec: String,
    /// Optional token symbol override.
    pub symbol: Option<String>,
    /// Optional ledger canister id override.
    pub ledger: Option<String>,
    /// Optional explicit decimals for the token.
    pub decimals: Option<u8>,
    /// Optional memo string.
    pub memo: Option<String>,
}

/// The mathematical content of [`PlanArgs`].
pub struct PlanArgsView {
    pub to: Seq<char>,
    pub amount_dec: Seq<char>,
    pub symbol: Option<Seq<char>>,
    pub ledger: Option<Seq<char>>,
    pub decimals: Option<u8>,
    pub memo: Option<Seq<char>>,
}

impl View for PlanArgs {
    type V = PlanArgsView;

    open spec fn view(&self) -> PlanArgsView {
        PlanArgsView {
            to: self.to@,
            amount_dec: self.amount_dec@,
            symbol: opt_string_view(self.symbol),
            ledger: opt_string_view(self.ledger),
            decimals: self.decimals,
            memo: opt_string_view(self.memo),
        }
    }
}

impl Clone for PlanArgs {
    fn clone(&self) -> (r: Self)
        ensures
            r@ == self@,
    {
        PlanArgs {
            to: self.to.clone(),
            amount_dec: self.amount_dec.clone(),
            symbol: clone_opt_string(&self.symbol),
            ledger: clone_opt_string(&self.ledger),
            decimals: self.decimals,
            memo: clone_opt_string(&self.memo),
        }
    }
}

/// Planned transfer: what is shown to the user and executed on confirmation.
#[derive(Debug, PartialEq, Eq)]
pub struct TransferPlan {
    /// Source owner: the caller who drafted the plan.
    pub from_owner: Option<Principal>,
    /// Source subaccount if any.
    pub from_sub: Option<Subaccount>,
    /// Destination principal.
    pub to_principal: Principal,
    /// Destination subaccount if any.
    pub to_sub: Option<Subaccount>,
    /// Amount in minimal units.
    pub amount: Nat,
    /// Canonical token symbol.
    pub symbol: String,
    /// Ledger handling the token.
    pub ledger: Principal,
    /// Optional memo attached to the transfer.
    pub memo: Option<Memo>,
    /// Creation timestamp in nanoseconds.
    pub created_at_time: u64,
    /// Human friendly description of the transfer.
    pub human_readable: String,
    /// Checksum for replay protection.
    pub checksum: String,
}

/// The mathematical content of a [`TransferPlan`].
pub struct PlanView {
    pub from_owner: Option<Seq<u8>>,
    pub from_sub: Option<Seq<u8>>,
    pub to_principal: Seq<u8>,
    pub to_sub: Option<Seq<u8>>,
    pub amount: nat,
    pub symbol: Seq<char>,
    pub ledger: Seq<u8>,
    pub memo: Option<Seq<u8>>,
    pub created_at_time: u64,
    pub human_readable: Seq<char>,
    pub checksum: Seq<char>,
}

impl View for TransferPlan {
    type V = PlanView;

    open spec fn view(&self) -> PlanView {
        PlanView {
            from_owner: owner_view(self.from_owner),
            from_sub: sub_view(self.from_sub),
            to_principal: self.to_principal@,
            to_sub: sub_view(self.to_sub),
            amount: self.amount@,
            symbol: self.symbol@,
            ledger: self.ledger@,
            memo: memo_view(self.memo),
            created_at_time: self.created_at_time,
            human_readable: self.human_readable@,
            checksum: self.checksum@,
        }
    }
}

impl Clone for TransferPlan {
    fn clone(&self) -> (r: Self)
        ensures
            r@ == self@,
    {
        TransferPlan {
            from_owner: match &self.from_owner {
                Some(p) => Some(p.clone()),
                None => None,
            },
            from_sub: self.from_sub,
            to_principal: self.to_principal.clone(),
            to_sub: self.to_sub,
            amount: self.amount.clone(),
            symbol: self.symbol.clone(),
            ledger: self.ledger.clone(),
            memo: match &self.memo {
                Some(m) => Some(m.clone()),
                None => None,
            },
            created_at_time: self.created_at_time,
            human_readable: self.human_readable.clone(),
            checksum: self.checksum.clone(),
        }
    }
}

/// The bytes of an optional field; nothing where the field is absent.
pub open spec fn opt_bytes(o: Option<Seq<u8>>) -> Seq<u8> {
    match o {
        Some(b) => b,
        None => Seq::empty(),
    }
}

/// The bytes that a checksum is computed over: every field that execution
/// depends on, in a fixed order, and neither the summary nor the checksum.
pub open spec fn checksum_preimage(p: PlanView) -> Seq<u8> {
    opt_bytes(p.from_owner) + opt_bytes(p.from_sub) + p.to_principal + opt_bytes(p.to_sub)
        + encode_utf8(amount_text(p.amount)) + encode_utf8(p.symbol) + p.ledger + opt_bytes(
        p.memo,
    ) + spec_u64_to_le_bytes(p.created_at_time)
}

/// The checksum of a plan: the first eight bytes of the SHA-256 digest of its
/// execution-relevant fields, as sixteen hexadecimal digits.
pub open spec fn checksum_text(p: PlanView) -> Seq<char> {
    hex_text(sha256_digest(checksum_preimage(p)).take(CHECKSUM_BYTES as int))
}

/// Compute a checksum for a [`TransferPlan`].
pub fn plan_checksum(p: &TransferPlan) -> (cs: String)
    ensures
        cs@ == checksum_text(p@),
        cs@.len() == 2 * CHECKSUM_BYTES,
{
    let mut data: Vec<u8> = Vec::new();
    if let Some(owner) = &p.from_owner {
        extend_bytes(&mut data, owner.as_slice().as_slice());
    }
    if let Some(sub) = &p.from_sub {
        extend_bytes(&mut data, sub.as_slice());
    }
    extend_bytes(&mut data, p.to_principal.as_slice().as_slice());
    if let Some(sub) = &p.to_sub {
        extend_bytes(&mut data, sub.as_slice());
    }
    let amount = p.amount.to_text();
    extend_bytes(&mut data, amount.as_str().as_bytes());
    extend_bytes(&mut data, p.symbol.as_str().as_bytes());
    extend_bytes(&mut data, p.ledger.as_slice().as_slice());
    if let Some(memo) = &p.memo {
        extend_bytes(&mut data, memo.0.as_slice());
    }
    let stamp = u64_to_le_bytes(p.created_at_time);
    extend_bytes(&mut data, stamp.as_slice());
    assert(data@ =~= checksum_preimage(p@));
    let digest = sha256(&data);
    let head = first_bytes(&digest, CHECKSUM_BYTES);
    hex_encode(&head)
}

/// Two plans that agree on source, destination, amount, asset, memo and
/// creation time have the same checksum, whatever their summaries say and
/// whatever checksum they carry.
pub proof fn lemma_checksum_of_relevant_fields(a: PlanView, b: PlanView)
    requires
        a.from_owner == b.from_owner,
        a.from_sub == b.from_sub,
        a.to_principal == b.to_principal,
        a.to_sub == b.to_sub,
        a.amount == b.amount,
        a.symbol == b.symbol,
        a.ledger == b.ledger,
        a.memo == b.memo,
        a.created_at_time == b.created_at_time,
    ensures
        checksum_text(a) == checksum_text(b),
{
}

/// The one-line description of a plan that the user reviews.
pub open spec fn summary_text(
    amount: nat,
    symbol: Seq<char>,
    to: Seq<u8>,
    ledger: Seq<u8>,
) -> Seq<char> {
    "Send "@ + amount_text(amount) + " "@ + symbol + " to "@ + principal_encoding(to)
        + " (ledger="@ + principal_encoding(ledger) + ")."@
}

/// The memo recorded for a transfer: the user's text, then `|caller:` and the
/// textual form of the caller's identity, as UTF-8.
pub open spec fn memo_text(memo: Seq<char>, caller: Seq<u8>) -> Seq<char> {
    memo + "|caller:"@ + principal_encoding(caller)
}

/// The memo bytes of a draft.
pub open spec fn draft_memo(memo: Option<Seq<char>>, caller: Seq<u8>) -> Option<Seq<u8>> {
    match memo {
        Some(m) => Some(encode_utf8(memo_text(m, caller))),
        None => None,
    }
}

/// The plan that is drafted for `caller` at time `now` from resolved inputs,
/// before its checksum is filled in.
pub open spec fn draft_fields(
    caller: Seq<u8>,
    now: u64,
    ledger: Seq<u8>,
    symbol: Seq<char>,
    amount: nat,
    to: Seq<u8>,
    to_sub: Option<Seq<u8>>,
    memo: Option<Seq<char>>,
) -> PlanView {
    PlanView {
        from_owner: Some(caller),
        from_sub: None,
        to_principal: to,
        to_sub,
        amount,
        symbol,
        ledger,
        memo: draft_memo(memo, caller),
        created_at_time: now,
        human_readable: summary_text(amount, symbol, to, ledger),
        checksum: Seq::empty(),
    }
}

/// The plan that is drafted for `caller` at time `now` from resolved inputs.
pub open spec fn drafted(
    caller: Seq<u8>,
    now: u64,
    ledger: Seq<u8>,
    symbol: Seq<char>,
    amount: nat,
    to: Seq<u8>,
    to_sub: Option<Seq<u8>>,
    memo: Option<Seq<char>>,
) -> PlanView {
    let fields = draft_fields(caller, now, ledger, symbol, amount, to, to_sub, memo);
    PlanView { checksum: checksum_text(fields), ..fields }
}

/// Assemble a plan owned by `caller` from resolved inputs: the source is the
/// caller, the summary and the memo are derived from the inputs, and the
/// checksum is computed over the execution-relevant fields.
pub fn draft_plan(
    caller: &Principal,
    now: u64,
    ledger: Principal,
    symbol: String,
    amount: Nat,
    to: Principal,
    to_sub: Option<Subaccount>,
    memo: Option<String>,
) -> (plan: TransferPlan)
    ensures
        plan@ == drafted(
            caller@,
            now,
            ledger@,
            symbol@,
            amount@,
            to@,
            sub_view(to_sub),
            opt_string_view(memo),
        ),
{
    let mut summary = chars_of("Send ");
    extend_chars(&mut summary, &chars_of(amount.to_text().as_str()));
    extend_chars(&mut summary, &chars_of(" "));
    extend_chars(&mut summary, &chars_of(symbol.as_str()));
    extend_chars(&mut summary, &chars_of(" to "));
    extend_chars(&mut summary, &chars_of(to.to_text().as_str()));
    extend_chars(&mut summary, &chars_of(" (ledger="));
    extend_chars(&mut summary, &chars_of(ledger.to_text().as_str()));
    extend_chars(&mut summary, &chars_of(")."));
    let memo_bytes = match &memo {
        Some(m) => {
            let mut payload = chars_of(m.as_str());
            extend_chars(&mut payload, &chars_of("|caller:"));
            extend_chars(&mut payload, &chars_of(caller.to_text().as_str()));
            let text = string_of(&payload);
            let mut bytes: Vec<u8> = Vec::new();
            extend_bytes(&mut bytes, text.as_str().as_bytes());
            Some(Memo(bytes))
        },
        None => None,
    };
    let mut plan = TransferPlan {
        from_owner: Some(caller.clone()),
        from_sub: None,
        to_principal: to,
        to_sub,
        amount,
        symbol,
        ledger,
        memo: memo_bytes,
        created_at_time: now,
        human_readable: string_of(&summary),
        checksum: String::new(),
    };
    let ghost fields = plan@;
    plan.checksum = plan_checksum(&plan);
    assert(checksum_text(plan@) == checksum_text(fields));
    plan
}

/// A text that stands for a missing value: empty, or one of `unknown`, `tbd`,
/// `-`, `null`, `?`, `n/a`, in any ASCII case and with whitespace around it.
pub open spec fn placeholder_text(s: Seq<char>) -> bool {
    let t = lowered(trimmed(s));
    t.len() == 0 || t == "unknown"@ || t == "tbd"@ || t == "-"@ || t == "null"@ || t == "?"@ || t
        == "n/a"@
}

/// Determine if a string is considered a placeholder value.
pub fn is_placeholder(s: &str) -> (r: bool)
    ensures
        r == placeholder_text(s@),
{
    let t = to_ascii_lowercase(&trim(&chars_of(s)));
    t.len() == 0 || chars_eq(&t, &chars_of("unknown")) || chars_eq(&t, &chars_of("tbd"))
        || chars_eq(&t, &chars_of("-")) || chars_eq(&t, &chars_of("null")) || chars_eq(
        &t,
        &chars_of("?"),
    ) || chars_eq(&t, &chars_of("n/a"))
}

} // verus!
