//! A ledger of balances that stands in for a real one: it mints, transfers
//! and answers with consecutive block numbers.

use vstd::prelude::*;

use crate::amount::Nat;
use crate::principal::{bytes_eq, Principal};
use crate::seqs::{first_index, found, lemma_first_index_is, lemma_put_found, lemma_put_other, put};

verus! {

/// An account on the ledger.
#[derive(Debug, PartialEq, Eq)]
pub struct Account {
    pub owner: Principal,
    /// 32 bytes where present.
    pub subaccount: Option<Vec<u8>>,
}

/// The mathematical content of an [`Account`].
pub struct AccountView {
    pub owner: Seq<u8>,
    pub subaccount: Option<Seq<u8>>,
}

/// The bytes of an optional byte vector.
pub open spec fn bytes_view(o: Option<Vec<u8>>) -> Option<Seq<u8>> {
    match o {
        Some(v) => Some(v@),
        None => None,
    }
}

impl View for Account {
    type V = AccountView;

    open spec fn view(&self) -> AccountView {
        AccountView { owner: self.owner@, subaccount: bytes_view(self.subaccount) }
    }
}

/// A copy of optional bytes.
pub fn clone_bytes(o: &Option<Vec<u8>>) -> (r: Option<Vec<u8>>)
    ensures
        bytes_view(r) == bytes_view(*o),
{
    match o {
        Some(v) => {
            let c = v.clone();
            assert(c@ =~= v@);
            Some(c)
        },
        None => None,
    }
}

impl Clone for Account {
    fn clone(&self) -> (r: Self)
        ensures
            r@ == self@,
    {
        Account { owner: self.owner.clone(), subaccount: clone_bytes(&self.subaccount) }
    }
}

impl Account {
    /// Whether this is the same account as `other`.
    pub fn same_as(&self, other: &Account) -> (r: bool)
        ensures
            r == (self@ == other@),
    {
        if !self.owner.same_as(&other.owner) {
            return false;
        }
        match (&self.subaccount, &other.subaccount) {
            (None, None) => true,
            (Some(a), Some(b)) => bytes_eq(a, b),
            _ => false,
        }
    }
}

/// A request to transfer from an account of the caller.
#[derive(Debug, PartialEq, Eq)]
pub struct TransferArgs {
    pub from_subaccount: Option<Vec<u8>>,
    pub to: Account,
    pub amount: Nat,
    pub fee: Option<Nat>,
    pub memo: Option<Vec<u8>>,
    pub created_at_time: Option<u64>,
}

/// What a ledger is opened with: an account and the amount minted to it.
#[derive(Debug, PartialEq, Eq)]
pub struct InitArg {
    pub mint_to: Account,
    pub amount: Nat,
}

/// Why the ledger refused.
#[derive(Clone, Copy, Debug, PartialEq, Eq, Structural)]
pub enum LedgerRefusal {
    /// Only the administrator can mint.
    NotAdmin,
    /// The amount of a transfer is zero.
    ZeroAmount,
    /// The source holds less than the amount.
    InsufficientFunds,
}

impl LedgerRefusal {
    /// The text shown for this refusal.
    pub open spec fn message_text(self) -> Seq<char> {
        match self {
            LedgerRefusal::NotAdmin => "only admin can mint"@,
            LedgerRefusal::ZeroAmount => "amount must be > 0"@,
            LedgerRefusal::InsufficientFunds => "insufficient funds"@,
        }
    }

    /// A short message naming the refusal.
    pub fn message(&self) -> (s: String)
        ensures
            s@ == self.message_text(),
    {
        match self {
            LedgerRefusal::NotAdmin => "only admin can mint".to_string(),
            LedgerRefusal::ZeroAmount => "amount must be > 0".to_string(),
            LedgerRefusal::InsufficientFunds => "insufficient funds".to_string(),
        }
    }
}

/// An account and what it holds.
#[derive(Debug, PartialEq, Eq)]
pub struct Holding {
    pub account: Account,
    pub balance: Nat,
}

/// The mathematical content of a [`Holding`].
pub struct HoldingView {
    pub account: AccountView,
    pub balance: nat,
}

impl View for Holding {
    type V = HoldingView;

    open spec fn view(&self) -> HoldingView {
        HoldingView { account: self.account@, balance: self.balance@ }
    }
}

/// The mathematical content of a [`Ledger`].
pub struct LedgerView {
    pub holdings: Seq<HoldingView>,
    pub next_block: u128,
    pub admin: Seq<u8>,
}

/// The holdings of `account`.
pub open spec fn of_account(account: AccountView) -> spec_fn(HoldingView) -> bool {
    |h: HoldingView| h.account == account
}

/// What `account` holds: nothing where it has no holding.
pub open spec fn balance_in(holdings: Seq<HoldingView>, account: AccountView) -> nat {
    match found(holdings, of_account(account)) {
        Some(h) => h.balance,
        None => 0,
    }
}

/// The holdings after `account` is set to hold `balance`.
pub open spec fn with_balance(
    holdings: Seq<HoldingView>,
    account: AccountView,
    balance: nat,
) -> Seq<HoldingView> {
    put(holdings, of_account(account), HoldingView { account, balance })
}

/// The holdings after `amount` moves from `from` to `to`: the source is
/// debited first, then the destination is credited.
pub open spec fn moved(
    holdings: Seq<HoldingView>,
    from: AccountView,
    to: AccountView,
    amount: nat,
) -> Seq<HoldingView> {
    let debited = with_balance(holdings, from, (balance_in(holdings, from) - amount) as nat);
    with_balance(debited, to, balance_in(debited, to) + amount)
}

/// What a transfer of `amount` from `from` to `to` gives: the block number,
/// and the ledger after it.
pub open spec fn transfer_outcome(l: LedgerView, from: AccountView, to: AccountView, amount: nat) -> Result<
    (u128, LedgerView),
    LedgerRefusal,
> {
    if amount == 0 {
        Err(LedgerRefusal::ZeroAmount)
    } else if balance_in(l.holdings, from) < amount {
        Err(LedgerRefusal::InsufficientFunds)
    } else {
        Ok(
            (
                l.next_block,
                LedgerView {
                    holdings: moved(l.holdings, from, to, amount),
                    next_block: (l.next_block + 1) as u128,
                    ..l
                },
            ),
        )
    }
}

/// What minting `amount` to `account` by `caller` gives: the new balance, and
/// the ledger after it.
pub open spec fn mint_outcome(l: LedgerView, caller: Seq<u8>, account: AccountView, amount: nat) -> Result<
    (nat, LedgerView),
    LedgerRefusal,
> {
    if caller != l.admin {
        Err(LedgerRefusal::NotAdmin)
    } else {
        let balance = balance_in(l.holdings, account) + amount;
        Ok((balance, LedgerView { holdings: with_balance(l.holdings, account, balance), ..l }))
    }
}

/// The holdings that a list of entries gives when each is set in turn: a
/// later entry for an account replaces an earlier one.
pub open spec fn restored(entries: Seq<HoldingView>) -> Seq<HoldingView>
    decreases entries.len(),
{
    if entries.len() == 0 {
        Seq::empty()
    } else {
        with_balance(restored(entries.drop_last()), entries.last().account, entries.last().balance)
    }
}

/// The contents of a list of holdings.
pub open spec fn holdings_view(holdings: Seq<Holding>) -> Seq<HoldingView> {
    Seq::new(holdings.len(), |i: int| holdings[i]@)
}

/// Balances, the next block number and the administrator.
pub struct Ledger {
    holdings: Vec<Holding>,
    next_block: u128,
    admin: Principal,
}

impl View for Ledger {
    type V = LedgerView;

    closed spec fn view(&self) -> LedgerView {
        LedgerView {
            holdings: holdings_view(self.holdings@),
            next_block: self.next_block,
            admin: self.admin@,
        }
    }
}

/// Where the holding of `account` stands, or the number of holdings.
fn position_of(holdings: &Vec<Holding>, account: &Account) -> (i: usize)
    ensures
        i == first_index(holdings_view(holdings@), of_account(account@)),
        i <= holdings@.len(),
{
    let ghost view = holdings_view(holdings@);
    let ghost pred = of_account(account@);
    let mut i: usize = 0;
    while i < holdings.len()
        invariant
            i <= holdings@.len(),
            view == holdings_view(holdings@),
            pred == of_account(account@),
            forall|j: int| 0 <= j < i ==> !pred(#[trigger] view[j]),
        decreases holdings@.len() - i,
    {
        if holdings[i].account.same_as(account) {
            proof {
                assert(pred(view[i as int]));
                lemma_first_index_is(view, pred, i as int);
            }
            return i;
        }
        assert(!pred(view[i as int]));
        i += 1;
    }
    proof {
        lemma_first_index_is(view, pred, i as int);
    }
    i
}

/// What `account` holds.
fn balance_of(holdings: &Vec<Holding>, account: &Account) -> (b: Nat)
    ensures
        b@ == balance_in(holdings_view(holdings@), account@),
{
    let i = position_of(holdings, account);
    if i < holdings.len() {
        holdings[i].balance.clone()
    } else {
        Nat::from_u64(0)
    }
}

/// Sets `account` to hold `balance`.
fn set_balance(holdings: &mut Vec<Holding>, account: Account, balance: Nat)
    ensures
        holdings_view(final(holdings)@) == with_balance(
            holdings_view(old(holdings)@),
            account@,
            balance@,
        ),
{
    let ghost before = holdings_view(holdings@);
    let ghost entry = HoldingView { account: account@, balance: balance@ };
    let i = position_of(holdings, &account);
    if i < holdings.len() {
        holdings.set(i, Holding { account, balance });
        assert(holdings_view(holdings@) =~= before.update(i as int, entry));
    } else {
        holdings.push(Holding { account, balance });
        assert(holdings_view(holdings@) =~= before.push(entry));
    }
}

impl Ledger {
    /// Open a ledger whose administrator is `caller`, with an optional first
    /// holding.
    pub fn init(caller: Principal, arg: Option<InitArg>) -> (ledger: Ledger)
        ensures
            ledger@.admin == caller@,
            ledger@.next_block == 0,
            ledger@.holdings == (match arg {
                Some(a) => with_balance(Seq::empty(), a.mint_to@, a.amount@),
                None => Seq::empty(),
            }),
    {
        let mut holdings: Vec<Holding> = Vec::new();
        assert(holdings_view(holdings@) =~= Seq::<HoldingView>::empty());
        if let Some(a) = arg {
            set_balance(&mut holdings, a.mint_to, a.amount);
        }
        Ledger { holdings, next_block: 0, admin: caller }
    }

    /// A ledger with the given administrator, next block number and
    /// holdings, as they were saved.
    pub fn restore(admin: Principal, next_block: u128, entries: Vec<Holding>) -> (ledger: Ledger)
        ensures
            ledger@ == (LedgerView {
                holdings: restored(holdings_view(entries@)),
                next_block,
                admin: admin@,
            }),
    {
        let ghost all = holdings_view(entries@);
        let mut holdings: Vec<Holding> = Vec::new();
        let mut i: usize = 0;
        assert(holdings_view(holdings@) =~= restored(all.take(0)));
        while i < entries.len()
            invariant
                i <= entries@.len(),
                all == holdings_view(entries@),
                holdings_view(holdings@) == restored(all.take(i as int)),
            decreases entries@.len() - i,
        {
            proof {
                assert(all.take(i + 1).drop_last() =~= all.take(i as int));
                assert(all.take(i + 1).last() == all[i as int]);
            }
            set_balance(&mut holdings, entries[i].account.clone(), entries[i].balance.clone());
            i += 1;
        }
        assert(all.take(entries@.len() as int) =~= all);
        Ledger { holdings, next_block, admin }
    }

    /// Copies of the holdings, to be saved.
    pub fn holdings(&self) -> (r: Vec<Holding>)
        ensures
            holdings_view(r@) == self@.holdings,
    {
        let mut out: Vec<Holding> = Vec::new();
        let mut i: usize = 0;
        while i < self.holdings.len()
            invariant
                i <= self.holdings@.len(),
                out@.len() == i,
                forall|j: int| 0 <= j < i ==> out@[j]@ == self.holdings@[j]@,
            decreases self.holdings@.len() - i,
        {
            out.push(
                Holding {
                    account: self.holdings[i].account.clone(),
                    balance: self.holdings[i].balance.clone(),
                },
            );
            i += 1;
        }
        assert(holdings_view(out@) =~= self@.holdings);
        out
    }

    /// The administrator.
    pub fn admin(&self) -> (p: &Principal)
        ensures
            p@ == self@.admin,
    {
        &self.admin
    }

    /// What `account` holds.
    pub fn icrc1_balance_of(&self, account: &Account) -> (b: Nat)
        ensures
            b@ == balance_in(self@.holdings, account@),
    {
        balance_of(&self.holdings, account)
    }

    /// The number that the next transfer is answered with.
    pub fn next_block(&self) -> (n: u128)
        ensures
            n == self@.next_block,
    {
        self.next_block
    }

    /// Mint `amount` to `account`; only the administrator may.
    pub fn mint_to(&mut self, caller: &Principal, account: Account, amount: Nat) -> (r: Result<
        Nat,
        LedgerRefusal,
    >)
        ensures
            match mint_outcome(old(self)@, caller@, account@, amount@) {
                Ok((balance, after)) => r matches Ok(b) && b@ == balance && final(self)@ == after,
                Err(e) => r == Err::<Nat, LedgerRefusal>(e) && final(self)@ == old(self)@,
            },
    {
        if !caller.same_as(&self.admin) {
            return Err(LedgerRefusal::NotAdmin);
        }
        let balance = balance_of(&self.holdings, &account).plus(&amount);
        set_balance(&mut self.holdings, account, balance.clone());
        Ok(balance)
    }

    /// Move `args.amount` from the caller's account to `args.to` and answer
    /// with the block number.
    pub fn icrc1_transfer(&mut self, caller: &Principal, args: TransferArgs) -> (r: Result<
        Nat,
        LedgerRefusal,
    >)
        requires
            old(self)@.next_block < u128::MAX,
        ensures
            match transfer_outcome(
                old(self)@,
                AccountView { owner: caller@, subaccount: bytes_view(args.from_subaccount) },
                args.to@,
                args.amount@,
            ) {
                Ok((block, after)) => r matches Ok(b) && b@ == block && final(self)@ == after,
                Err(e) => r == Err::<Nat, LedgerRefusal>(e) && final(self)@ == old(self)@,
            },
    {
        let from = Account { owner: caller.clone(), subaccount: args.from_subaccount };
        if args.amount.is_zero() {
            return Err(LedgerRefusal::ZeroAmount);
        }
        let from_bal = balance_of(&self.holdings, &from);
        let rest = match from_bal.minus(&args.amount) {
            Some(rest) => rest,
            None => {
                return Err(LedgerRefusal::InsufficientFunds);
            },
        };
        set_balance(&mut self.holdings, from, rest);
        let to_bal = balance_of(&self.holdings, &args.to);
        set_balance(&mut self.holdings, args.to, to_bal.plus(&args.amount));
        let block = self.next_block;
        self.next_block = block + 1;
        Ok(Nat::from_u128(block))
    }
}

/// After a transfer between two different accounts the source holds the
/// amount less and the destination the amount more; a transfer of an account
/// to itself leaves its balance as it was; and no other account is touched.
pub proof fn lemma_moved(
    holdings: Seq<HoldingView>,
    from: AccountView,
    to: AccountView,
    amount: nat,
    other: AccountView,
)
    requires
        amount <= balance_in(holdings, from),
        other != from,
        other != to,
    ensures
        from != to ==> balance_in(moved(holdings, from, to, amount), from) == balance_in(
            holdings,
            from,
        ) - amount,
        from != to ==> balance_in(moved(holdings, from, to, amount), to) == balance_in(
            holdings,
            to,
        ) + amount,
        from == to ==> balance_in(moved(holdings, from, to, amount), from) == balance_in(
            holdings,
            from,
        ),
        balance_in(moved(holdings, from, to, amount), other) == balance_in(holdings, other),
{
    let rest = (balance_in(holdings, from) - amount) as nat;
    let debit = HoldingView { account: from, balance: rest };
    let debited = with_balance(holdings, from, rest);
    let credit = HoldingView { account: to, balance: balance_in(debited, to) + amount };
    lemma_put_found(holdings, of_account(from), debit);
    lemma_put_found(debited, of_account(to), credit);
    lemma_put_other(holdings, of_account(from), debit, of_account(other));
    lemma_put_other(debited, of_account(to), credit, of_account(other));
    if from != to {
        lemma_put_other(holdings, of_account(from), debit, of_account(to));
        lemma_put_other(debited, of_account(to), credit, of_account(from));
    }
}

} // verus!
