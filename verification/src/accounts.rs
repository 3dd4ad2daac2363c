//! Saved recipients: aliases that stand for a destination address.

use vstd::prelude::*;

use crate::errors::InvalidInput;
use crate::plan::{sub_view, Subaccount};
use crate::principal::{principal_decoding, Principal};
use crate::seqs::{
    first_index, found, keyed, lemma_absent_not_found, lemma_first_index, lemma_first_index_is,
    lemma_placed_found, lemma_placed_sorted, lemma_sorted_found, not_before, placed,
    sorted_by_key,
};
use crate::text::{chars_eq, chars_less, chars_of, lemma_text_order, text_less};

verus! {

/// Stored reference to a user account alias.
#[derive(Debug, PartialEq, Eq)]
pub struct SavedAccount {
    /// Alias name chosen by the user.
    pub alias: String,
    /// Account owner principal.
    pub owner: Principal,
    /// Optional subaccount.
    pub subaccount: Option<Subaccount>,
}

/// The mathematical content of a [`SavedAccount`].
pub struct SavedAccountView {
    pub alias: Seq<char>,
    pub owner: Seq<u8>,
    pub subaccount: Option<Seq<u8>>,
}

impl View for SavedAccount {
    type V = SavedAccountView;

    open spec fn view(&self) -> SavedAccountView {
        SavedAccountView {
            alias: self.alias@,
            owner: self.owner@,
            subaccount: sub_view(self.subaccount),
        }
    }
}

impl Clone for SavedAccount {
    fn clone(&self) -> (r: Self)
        ensures
            r@ == self@,
    {
        SavedAccount {
            alias: self.alias.clone(),
            owner: self.owner.clone(),
            subaccount: self.subaccount,
        }
    }
}

/// Why an account could not be saved.
#[derive(Clone, Copy, Debug, PartialEq, Eq, Structural)]
pub enum SaveError {
    /// The owner is not the textual form of an identity.
    InvalidPrincipal,
    /// A sub-address was given and is not 32 bytes long.
    InvalidSubaccount,
}

impl SaveError {
    /// The text shown for this refusal.
    pub open spec fn message_text(self) -> Seq<char> {
        match self {
            SaveError::InvalidPrincipal => "principal invalid"@,
            SaveError::InvalidSubaccount => "sub must be 32 bytes"@,
        }
    }

    /// A short message naming what has to be corrected.
    pub fn message(&self) -> (s: String)
        ensures
            s@ == self.message_text(),
    {
        match self {
            SaveError::InvalidPrincipal => "principal invalid".to_string(),
            SaveError::InvalidSubaccount => "sub must be 32 bytes".to_string(),
        }
    }
}

/// The alias of an account.
pub open spec fn alias_of() -> spec_fn(SavedAccountView) -> Seq<char> {
    |a: SavedAccountView| a.alias
}

/// The entry saved under `alias`, if there is one.
pub open spec fn lookup(book: Seq<SavedAccountView>, alias: Seq<char>) -> Option<
    SavedAccountView,
> {
    found(book, keyed(alias_of(), alias))
}

/// The book after `entry` is saved: it takes the place of the entry with the
/// same alias, or its place in the order of the aliases.
pub open spec fn saved(book: Seq<SavedAccountView>, entry: SavedAccountView) -> Seq<
    SavedAccountView,
> {
    placed(book, alias_of(), entry)
}

/// The aliases rise strictly: the book is in the order of its aliases and no
/// alias occurs twice.
pub open spec fn sorted_aliases(book: Seq<SavedAccountView>) -> bool {
    sorted_by_key(book, alias_of())
}

/// Saving keeps the book in order; the saved entry is found under its alias,
/// and every other alias leads to what it led to before: the last save under
/// an alias wins.
pub proof fn lemma_saved(book: Seq<SavedAccountView>, entry: SavedAccountView, other: Seq<char>)
    requires
        sorted_aliases(book),
    ensures
        sorted_aliases(saved(book, entry)),
        lookup(saved(book, entry), entry.alias) == Some(entry),
        other != entry.alias ==> lookup(saved(book, entry), other) == lookup(book, other),
{
    lemma_placed_sorted(book, alias_of(), entry);
    lemma_placed_found(book, alias_of(), entry, other);
}

/// The saved accounts, each alias at most once, in the order of the aliases.
pub struct AccountBook {
    entries: Vec<SavedAccount>,
}

impl View for AccountBook {
    type V = Seq<SavedAccountView>;

    closed spec fn view(&self) -> Seq<SavedAccountView> {
        Seq::new(self.entries@.len(), |i: int| self.entries@[i]@)
    }
}

impl AccountBook {
    #[verifier::type_invariant]
    spec fn well_formed(self) -> bool {
        sorted_aliases(self@)
    }

    /// A book without entries.
    pub fn new() -> (book: AccountBook)
        ensures
            book@ == Seq::<SavedAccountView>::empty(),
    {
        let book = AccountBook { entries: Vec::new() };
        assert(book@ =~= Seq::<SavedAccountView>::empty());
        book
    }

    /// Number of saved accounts; they stand in the order of their aliases.
    pub fn len(&self) -> (n: usize)
        ensures
            n == self@.len(),
            sorted_aliases(self@),
    {
        proof {
            use_type_invariant(self);
        }
        self.entries.len()
    }

    /// Where the first entry stands whose alias does not come before
    /// `alias`, or the number of entries.
    fn rank(&self, alias: &Vec<char>) -> (i: usize)
        ensures
            i == first_index(self@, not_before(alias_of(), alias@)),
            i <= self.entries@.len(),
    {
        let ghost view = self@;
        let ghost pred = not_before(alias_of(), alias@);
        let mut i: usize = 0;
        while i < self.entries.len()
            invariant
                i <= self.entries@.len(),
                view == self@,
                pred == not_before(alias_of(), alias@),
                forall|j: int| 0 <= j < i ==> !pred(#[trigger] view[j]),
            decreases self.entries@.len() - i,
        {
            let have = chars_of(self.entries[i].alias.as_str());
            if !chars_less(&have, alias) {
                proof {
                    assert(pred(view[i as int]));
                    lemma_first_index_is(view, pred, i as int);
                }
                return i;
            }
            assert(!pred(view[i as int]));
            i += 1;
        }
        proof {
            lemma_first_index_is(view, pred, i as int);
        }
        i
    }

    /// The account saved under `alias`, if there is one.
    pub fn get(&self, alias: &str) -> (r: Option<&SavedAccount>)
        ensures
            match r {
                Some(e) => lookup(self@, alias@) == Some(e@),
                None => lookup(self@, alias@) is None,
            },
    {
        proof {
            use_type_invariant(self);
        }
        let key = chars_of(alias);
        let i = self.rank(&key);
        proof {
            lemma_first_index(self@, not_before(alias_of(), alias@));
        }
        if i < self.entries.len() && chars_eq(&chars_of(self.entries[i].alias.as_str()), &key) {
            proof {
                lemma_sorted_found(self@, alias_of(), i as int);
            }
            Some(&self.entries[i])
        } else {
            proof {
                let view = self@;
                assert forall|j: int| 0 <= j < view.len() implies alias_of()(#[trigger] view[j])
                    != alias@ by {
                    if j < i {
                        assert(!not_before(alias_of(), alias@)(view[j]));
                        lemma_text_order(view[j].alias, alias@);
                    } else if j > i {
                        assert(not_before(alias_of(), alias@)(view[i as int]));
                        assert(text_less(alias_of()(view[i as int]), alias_of()(view[j])));
                        lemma_text_order(view[i as int].alias, alias@);
                        lemma_text_order(view[j].alias, alias@);
                        if view[j].alias == alias@ {
                            lemma_text_order(view[i as int].alias, view[j].alias);
                        }
                    }
                }
                lemma_absent_not_found(view, alias_of(), alias@);
            }
            None
        }
    }

    /// Save `entry` under its alias; an earlier entry with that alias is replaced.
    pub fn save(&mut self, entry: SavedAccount)
        ensures
            final(self)@ == saved(old(self)@, entry@),
    {
        proof {
            use_type_invariant(&*self);
            lemma_placed_sorted(self@, alias_of(), entry@);
        }
        let key = chars_of(entry.alias.as_str());
        let i = self.rank(&key);
        let ghost before = self@;
        let replace = i < self.entries.len() && chars_eq(
            &chars_of(self.entries[i].alias.as_str()),
            &key,
        );
        let mut taken = AccountBook::new();
        core::mem::swap(self, &mut taken);
        let AccountBook { entries } = taken;
        let mut entries = entries;
        let ghost stored = entry@;
        if replace {
            entries.set(i, entry);
            assert(Seq::new(entries@.len(), |j: int| entries@[j]@) =~= before.update(
                i as int,
                stored,
            ));
        } else {
            entries.insert(i, entry);
            assert(Seq::new(entries@.len(), |j: int| entries@[j]@) =~= before.insert(
                i as int,
                stored,
            ));
        }
        *self = AccountBook { entries };
    }

    /// Copies of all saved accounts, in the order of the book.
    pub fn list(&self) -> (r: Vec<SavedAccount>)
        ensures
            r@.len() == self@.len(),
            forall|i: int| 0 <= i < r@.len() ==> r@[i]@ == self@[i],
    {
        let mut out: Vec<SavedAccount> = Vec::new();
        let mut k: usize = 0;
        while k < self.entries.len()
            invariant
                k <= self.entries@.len(),
                out@.len() == k,
                forall|j: int| 0 <= j < k ==> out@[j]@ == self.entries@[j]@,
            decreases self.entries@.len() - k,
        {
            out.push(self.entries[k].clone());
            k += 1;
        }
        out
    }
}

/// What resolving the recipient `to` against `book` gives: the address that
/// `to` denotes, without sub-address, if it is a well-formed address; else the
/// account saved under the alias `to`.
pub open spec fn resolved_recipient(book: Seq<SavedAccountView>, to: Seq<char>) -> Result<
    (Seq<u8>, Option<Seq<u8>>),
    InvalidInput,
> {
    match principal_decoding(to) {
        Some(bytes) => Ok((bytes, None)),
        None => match lookup(book, to) {
            Some(entry) => Ok((entry.owner, entry.subaccount)),
            None => Err(InvalidInput::UnknownRecipient),
        },
    }
}

/// The mathematical content of a resolved recipient.
pub open spec fn recipient_view(r: Result<(Principal, Option<Subaccount>), InvalidInput>) -> Result<
    (Seq<u8>, Option<Seq<u8>>),
    InvalidInput,
> {
    match r {
        Ok(t) => Ok((t.0@, sub_view(t.1))),
        Err(e) => Err(e),
    }
}

/// Resolve an alias or principal string to a [`Principal`] and optional subaccount.
pub fn resolve_to(book: &AccountBook, to: &str) -> (r: Result<
    (Principal, Option<Subaccount>),
    InvalidInput,
>)
    ensures
        recipient_view(r) == resolved_recipient(book@, to@),
{
    if let Some(p) = Principal::from_text(to) {
        return Ok((p, None));
    }
    match book.get(to) {
        Some(entry) => Ok((entry.owner.clone(), entry.subaccount)),
        None => Err(InvalidInput::UnknownRecipient),
    }
}

/// The sub-address that 32 bytes make up.
pub fn subaccount_from(bytes: &Vec<u8>) -> (r: Option<Subaccount>)
    ensures
        r is Some <==> bytes@.len() == 32,
        r is Some ==> r->Some_0@ == bytes@,
{
    if bytes.len() != 32 {
        return None;
    }
    let mut sub: Subaccount = [0u8;32];
    let mut i: usize = 0;
    while i < 32
        invariant
            i <= 32,
            bytes@.len() == 32,
            forall|j: int| 0 <= j < i ==> sub@[j] == bytes@[j],
        decreases 32 - i,
    {
        sub[i] = bytes[i];
        i += 1;
    }
    assert(sub@ =~= bytes@);
    Some(sub)
}

/// What saving an account under `alias` does to `book`: the owner must be the
/// textual form of an identity and a sub-address must be 32 bytes long.
pub open spec fn save_outcome(
    book: Seq<SavedAccountView>,
    alias: Seq<char>,
    owner: Seq<char>,
    sub: Option<Seq<u8>>,
) -> Result<Seq<SavedAccountView>, SaveError> {
    match principal_decoding(owner) {
        None => Err(SaveError::InvalidPrincipal),
        Some(bytes) => if sub is Some && sub->Some_0.len() != 32 {
            Err(SaveError::InvalidSubaccount)
        } else {
            Ok(saved(book, SavedAccountView { alias, owner: bytes, subaccount: sub }))
        },
    }
}

/// The bytes of an optional byte vector.
pub open spec fn opt_vec_view(o: Option<Vec<u8>>) -> Option<Seq<u8>> {
    match o {
        Some(v) => Some(v@),
        None => None,
    }
}

/// Save `owner`, with an optional sub-address, under `alias`. The last save
/// under an alias wins. A refused save leaves the book as it was.
pub fn save_account(book: &mut AccountBook, alias: String, owner: String, sub: Option<Vec<u8>>) -> (r:
    Result<(), SaveError>)
    ensures
        match save_outcome(old(book)@, alias@, owner@, opt_vec_view(sub)) {
            Ok(after) => r is Ok && final(book)@ == after,
            Err(e) => r == Err::<(), SaveError>(e) && final(book)@ == old(book)@,
        },
{
    let p = match Principal::from_text(owner.as_str()) {
        Some(p) => p,
        None => {
            return Err(SaveError::InvalidPrincipal);
        },
    };
    let subaccount = match &sub {
        None => None,
        Some(v) => match subaccount_from(v) {
            Some(a) => Some(a),
            None => {
                return Err(SaveError::InvalidSubaccount);
            },
        },
    };
    book.save(SavedAccount { alias, owner: p, subaccount });
    Ok(())
}

/// All saved accounts, in the order of their aliases.
pub fn list_accounts(book: &AccountBook) -> (r: Vec<SavedAccount>)
    ensures
        r@.len() == book@.len(),
        forall|i: int| 0 <= i < r@.len() ==> r@[i]@ == book@[i],
{
    book.list()
}

} // verus!
