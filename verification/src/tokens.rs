//! The allow-list of assets the engine may move value in, and the resolution
//! of an asset reference against it.

use vstd::prelude::*;

use crate::errors::InvalidInput;
use crate::principal::{principal_decoding, Principal};
use crate::seqs::{first_index, lemma_first_index_is};
use crate::text::{chars_eq, chars_of, lowered, to_ascii_lowercase};

verus! {

/// Allowlisted token configuration.
#[derive(Clone, Copy, Debug)]
pub struct TokenEntry {
    /// Human readable token symbol (e.g. "ICP").
    pub symbol: &'static str,
    /// Textual identity of the token's ledger.
    pub ledger: &'static str,
    /// Number of decimal places used by the token.
    pub decimals: u8,
}

/// Position in the allow-list of the entry used when no asset is named.
pub const DEFAULT_TOKEN: usize = 1;

/// The tokens permitted for transfers.
pub open spec fn token_table() -> Seq<TokenEntry> {
    seq![
        TokenEntry { symbol: "ICP", ledger: "<LEDGER_ICP_ID>", decimals: 8 },
        TokenEntry { symbol: "CFX", ledger: "umunu-kh777-77774-qaaca-cai", decimals: 0 },
    ]
}

/// Tokens permitted for transfers.
pub fn tokens() -> (r: Vec<TokenEntry>)
    ensures
        r@ == token_table(),
{
    let mut table: Vec<TokenEntry> = Vec::new();
    table.push(TokenEntry { symbol: "ICP", ledger: "<LEDGER_ICP_ID>", decimals: 8 });
    table.push(
        TokenEntry { symbol: "CFX", ledger: "umunu-kh777-77774-qaaca-cai", decimals: 0 },
    );
    assert(table@ =~= token_table());
    table
}

/// The symbols of a table, in its order.
pub open spec fn symbols_of(table: Seq<TokenEntry>) -> Seq<Seq<char>> {
    Seq::new(table.len(), |i: int| table[i].symbol@)
}

/// The texts that a list of string slices holds.
pub open spec fn texts_of(list: Seq<&'static str>) -> Seq<Seq<char>> {
    Seq::new(list.len(), |i: int| list[i]@)
}

/// Returns all allowlisted token symbols.
pub fn token_symbols() -> (r: Vec<&'static str>)
    ensures
        texts_of(r@) == symbols_of(token_table()),
{
    let table = tokens();
    let mut out: Vec<&'static str> = Vec::new();
    let mut i: usize = 0;
    while i < table.len()
        invariant
            i <= table@.len(),
            out@.len() == i,
            forall|j: int| 0 <= j < i ==> out@[j]@ == table@[j].symbol@,
        decreases table@.len() - i,
    {
        out.push(table[i].symbol);
        i += 1;
    }
    assert(texts_of(out@) =~= symbols_of(table@));
    out
}

/// An example amount for an asset with the given number of decimal places.
pub open spec fn example_text(decimals: u8) -> Seq<char> {
    if decimals == 0 {
        "10"@
    } else {
        "0.5"@
    }
}

/// Provide an example amount string for a given decimal precision.
pub fn example_for_decimals(decimals: u8) -> (r: &'static str)
    ensures
        r@ == example_text(decimals),
{
    if decimals == 0 {
        "10"
    } else {
        "0.5"
    }
}

/// The entries whose ledger is `ledger`.
pub open spec fn has_ledger(ledger: Seq<char>) -> spec_fn(TokenEntry) -> bool {
    |e: TokenEntry| e.ledger@ == ledger
}

/// The entries whose symbol is `symbol` up to ASCII case.
pub open spec fn has_symbol(symbol: Seq<char>) -> spec_fn(TokenEntry) -> bool {
    |e: TokenEntry| lowered(e.symbol@) == lowered(symbol)
}

/// The entry that an asset reference selects: the first with the explicit
/// ledger if one is given, else the first whose symbol is the given one up to
/// ASCII case, else the default entry; `None` where a given ledger or symbol
/// matches no entry.
pub open spec fn selected(
    table: Seq<TokenEntry>,
    default_index: int,
    symbol_opt: Option<Seq<char>>,
    ledger_opt: Option<Seq<char>>,
) -> Option<int> {
    match ledger_opt {
        Some(ledger) => {
            let i = first_index(table, has_ledger(ledger));
            if i < table.len() {
                Some(i)
            } else {
                None
            }
        },
        None => match symbol_opt {
            Some(symbol) => {
                let i = first_index(table, has_symbol(symbol));
                if i < table.len() {
                    Some(i)
                } else {
                    None
                }
            },
            None => Some(default_index),
        },
    }
}

/// The view of an optional string slice.
pub open spec fn opt_text(o: Option<&str>) -> Option<Seq<char>> {
    match o {
        Some(s) => Some(s@),
        None => None,
    }
}

/// What resolving an asset reference gives: the ledger's identity, the
/// decimals and the canonical symbol of the selected entry.
pub open spec fn resolved_token(
    table: Seq<TokenEntry>,
    default_index: int,
    symbol_opt: Option<Seq<char>>,
    ledger_opt: Option<Seq<char>>,
) -> Result<(Seq<u8>, u8, Seq<char>), InvalidInput> {
    match selected(table, default_index, symbol_opt, ledger_opt) {
        None => Err(InvalidInput::UnknownAsset),
        Some(i) => match principal_decoding(table[i].ledger@) {
            None => Err(InvalidInput::InvalidLedgerId),
            Some(bytes) => Ok((bytes, table[i].decimals, table[i].symbol@)),
        },
    }
}

/// The mathematical content of a resolved token.
pub open spec fn token_view(r: Result<(Principal, u8, String), InvalidInput>) -> Result<
    (Seq<u8>, u8, Seq<char>),
    InvalidInput,
> {
    match r {
        Ok(t) => Ok((t.0@, t.1, t.2@)),
        Err(e) => Err(e),
    }
}

/// The entry of `table` that the reference selects.
fn select_entry(
    table: &Vec<TokenEntry>,
    default_index: usize,
    symbol_opt: Option<&str>,
    ledger_opt: Option<&str>,
) -> (pick: Option<usize>)
    requires
        default_index < table@.len(),
    ensures
        match pick {
            Some(i) => i < table@.len() && selected(
                table@,
                default_index as int,
                opt_text(symbol_opt),
                opt_text(ledger_opt),
            ) == Some(i as int),
            None => selected(
                table@,
                default_index as int,
                opt_text(symbol_opt),
                opt_text(ledger_opt),
            ) is None,
        },
{
    match ledger_opt {
        Some(ledger) => {
            let want = chars_of(ledger);
            let ghost pred = has_ledger(ledger@);
            let mut i: usize = 0;
            while i < table.len()
                invariant
                    i <= table@.len(),
                    want@ == ledger@,
                    ledger_opt == Some(ledger),
                    pred == has_ledger(ledger@),
                    forall|j: int| 0 <= j < i ==> !pred(#[trigger] table@[j]),
                decreases table@.len() - i,
            {
                let have = chars_of(table[i].ledger);
                if chars_eq(&have, &want) {
                    proof {
                        assert(pred(table@[i as int]));
                        lemma_first_index_is(table@, pred, i as int);
                    }
                    return Some(i);
                }
                assert(!pred(table@[i as int]));
                i += 1;
            }
            proof {
                lemma_first_index_is(table@, pred, i as int);
            }
            None
        },
        None => match symbol_opt {
            Some(symbol) => {
                let want = to_ascii_lowercase(&chars_of(symbol));
                let ghost pred = has_symbol(symbol@);
                let mut i: usize = 0;
                while i < table.len()
                    invariant
                        i <= table@.len(),
                        want@ == lowered(symbol@),
                        ledger_opt is None,
                        symbol_opt == Some(symbol),
                        pred == has_symbol(symbol@),
                        forall|j: int| 0 <= j < i ==> !pred(#[trigger] table@[j]),
                    decreases table@.len() - i,
                {
                    let have = to_ascii_lowercase(&chars_of(table[i].symbol));
                    if chars_eq(&have, &want) {
                        proof {
                            assert(pred(table@[i as int]));
                            lemma_first_index_is(table@, pred, i as int);
                        }
                        return Some(i);
                    }
                    assert(!pred(table@[i as int]));
                    i += 1;
                }
                proof {
                    lemma_first_index_is(table@, pred, i as int);
                }
                None
            },
            None => Some(default_index),
        },
    }
}

/// Resolve an asset reference against a table: an explicit ledger first, then
/// a symbol (compared without regard to ASCII case), then the default entry.
pub fn resolve_token_in(
    table: &Vec<TokenEntry>,
    default_index: usize,
    symbol_opt: Option<&str>,
    ledger_opt: Option<&str>,
) -> (r: Result<(Principal, u8, String), InvalidInput>)
    requires
        default_index < table@.len(),
    ensures
        token_view(r) == resolved_token(
            table@,
            default_index as int,
            opt_text(symbol_opt),
            opt_text(ledger_opt),
        ),
{
    match select_entry(table, default_index, symbol_opt, ledger_opt) {
        None => Err(InvalidInput::UnknownAsset),
        Some(i) => {
            let entry = &table[i];
            match Principal::from_text(entry.ledger) {
                None => Err(InvalidInput::InvalidLedgerId),
                Some(p) => Ok((p, entry.decimals, entry.symbol.to_string())),
            }
        },
    }
}

/// Resolve token from symbol or ledger based on the allowlist.
pub fn resolve_token(symbol_opt: Option<&str>, ledger_opt: Option<&str>) -> (r: Result<
    (Principal, u8, String),
    InvalidInput,
>)
    ensures
        token_view(r) == resolved_token(
            token_table(),
            DEFAULT_TOKEN as int,
            opt_text(symbol_opt),
            opt_text(ledger_opt),
        ),
{
    let table = tokens();
    resolve_token_in(&table, DEFAULT_TOKEN, symbol_opt, ledger_opt)
}

} // verus!
