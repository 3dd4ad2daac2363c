//! Reading arguments and plans from JSON, and writing plans as JSON.

use vstd::prelude::*;

use crate::accounts::subaccount_from;
use crate::amount::{lemma_limbs_round_trip, limbs_of, limbs_value, Nat};
use crate::json::{
    lemma_member_at, lemma_object_view, member, members_view, JsonMember, JsonModel, JsonNumber,
    JsonValue, Members, NumberModel,
};
use crate::plan::{
    opt_string_view, owner_view, sub_view, Memo, PlanArgs, PlanArgsView, PlanView, Subaccount,
    TransferPlan,
};
use crate::principal::{principal_decoding, principal_encoding, Principal};
use crate::text::{chars_of, starts_with_char, str_is, string_of, trim, trimmed};

verus! {

/// The views of a list of values.
pub open spec fn items_view(items: Seq<JsonValue>) -> Seq<JsonModel> {
    Seq::new(items.len(), |i: int| items[i]@)
}

/// The view of an array is made of the views of its items.
pub proof fn lemma_array_view(items: Vec<JsonValue>)
    ensures
        JsonValue::Array(items)@ == JsonModel::Array(items_view(items@)),
{
    let v = JsonValue::Array(items);
    assert forall|i: int| 0 <= i < items@.len() implies v@->Array_0[i] == items_view(items@)[i] by {}
    assert(v@->Array_0 =~= items_view(items@));
}

/// The text under `key`, if the value under `key` is a string.
pub open spec fn text_at(m: JsonModel, key: Seq<char>) -> Option<Seq<char>> {
    match m.get(key) {
        Some(JsonModel::String(s)) => Some(s),
        _ => None,
    }
}

/// The optional text under `key`: absent where there is no such member or it
/// is `null`; `None` where the member is neither a string nor `null`.
pub open spec fn opt_text_at(m: JsonModel, key: Seq<char>) -> Option<Option<Seq<char>>> {
    match m.get(key) {
        None => Some(None),
        Some(JsonModel::Null) => Some(None),
        Some(JsonModel::String(s)) => Some(Some(s)),
        _ => None,
    }
}

/// The unsigned number under `key`, if there is one.
pub open spec fn u64_at(m: JsonModel, key: Seq<char>) -> Option<u64> {
    match m.get(key) {
        Some(JsonModel::Number(NumberModel::Unsigned(n))) => Some(n),
        _ => None,
    }
}

/// The number that a value is, if it is an unsigned number up to `max`.
pub open spec fn small_number(v: JsonModel, max: u64) -> Option<u64> {
    match v {
        JsonModel::Number(NumberModel::Unsigned(n)) => if n <= max {
            Some(n)
        } else {
            None
        },
        _ => None,
    }
}

/// Every item is an unsigned number up to `max`.
pub open spec fn all_small(items: Seq<JsonModel>, max: u64) -> bool {
    forall|i: int| 0 <= i < items.len() ==> (#[trigger] small_number(items[i], max)) is Some
}

/// The bytes that an array of numbers up to 255 holds.
pub open spec fn byte_items(items: Seq<JsonModel>) -> Option<Seq<u8>> {
    if all_small(items, 255) {
        Some(Seq::new(items.len(), |i: int| small_number(items[i], 255)->Some_0 as u8))
    } else {
        None
    }
}

/// The base-2^32 digits that an array of numbers below 2^32 holds.
pub open spec fn limb_items(items: Seq<JsonModel>) -> Option<Seq<u32>> {
    if all_small(items, 0xffff_ffff) {
        Some(Seq::new(items.len(), |i: int| small_number(items[i], 0xffff_ffff)->Some_0 as u32))
    } else {
        None
    }
}

/// The text of a member that must be a string.
fn field_text(v: &JsonValue, key: &str) -> (r: Option<String>)
    ensures
        opt_string_view(r) == text_at(v@, key@),
{
    match v.get(key) {
        Some(JsonValue::String(s)) => Some(s.clone()),
        _ => None,
    }
}

/// The text of a member that may be absent or `null`.
fn field_opt_text(v: &JsonValue, key: &str) -> (r: Option<Option<String>>)
    ensures
        match r {
            Some(t) => opt_text_at(v@, key@) == Some(opt_string_view(t)),
            None => opt_text_at(v@, key@) is None,
        },
{
    match v.get(key) {
        None => Some(None),
        Some(JsonValue::Null) => Some(None),
        Some(JsonValue::String(s)) => Some(Some(s.clone())),
        _ => None,
    }
}

/// The number of a member that must be an unsigned number.
fn field_u64(v: &JsonValue, key: &str) -> (r: Option<u64>)
    ensures
        r == u64_at(v@, key@),
{
    match v.get(key) {
        Some(JsonValue::Number(JsonNumber::Unsigned(n))) => Some(*n),
        _ => None,
    }
}

/// The number that a value holds, if it is an unsigned number up to `max`.
fn number_up_to(v: &JsonValue, max: u64) -> (r: Option<u64>)
    ensures
        r == small_number(v@, max),
{
    match v {
        JsonValue::Number(JsonNumber::Unsigned(n)) => if *n <= max {
            Some(*n)
        } else {
            None
        },
        _ => None,
    }
}

/// The bytes that an array of numbers holds.
fn bytes_from(items: &Vec<JsonValue>) -> (r: Option<Vec<u8>>)
    ensures
        match r {
            Some(b) => byte_items(items_view(items@)) == Some(b@),
            None => byte_items(items_view(items@)) is None,
        },
{
    let ghost view = items_view(items@);
    let mut out: Vec<u8> = Vec::new();
    let mut i: usize = 0;
    while i < items.len()
        invariant
            i <= items@.len(),
            view == items_view(items@),
            out@.len() == i,
            forall|j: int| 0 <= j < i ==> (#[trigger] small_number(view[j], 255)) is Some,
            forall|j: int| 0 <= j < i ==> out@[j] == small_number(view[j], 255)->Some_0 as u8,
        decreases items@.len() - i,
    {
        match number_up_to(&items[i], 255) {
            Some(n) => {
                out.push(n as u8);
            },
            None => {
                assert(small_number(view[i as int], 255) is None);
                return None;
            },
        }
        i += 1;
    }
    assert(out@ =~= byte_items(view)->Some_0);
    Some(out)
}

/// The base-2^32 digits that an array of numbers holds.
fn limbs_from(items: &Vec<JsonValue>) -> (r: Option<Vec<u32>>)
    ensures
        match r {
            Some(b) => limb_items(items_view(items@)) == Some(b@),
            None => limb_items(items_view(items@)) is None,
        },
{
    let ghost view = items_view(items@);
    let mut out: Vec<u32> = Vec::new();
    let mut i: usize = 0;
    while i < items.len()
        invariant
            i <= items@.len(),
            view == items_view(items@),
            out@.len() == i,
            forall|j: int| 0 <= j < i ==> (#[trigger] small_number(view[j], 0xffff_ffff)) is Some,
            forall|j: int|
                0 <= j < i ==> out@[j] == small_number(view[j], 0xffff_ffff)->Some_0 as u32,
        decreases items@.len() - i,
    {
        match number_up_to(&items[i], 0xffff_ffff) {
            Some(n) => {
                out.push(n as u32);
            },
            None => {
                assert(small_number(view[i as int], 0xffff_ffff) is None);
                return None;
            },
        }
        i += 1;
    }
    assert(out@ =~= limb_items(view)->Some_0);
    Some(out)
}

/// The members that a request to plan a transfer may carry.
pub open spec fn is_plan_argument(name: Seq<char>) -> bool {
    name == "to"@ || name == "amount_dec"@ || name == "symbol"@ || name == "ledger"@ || name
        == "decimals"@ || name == "memo"@
}

/// A member of the arguments of a request.
#[derive(Clone, Copy, Debug, PartialEq, Eq, Structural)]
pub enum ArgField {
    To,
    AmountDec,
    Symbol,
    Ledger,
    Decimals,
    Memo,
    Alias,
    Owner,
    Sub,
}

/// Why the arguments of a request were turned down.
#[derive(Clone, Copy, Debug, PartialEq, Eq, Structural)]
pub enum ArgsError {
    /// The arguments are no JSON object.
    NotAnObject,
    /// A member is present that the request does not know.
    UnknownField,
    /// A member that must be present is absent.
    MissingField { field: ArgField },
    /// A member holds a value of the wrong kind.
    InvalidType { field: ArgField },
}

/// Every member has a name for which `known` holds.
pub open spec fn only_known(members: Members, known: spec_fn(Seq<char>) -> bool) -> bool {
    forall|i: int| 0 <= i < members.len() ==> known(#[trigger] members[i].0)
}

/// The optional small number under `key`: absent where there is no such
/// member or it is `null`; `None` where it is neither an unsigned number up
/// to 255 nor `null`.
pub open spec fn opt_u8_at(m: JsonModel, key: Seq<char>) -> Option<Option<u8>> {
    match m.get(key) {
        None => Some(None),
        Some(JsonModel::Null) => Some(None),
        Some(v) => match small_number(v, 255) {
            Some(n) => Some(Some(n as u8)),
            None => None,
        },
    }
}

/// What a required text member gives.
pub open spec fn required_text(m: JsonModel, key: Seq<char>, field: ArgField) -> Result<
    Seq<char>,
    ArgsError,
> {
    match m.get(key) {
        None => Err(ArgsError::MissingField { field }),
        Some(JsonModel::String(s)) => Ok(s),
        Some(_) => Err(ArgsError::InvalidType { field }),
    }
}

/// What an optional text member gives.
pub open spec fn optional_text(m: JsonModel, key: Seq<char>, field: ArgField) -> Result<
    Option<Seq<char>>,
    ArgsError,
> {
    match opt_text_at(m, key) {
        Some(t) => Ok(t),
        None => Err(ArgsError::InvalidType { field }),
    }
}

/// The arguments of a request to plan a transfer that a JSON value holds: an
/// object with the texts `to` and `amount_dec`, optionally the texts `symbol`,
/// `ledger` and `memo` and the small number `decimals`, and no other member.
pub open spec fn plan_args_of(m: JsonModel) -> Result<PlanArgsView, ArgsError> {
    if !(m is Object) {
        Err(ArgsError::NotAnObject)
    } else if !only_known(m->Object_0, |name: Seq<char>| is_plan_argument(name)) {
        Err(ArgsError::UnknownField)
    } else {
        match required_text(m, "to"@, ArgField::To) {
            Err(e) => Err(e),
            Ok(to) => match required_text(m, "amount_dec"@, ArgField::AmountDec) {
                Err(e) => Err(e),
                Ok(amount_dec) => match optional_text(m, "symbol"@, ArgField::Symbol) {
                    Err(e) => Err(e),
                    Ok(symbol) => match optional_text(m, "ledger"@, ArgField::Ledger) {
                        Err(e) => Err(e),
                        Ok(ledger) => match opt_u8_at(m, "decimals"@) {
                            None => Err(ArgsError::InvalidType { field: ArgField::Decimals }),
                            Some(decimals) => match optional_text(m, "memo"@, ArgField::Memo) {
                                Err(e) => Err(e),
                                Ok(memo) => Ok(
                                    PlanArgsView { to, amount_dec, symbol, ledger, decimals, memo },
                                ),
                            },
                        },
                    },
                },
            },
        }
    }
}

/// A required text member.
fn take_text(v: &JsonValue, key: &str, field: ArgField) -> (r: Result<String, ArgsError>)
    ensures
        match r {
            Ok(s) => required_text(v@, key@, field) == Ok::<Seq<char>, ArgsError>(s@),
            Err(e) => required_text(v@, key@, field) == Err::<Seq<char>, ArgsError>(e),
        },
{
    match v.get(key) {
        None => Err(ArgsError::MissingField { field }),
        Some(JsonValue::String(s)) => Ok(s.clone()),
        Some(_) => Err(ArgsError::InvalidType { field }),
    }
}

/// An optional text member.
fn take_opt_text(v: &JsonValue, key: &str, field: ArgField) -> (r: Result<
    Option<String>,
    ArgsError,
>)
    ensures
        match r {
            Ok(s) => optional_text(v@, key@, field) == Ok::<Option<Seq<char>>, ArgsError>(
                opt_string_view(s),
            ),
            Err(e) => optional_text(v@, key@, field) == Err::<Option<Seq<char>>, ArgsError>(e),
        },
{
    match field_opt_text(v, key) {
        Some(t) => Ok(t),
        None => Err(ArgsError::InvalidType { field }),
    }
}

/// An optional small number.
fn take_opt_u8(v: &JsonValue, key: &str) -> (r: Option<Option<u8>>)
    ensures
        r == opt_u8_at(v@, key@),
{
    match v.get(key) {
        None => Some(None),
        Some(JsonValue::Null) => Some(None),
        Some(x) => match number_up_to(x, 255) {
            Some(n) => Some(Some(n as u8)),
            None => None,
        },
    }
}

/// Whether `name` is one of the arguments of a request to plan a transfer.
fn known_plan_argument(name: &str) -> (r: bool)
    ensures
        r == is_plan_argument(name@),
{
    str_is(name, "to") || str_is(name, "amount_dec") || str_is(name, "symbol") || str_is(
        name,
        "ledger",
    ) || str_is(name, "decimals") || str_is(name, "memo")
}

/// Read the arguments of a request to plan a transfer.
pub fn plan_args_from_json(v: &JsonValue) -> (r: Result<PlanArgs, ArgsError>)
    ensures
        match r {
            Ok(args) => plan_args_of(v@) == Ok::<PlanArgsView, ArgsError>(args@),
            Err(e) => plan_args_of(v@) == Err::<PlanArgsView, ArgsError>(e),
        },
{
    let members = match v {
        JsonValue::Object(members) => members,
        _ => {
            return Err(ArgsError::NotAnObject);
        },
    };
    proof {
        lemma_object_view(*members);
    }
    let ghost view = members_view(members@);
    let ghost known = |name: Seq<char>| is_plan_argument(name);
    let mut i: usize = 0;
    while i < members.len()
        invariant
            i <= members@.len(),
            view == members_view(members@),
            v@ == JsonModel::Object(view),
            known == (|name: Seq<char>| is_plan_argument(name)),
            forall|j: int| 0 <= j < i ==> known(#[trigger] view[j].0),
        decreases members@.len() - i,
    {
        if !known_plan_argument(members[i].key.as_str()) {
            assert(!known(view[i as int].0));
            return Err(ArgsError::UnknownField);
        }
        assert(known(view[i as int].0));
        i += 1;
    }
    assert(only_known(view, known));
    let to = take_text(v, "to", ArgField::To)?;
    let amount_dec = take_text(v, "amount_dec", ArgField::AmountDec)?;
    let symbol = take_opt_text(v, "symbol", ArgField::Symbol)?;
    let ledger = take_opt_text(v, "ledger", ArgField::Ledger)?;
    let decimals = match take_opt_u8(v, "decimals") {
        Some(d) => d,
        None => {
            return Err(ArgsError::InvalidType { field: ArgField::Decimals });
        },
    };
    let memo = take_opt_text(v, "memo", ArgField::Memo)?;
    Ok(PlanArgs { to, amount_dec, symbol, ledger, decimals, memo })
}

/// The arguments of a request to save a recipient.
#[derive(Debug, PartialEq, Eq)]
pub struct SaveArgs {
    pub alias: String,
    pub owner: String,
    pub sub: Option<Vec<u8>>,
}

/// The mathematical content of [`SaveArgs`].
pub struct SaveArgsView {
    pub alias: Seq<char>,
    pub owner: Seq<char>,
    pub sub: Option<Seq<u8>>,
}

impl View for SaveArgs {
    type V = SaveArgsView;

    open spec fn view(&self) -> SaveArgsView {
        SaveArgsView {
            alias: self.alias@,
            owner: self.owner@,
            sub: match self.sub {
                Some(b) => Some(b@),
                None => None,
            },
        }
    }
}

/// The members that a request to save a recipient may carry.
pub open spec fn is_save_argument(name: Seq<char>) -> bool {
    name == "alias"@ || name == "owner"@ || name == "sub"@
}

/// The optional bytes under `key`: absent where there is no such member or
/// it is `null`; `None` where it is neither an array of numbers up to 255 nor
/// `null`.
pub open spec fn opt_bytes_at(m: JsonModel, key: Seq<char>) -> Option<Option<Seq<u8>>> {
    match m.get(key) {
        None => Some(None),
        Some(JsonModel::Null) => Some(None),
        Some(JsonModel::Array(items)) => match byte_items(items) {
            Some(b) => Some(Some(b)),
            None => None,
        },
        _ => None,
    }
}

/// The arguments of a request to save a recipient that a JSON value holds:
/// an object with the texts `alias` and `owner`, optionally the bytes `sub`,
/// and no other member.
pub open spec fn save_args_of(m: JsonModel) -> Result<SaveArgsView, ArgsError> {
    if !(m is Object) {
        Err(ArgsError::NotAnObject)
    } else if !only_known(m->Object_0, |name: Seq<char>| is_save_argument(name)) {
        Err(ArgsError::UnknownField)
    } else {
        match required_text(m, "alias"@, ArgField::Alias) {
            Err(e) => Err(e),
            Ok(alias) => match required_text(m, "owner"@, ArgField::Owner) {
                Err(e) => Err(e),
                Ok(owner) => match opt_bytes_at(m, "sub"@) {
                    None => Err(ArgsError::InvalidType { field: ArgField::Sub }),
                    Some(sub) => Ok(SaveArgsView { alias, owner, sub }),
                },
            },
        }
    }
}

/// The view of optional bytes.
pub open spec fn opt_vec(o: Option<Vec<u8>>) -> Option<Seq<u8>> {
    match o {
        Some(b) => Some(b@),
        None => None,
    }
}

/// Optional bytes under `key`.
fn take_opt_bytes(v: &JsonValue, key: &str) -> (r: Option<Option<Vec<u8>>>)
    ensures
        match r {
            Some(b) => opt_bytes_at(v@, key@) == Some(opt_vec(b)),
            None => opt_bytes_at(v@, key@) is None,
        },
{
    match v.get(key) {
        None => Some(None),
        Some(JsonValue::Null) => Some(None),
        Some(JsonValue::Array(items)) => {
            proof {
                lemma_array_view(*items);
            }
            match bytes_from(items) {
                Some(b) => Some(Some(b)),
                None => None,
            }
        },
        _ => None,
    }
}

/// Whether `name` is one of the arguments of a request to save a recipient.
fn known_save_argument(name: &str) -> (r: bool)
    ensures
        r == is_save_argument(name@),
{
    str_is(name, "alias") || str_is(name, "owner") || str_is(name, "sub")
}

/// Read the arguments of a request to save a recipient.
pub fn save_args_from_json(v: &JsonValue) -> (r: Result<SaveArgs, ArgsError>)
    ensures
        match r {
            Ok(args) => save_args_of(v@) == Ok::<SaveArgsView, ArgsError>(args@),
            Err(e) => save_args_of(v@) == Err::<SaveArgsView, ArgsError>(e),
        },
{
    let members = match v {
        JsonValue::Object(members) => members,
        _ => {
            return Err(ArgsError::NotAnObject);
        },
    };
    proof {
        lemma_object_view(*members);
    }
    let ghost view = members_view(members@);
    let ghost known = |name: Seq<char>| is_save_argument(name);
    let mut i: usize = 0;
    while i < members.len()
        invariant
            i <= members@.len(),
            view == members_view(members@),
            v@ == JsonModel::Object(view),
            known == (|name: Seq<char>| is_save_argument(name)),
            forall|j: int| 0 <= j < i ==> known(#[trigger] view[j].0),
        decreases members@.len() - i,
    {
        if !known_save_argument(members[i].key.as_str()) {
            assert(!known(view[i as int].0));
            return Err(ArgsError::UnknownField);
        }
        assert(known(view[i as int].0));
        i += 1;
    }
    assert(only_known(view, known));
    let alias = take_text(v, "alias", ArgField::Alias)?;
    let owner = take_text(v, "owner", ArgField::Owner)?;
    let sub = match take_opt_bytes(v, "sub") {
        Some(b) => b,
        None => {
            return Err(ArgsError::InvalidType { field: ArgField::Sub });
        },
    };
    Ok(SaveArgs { alias, owner, sub })
}

/// An array with one number for each byte.
pub open spec fn bytes_json(b: Seq<u8>) -> JsonModel {
    JsonModel::Array(Seq::new(b.len(), |i: int| JsonModel::Number(NumberModel::Unsigned(b[i] as u64))))
}

/// An array with one number for each base-2^32 digit.
pub open spec fn limbs_json(d: Seq<u32>) -> JsonModel {
    JsonModel::Array(Seq::new(d.len(), |i: int| JsonModel::Number(NumberModel::Unsigned(d[i] as u64))))
}

/// `null` for absent bytes, else an array with one number for each byte.
pub open spec fn opt_bytes_json(o: Option<Seq<u8>>) -> JsonModel {
    match o {
        Some(b) => bytes_json(b),
        None => JsonModel::Null,
    }
}

/// `null` for an absent identity, else its textual form.
pub open spec fn opt_principal_json(o: Option<Seq<u8>>) -> JsonModel {
    match o {
        Some(b) => JsonModel::String(principal_encoding(b)),
        None => JsonModel::Null,
    }
}

/// A plan as a JSON object: identities in their textual form, sub-addresses
/// and the memo as arrays of bytes, the amount as its base-2^32 digits.
pub open spec fn plan_json(p: PlanView) -> JsonModel {
    JsonModel::Object(
        seq![
            ("from_owner"@, opt_principal_json(p.from_owner)),
            ("from_sub"@, opt_bytes_json(p.from_sub)),
            ("to_principal"@, JsonModel::String(principal_encoding(p.to_principal))),
            ("to_sub"@, opt_bytes_json(p.to_sub)),
            ("amount"@, limbs_json(crate::amount::limbs_of(p.amount))),
            ("symbol"@, JsonModel::String(p.symbol)),
            ("ledger"@, JsonModel::String(principal_encoding(p.ledger))),
            ("memo"@, opt_bytes_json(p.memo)),
            ("created_at_time"@, JsonModel::Number(NumberModel::Unsigned(p.created_at_time))),
            ("human_readable"@, JsonModel::String(p.human_readable)),
            ("checksum"@, JsonModel::String(p.checksum)),
        ],
    )
}

/// An array with one number for each byte.
fn json_of_bytes(b: &[u8]) -> (r: JsonValue)
    ensures
        r@ == bytes_json(b@),
{
    let mut items: Vec<JsonValue> = Vec::new();
    let mut i: usize = 0;
    while i < b.len()
        invariant
            i <= b@.len(),
            items@.len() == i,
            forall|j: int|
                0 <= j < i ==> items@[j]@ == JsonModel::Number(
                    NumberModel::Unsigned(b@[j] as u64),
                ),
        decreases b@.len() - i,
    {
        items.push(JsonValue::Number(JsonNumber::Unsigned(b[i] as u64)));
        i += 1;
    }
    proof {
        lemma_array_view(items);
        assert(items_view(items@) =~= bytes_json(b@)->Array_0);
    }
    JsonValue::Array(items)
}

/// An array with one number for each base-2^32 digit.
fn json_of_limbs(d: &Vec<u32>) -> (r: JsonValue)
    ensures
        r@ == limbs_json(d@),
{
    let mut items: Vec<JsonValue> = Vec::new();
    let mut i: usize = 0;
    while i < d.len()
        invariant
            i <= d@.len(),
            items@.len() == i,
            forall|j: int|
                0 <= j < i ==> items@[j]@ == JsonModel::Number(
                    NumberModel::Unsigned(d@[j] as u64),
                ),
        decreases d@.len() - i,
    {
        items.push(JsonValue::Number(JsonNumber::Unsigned(d[i] as u64)));
        i += 1;
    }
    proof {
        lemma_array_view(items);
        assert(items_view(items@) =~= limbs_json(d@)->Array_0);
    }
    JsonValue::Array(items)
}

/// `null` for an absent sub-address, else its bytes.
fn json_of_sub(sub: &Option<Subaccount>) -> (r: JsonValue)
    ensures
        r@ == opt_bytes_json(sub_view(*sub)),
{
    match sub {
        Some(a) => json_of_bytes(a.as_slice()),
        None => JsonValue::Null,
    }
}

/// A member with the given key.
fn entry(key: &str, value: JsonValue) -> (m: JsonMember)
    ensures
        m.key@ == key@,
        m.value == value,
{
    JsonMember { key: key.to_string(), value }
}

/// Write a plan as a JSON object.
pub fn plan_to_json(plan: &TransferPlan) -> (r: JsonValue)
    ensures
        r@ == plan_json(plan@),
{
    let mut m: Vec<JsonMember> = Vec::new();
    m.push(
        entry(
            "from_owner",
            match &plan.from_owner {
                Some(p) => JsonValue::String(p.to_text()),
                None => JsonValue::Null,
            },
        ),
    );
    m.push(entry("from_sub", json_of_sub(&plan.from_sub)));
    m.push(entry("to_principal", JsonValue::String(plan.to_principal.to_text())));
    m.push(entry("to_sub", json_of_sub(&plan.to_sub)));
    m.push(entry("amount", json_of_limbs(&plan.amount.to_limbs())));
    m.push(entry("symbol", JsonValue::String(plan.symbol.clone())));
    m.push(entry("ledger", JsonValue::String(plan.ledger.to_text())));
    m.push(
        entry(
            "memo",
            match &plan.memo {
                Some(memo) => json_of_bytes(memo.0.as_slice()),
                None => JsonValue::Null,
            },
        ),
    );
    m.push(entry("created_at_time", JsonValue::Number(JsonNumber::Unsigned(plan.created_at_time))));
    m.push(entry("human_readable", JsonValue::String(plan.human_readable.clone())));
    m.push(entry("checksum", JsonValue::String(plan.checksum.clone())));
    proof {
        lemma_object_view(m);
        assert(members_view(m@) =~= plan_json(plan@)->Object_0);
    }
    JsonValue::Object(m)
}

/// Why a value is no plan.
#[derive(Clone, Copy, Debug, PartialEq, Eq, Structural)]
pub enum PayloadError {
    /// The value is neither a JSON object nor a string.
    NotAnObject,
    /// The value is a string that does not begin like a JSON object.
    NotAPlanText,
    /// A member is absent or holds a value of the wrong kind.
    Malformed,
}

impl PayloadError {
    /// The text shown for this refusal.
    pub open spec fn message_text(self) -> Seq<char> {
        match self {
            PayloadError::NotAnObject => "plan must be a JSON object or JSON string"@,
            PayloadError::NotAPlanText => "plan must be a JSON object (from plan_transfer)"@,
            PayloadError::Malformed => "plan is malformed"@,
        }
    }

    /// A short message naming what is wrong with the value.
    pub fn message(&self) -> (s: String)
        ensures
            s@ == self.message_text(),
    {
        match self {
            PayloadError::NotAnObject => "plan must be a JSON object or JSON string".to_string(),
            PayloadError::NotAPlanText => "plan must be a JSON object (from plan_transfer)".to_string(),
            PayloadError::Malformed => "plan is malformed".to_string(),
        }
    }
}

/// The identity under `key`, if the member is the textual form of one.
pub open spec fn principal_at(m: JsonModel, key: Seq<char>) -> Option<Seq<u8>> {
    match text_at(m, key) {
        Some(t) => principal_decoding(t),
        None => None,
    }
}

/// The optional identity under `key`: absent where there is no such member
/// or it is `null`; `None` where it is neither the textual form of an
/// identity nor `null`.
pub open spec fn opt_principal_at(m: JsonModel, key: Seq<char>) -> Option<Option<Seq<u8>>> {
    match m.get(key) {
        None => Some(None),
        Some(JsonModel::Null) => Some(None),
        Some(JsonModel::String(t)) => match principal_decoding(t) {
            Some(b) => Some(Some(b)),
            None => None,
        },
        _ => None,
    }
}

/// The optional sub-address under `key`: optional bytes that, where present,
/// are 32.
pub open spec fn opt_sub_at(m: JsonModel, key: Seq<char>) -> Option<Option<Seq<u8>>> {
    match opt_bytes_at(m, key) {
        Some(Some(b)) => if b.len() == 32 {
            Some(Some(b))
        } else {
            None
        },
        Some(None) => Some(None),
        None => None,
    }
}

/// The amount under `key`: an unsigned number, or an array of base-2^32
/// digits, least significant first.
pub open spec fn amount_at(m: JsonModel, key: Seq<char>) -> Option<nat> {
    match m.get(key) {
        Some(JsonModel::Number(NumberModel::Unsigned(n))) => Some(n as nat),
        Some(JsonModel::Array(items)) => match limb_items(items) {
            Some(d) => Some(limbs_value(d)),
            None => None,
        },
        _ => None,
    }
}

/// The plan that a JSON object holds, if every member of a plan is there in
/// its form.
pub open spec fn plan_of_object(m: JsonModel) -> Option<PlanView> {
    if opt_principal_at(m, "from_owner"@) is Some && opt_sub_at(m, "from_sub"@) is Some
        && principal_at(m, "to_principal"@) is Some && opt_sub_at(m, "to_sub"@) is Some
        && amount_at(m, "amount"@) is Some && text_at(m, "symbol"@) is Some && principal_at(
        m,
        "ledger"@,
    ) is Some && opt_bytes_at(m, "memo"@) is Some && u64_at(m, "created_at_time"@) is Some
        && text_at(m, "human_readable"@) is Some && text_at(m, "checksum"@) is Some {
        Some(
            PlanView {
                from_owner: opt_principal_at(m, "from_owner"@)->Some_0,
                from_sub: opt_sub_at(m, "from_sub"@)->Some_0,
                to_principal: principal_at(m, "to_principal"@)->Some_0,
                to_sub: opt_sub_at(m, "to_sub"@)->Some_0,
                amount: amount_at(m, "amount"@)->Some_0,
                symbol: text_at(m, "symbol"@)->Some_0,
                ledger: principal_at(m, "ledger"@)->Some_0,
                memo: opt_bytes_at(m, "memo"@)->Some_0,
                created_at_time: u64_at(m, "created_at_time"@)->Some_0,
                human_readable: text_at(m, "human_readable"@)->Some_0,
                checksum: text_at(m, "checksum"@)->Some_0,
            },
        )
    } else {
        None
    }
}

/// The plan that a value carries: a JSON object is read as a plan; a string
/// that, without surrounding whitespace, begins with `{` is parsed and then
/// read as a plan.
pub open spec fn decoded_plan(v: JsonModel) -> Result<PlanView, PayloadError> {
    match v {
        JsonModel::Object(_) => match plan_of_object(v) {
            Some(p) => Ok(p),
            None => Err(PayloadError::Malformed),
        },
        JsonModel::String(s) => {
            let t = trimmed(s);
            if t.len() > 0 && t[0] == '{' {
                match crate::json::json_parsing(t) {
                    Some(inner) => match plan_of_object(inner) {
                        Some(p) => Ok(p),
                        None => Err(PayloadError::Malformed),
                    },
                    None => Err(PayloadError::Malformed),
                }
            } else {
                Err(PayloadError::NotAPlanText)
            }
        },
        _ => Err(PayloadError::NotAnObject),
    }
}

/// An identity whose textual form is read back as the identity. Every
/// identity that [`Principal::to_text`] has written is one.
pub open spec fn readable(id: Seq<u8>) -> bool {
    principal_decoding(principal_encoding(id)) == Some(id)
}

/// The bytes that were written as an array are read back from it.
pub proof fn lemma_bytes_are_read_back(b: Seq<u8>)
    ensures
        byte_items(bytes_json(b)->Array_0) == Some(b),
{
    let items = bytes_json(b)->Array_0;
    assert forall|i: int| 0 <= i < items.len() implies (#[trigger] small_number(items[i], 255))
        == Some(b[i] as u64) by {}
    assert(byte_items(items)->Some_0 =~= b);
}

/// The amount that was written as its base-2^32 digits is read back from
/// them.
pub proof fn lemma_amount_is_read_back(n: nat)
    ensures
        limb_items(limbs_json(limbs_of(n))->Array_0) == Some(limbs_of(n)),
        limbs_value(limbs_of(n)) == n,
{
    let d = limbs_of(n);
    let items = limbs_json(d)->Array_0;
    assert forall|i: int| 0 <= i < items.len() implies (#[trigger] small_number(
        items[i],
        0xffff_ffff,
    )) == Some(d[i] as u64) by {}
    assert(limb_items(items)->Some_0 =~= d);
    lemma_limbs_round_trip(n);
}

/// A written plan is read back: decoding the JSON form of a plan gives the
/// plan, where its sub-addresses have 32 bytes and its identities are
/// readable.
pub proof fn lemma_written_plan_is_read_back(p: PlanView)
    requires
        p.from_owner is Some ==> readable(p.from_owner->Some_0),
        readable(p.to_principal),
        readable(p.ledger),
        p.from_sub is Some ==> p.from_sub->Some_0.len() == 32,
        p.to_sub is Some ==> p.to_sub->Some_0.len() == 32,
    ensures
        decoded_plan(plan_json(p)) == Ok::<PlanView, PayloadError>(p),
{
    let m = plan_json(p);
    let members = m->Object_0;
    reveal_strlit("from_owner");
    reveal_strlit("from_sub");
    reveal_strlit("to_principal");
    reveal_strlit("to_sub");
    reveal_strlit("amount");
    reveal_strlit("symbol");
    reveal_strlit("ledger");
    reveal_strlit("memo");
    reveal_strlit("created_at_time");
    reveal_strlit("human_readable");
    reveal_strlit("checksum");
    assert("from_owner"@.len() == 10 && "from_sub"@.len() == 8 && "to_principal"@.len() == 12);
    assert("to_sub"@.len() == 6 && "to_sub"@[0] == 't');
    assert("amount"@.len() == 6 && "amount"@[0] == 'a');
    assert("symbol"@.len() == 6 && "symbol"@[0] == 's');
    assert("ledger"@.len() == 6 && "ledger"@[0] == 'l');
    assert("memo"@.len() == 4 && "created_at_time"@.len() == 15);
    assert("human_readable"@.len() == 14);
    assert("from_sub"@[0] == 'f' && "checksum"@.len() == 8 && "checksum"@[0] == 'c');
    assert(members.len() == 11);
    lemma_member_at(members, 0);
    lemma_member_at(members, 1);
    lemma_member_at(members, 2);
    lemma_member_at(members, 3);
    lemma_member_at(members, 4);
    lemma_member_at(members, 5);
    lemma_member_at(members, 6);
    lemma_member_at(members, 7);
    lemma_member_at(members, 8);
    lemma_member_at(members, 9);
    lemma_member_at(members, 10);
    if p.from_sub is Some {
        lemma_bytes_are_read_back(p.from_sub->Some_0);
    }
    if p.to_sub is Some {
        lemma_bytes_are_read_back(p.to_sub->Some_0);
    }
    if p.memo is Some {
        lemma_bytes_are_read_back(p.memo->Some_0);
    }
    lemma_amount_is_read_back(p.amount);
    assert(opt_principal_at(m, "from_owner"@) == Some(p.from_owner));
    assert(opt_sub_at(m, "from_sub"@) == Some(p.from_sub));
    assert(principal_at(m, "to_principal"@) == Some(p.to_principal));
    assert(opt_sub_at(m, "to_sub"@) == Some(p.to_sub));
    assert(amount_at(m, "amount"@) == Some(p.amount));
    assert(text_at(m, "symbol"@) == Some(p.symbol));
    assert(principal_at(m, "ledger"@) == Some(p.ledger));
    assert(opt_bytes_at(m, "memo"@) == Some(p.memo));
    assert(u64_at(m, "created_at_time"@) == Some(p.created_at_time));
    assert(text_at(m, "human_readable"@) == Some(p.human_readable));
    assert(text_at(m, "checksum"@) == Some(p.checksum));
}

/// A required identity.
fn take_principal(v: &JsonValue, key: &str) -> (r: Option<Principal>)
    ensures
        owner_view(r) == principal_at(v@, key@),
{
    match field_text(v, key) {
        Some(t) => Principal::from_text(t.as_str()),
        None => None,
    }
}

/// An optional identity.
fn take_opt_principal(v: &JsonValue, key: &str) -> (r: Option<Option<Principal>>)
    ensures
        match r {
            Some(p) => opt_principal_at(v@, key@) == Some(owner_view(p)),
            None => opt_principal_at(v@, key@) is None,
        },
{
    match v.get(key) {
        None => Some(None),
        Some(JsonValue::Null) => Some(None),
        Some(JsonValue::String(t)) => match Principal::from_text(t.as_str()) {
            Some(p) => Some(Some(p)),
            None => None,
        },
        _ => None,
    }
}

/// An optional sub-address.
fn take_opt_sub(v: &JsonValue, key: &str) -> (r: Option<Option<Subaccount>>)
    ensures
        match r {
            Some(s) => opt_sub_at(v@, key@) == Some(sub_view(s)),
            None => opt_sub_at(v@, key@) is None,
        },
{
    match take_opt_bytes(v, key) {
        Some(Some(b)) => match subaccount_from(&b) {
            Some(a) => Some(Some(a)),
            None => None,
        },
        Some(None) => Some(None),
        None => None,
    }
}

/// An amount.
fn take_amount(v: &JsonValue, key: &str) -> (r: Option<Nat>)
    ensures
        match r {
            Some(n) => amount_at(v@, key@) == Some(n@),
            None => amount_at(v@, key@) is None,
        },
{
    match v.get(key) {
        Some(JsonValue::Number(JsonNumber::Unsigned(n))) => Some(Nat::from_u64(*n)),
        Some(JsonValue::Array(items)) => {
            proof {
                lemma_array_view(*items);
            }
            match limbs_from(items) {
                Some(d) => Some(Nat::from_limbs(&d)),
                None => None,
            }
        },
        _ => None,
    }
}

/// The view of an optional plan.
pub open spec fn opt_plan(o: Option<TransferPlan>) -> Option<PlanView> {
    match o {
        Some(p) => Some(p@),
        None => None,
    }
}

/// Read a plan from the members of a JSON object.
fn plan_from_object(v: &JsonValue) -> (r: Option<TransferPlan>)
    ensures
        opt_plan(r) == plan_of_object(v@),
{
    let from_owner = take_opt_principal(v, "from_owner")?;
    let from_sub = take_opt_sub(v, "from_sub")?;
    let to_principal = take_principal(v, "to_principal")?;
    let to_sub = take_opt_sub(v, "to_sub")?;
    let amount = take_amount(v, "amount")?;
    let symbol = field_text(v, "symbol")?;
    let ledger = take_principal(v, "ledger")?;
    let memo = match take_opt_bytes(v, "memo")? {
        Some(b) => Some(Memo(b)),
        None => None,
    };
    let created_at_time = field_u64(v, "created_at_time")?;
    let human_readable = field_text(v, "human_readable")?;
    let checksum = field_text(v, "checksum")?;
    Some(
        TransferPlan {
            from_owner,
            from_sub,
            to_principal,
            to_sub,
            amount,
            symbol,
            ledger,
            memo,
            created_at_time,
            human_readable,
            checksum,
        },
    )
}

/// The mathematical content of a plan or a refusal.
pub open spec fn payload_view(r: Result<TransferPlan, PayloadError>) -> Result<
    PlanView,
    PayloadError,
> {
    match r {
        Ok(p) => Ok(p@),
        Err(e) => Err(e),
    }
}

/// Decode a JSON value into a [`TransferPlan`].
pub fn decode_plan_value(v: &JsonValue) -> (r: Result<TransferPlan, PayloadError>)
    ensures
        payload_view(r) == decoded_plan(v@),
{
    match v {
        JsonValue::Object(_) => match plan_from_object(v) {
            Some(p) => Ok(p),
            None => Err(PayloadError::Malformed),
        },
        JsonValue::String(s) => {
            let t = trim(&chars_of(s.as_str()));
            if starts_with_char(&t, '{') {
                match JsonValue::parse(string_of(&t).as_str()) {
                    Some(inner) => match plan_from_object(&inner) {
                        Some(p) => Ok(p),
                        None => Err(PayloadError::Malformed),
                    },
                    None => Err(PayloadError::Malformed),
                }
            } else {
                Err(PayloadError::NotAPlanText)
            }
        },
        _ => Err(PayloadError::NotAnObject),
    }
}

} // verus!
