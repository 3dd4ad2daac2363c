//! JSON values as the engine reads them.

use serde_json::{Number, Value};
use vstd::prelude::*;

use crate::amount::{all_digits, decimal_value, lemma_decimal_value_concat, pow10};
use crate::chat::{argument_views, ToolCall};
use crate::seqs::{first_index, lemma_first_index_is};
use crate::text::{chars_eq, chars_of, copy_range, starts_with_char, str_is, trim, trimmed};

verus! {

/// A JSON number.
#[derive(Debug, PartialEq, Eq)]
pub enum JsonNumber {
    /// A non-negative integer that fits 64 bits.
    Unsigned(u64),
    /// A negative integer that fits 64 bits.
    Negative(i64),
    /// Any other number, by its text.
    Real(String),
}

/// A JSON value.
#[derive(Debug, PartialEq, Eq)]
pub enum JsonValue {
    Null,
    Bool(bool),
    Number(JsonNumber),
    String(String),
    Array(Vec<JsonValue>),
    Object(Vec<JsonMember>),
}

/// A member of a JSON object.
#[derive(Debug, PartialEq, Eq)]
pub struct JsonMember {
    pub key: String,
    pub value: JsonValue,
}

/// The mathematical content of a [`JsonNumber`].
pub enum NumberModel {
    Unsigned(u64),
    Negative(i64),
    Real(Seq<char>),
}

/// The mathematical content of a [`JsonValue`].
pub enum JsonModel {
    Null,
    Bool(bool),
    Number(NumberModel),
    String(Seq<char>),
    Array(Seq<JsonModel>),
    Object(Seq<(Seq<char>, JsonModel)>),
}

impl View for JsonNumber {
    type V = NumberModel;

    open spec fn view(&self) -> NumberModel {
        match self {
            JsonNumber::Unsigned(n) => NumberModel::Unsigned(*n),
            JsonNumber::Negative(n) => NumberModel::Negative(*n),
            JsonNumber::Real(t) => NumberModel::Real(t@),
        }
    }
}

/// The mathematical content of a value.
pub open spec fn model_of(v: JsonValue) -> JsonModel
    decreases v,
{
    match v {
        JsonValue::Null => JsonModel::Null,
        JsonValue::Bool(b) => JsonModel::Bool(b),
        JsonValue::Number(n) => JsonModel::Number(n@),
        JsonValue::String(s) => JsonModel::String(s@),
        JsonValue::Array(items) => JsonModel::Array(
            Seq::new(
                items@.len(),
                |i: int|
                    if 0 <= i < items@.len() {
                        model_of(items@[i])
                    } else {
                        JsonModel::Null
                    },
            ),
        ),
        JsonValue::Object(members) => JsonModel::Object(
            Seq::new(
                members@.len(),
                |i: int|
                    if 0 <= i < members@.len() {
                        (members@[i].key@, model_of(members@[i].value))
                    } else {
                        (Seq::empty(), JsonModel::Null)
                    },
            ),
        ),
    }
}

impl View for JsonValue {
    type V = JsonModel;

    open spec fn view(&self) -> JsonModel {
        model_of(*self)
    }
}

/// What a text parses to as JSON, if it is well-formed JSON.
pub uninterp spec fn json_parsing(text: Seq<char>) -> Option<JsonModel>;

/// The compact JSON text of a value: no whitespace, object members in the
/// order of their keys.
pub uninterp spec fn json_rendering(value: JsonModel) -> Seq<char>;

/// `serde_json::Value`, carried through as an opaque value.
#[verifier::external_type_specification]
#[verifier::external_body]
pub struct ExValue(Value);

/// `serde_json::Number`, carried through as an opaque value.
#[verifier::external_type_specification]
#[verifier::external_body]
pub struct ExNumber(Number);

/// Reads a `serde_json::Number` with `as_u64`, else `as_i64`, else keeps its
/// text. Nothing is claimed of the result.
#[verifier::external_body]
fn lift_number(n: &Number) -> JsonNumber {
    match (n.as_u64(), n.as_i64()) {
        (Some(u), _) => JsonNumber::Unsigned(u),
        (_, Some(i)) => JsonNumber::Negative(i),
        _ => JsonNumber::Real(n.to_string()),
    }
}

/// Tells the variants of a `serde_json::Value` apart and moves what each
/// holds into the matching variant of [`JsonValue`], members in the order of
/// the outside map. Nothing is claimed of the result.
#[verifier::external_body]
fn lift(v: &Value) -> JsonValue {
    match v {
        Value::Null => JsonValue::Null,
        Value::Bool(b) => JsonValue::Bool(*b),
        Value::Number(n) => JsonValue::Number(lift_number(n)),
        Value::String(s) => JsonValue::String(s.clone()),
        Value::Array(a) => JsonValue::Array(a.iter().map(lift).collect()),
        Value::Object(m) => JsonValue::Object(
            m.iter().map(|(k, x)| JsonMember { key: k.clone(), value: lift(x) }).collect(),
        ),
    }
}

/// Builds the `serde_json::Value` that a [`JsonValue`] stands for, variant by
/// variant; the text of a real number is read back with `str::parse`, and a
/// key that occurs twice keeps its last value. Nothing is claimed of the result.
#[verifier::external_body]
fn lower(v: &JsonValue) -> Value {
    match v {
        JsonValue::Null => Value::Null,
        JsonValue::Bool(b) => Value::Bool(*b),
        JsonValue::Number(JsonNumber::Unsigned(u)) => Value::from(*u),
        JsonValue::Number(JsonNumber::Negative(i)) => Value::from(*i),
        JsonValue::Number(JsonNumber::Real(t)) => t.parse().unwrap_or(Value::Null),
        JsonValue::String(s) => Value::String(s.clone()),
        JsonValue::Array(a) => Value::Array(a.iter().map(lower).collect()),
        JsonValue::Object(m) => Value::Object(
            m.iter().map(|e| (e.key.clone(), lower(&e.value))).collect(),
        ),
    }
}

/// Calls `serde_json::from_str` for a `serde_json::Value`; a text that is not
/// well-formed JSON gives `None`. The contract names what the text parses to.
#[verifier::external_body]
fn parse_json(text: &str) -> (r: Option<JsonValue>)
    ensures
        r is Some <==> json_parsing(text@) is Some,
        r is Some ==> json_parsing(text@) == Some(r->Some_0@),
{
    serde_json::from_str::<Value>(text).ok().map(|v| lift(&v))
}

/// Formats the value with `serde_json::Value`'s `Display`, which writes
/// compact JSON. The contract names the text.
#[verifier::external_body]
fn render_json(value: &JsonValue) -> (s: String)
    ensures
        s@ == json_rendering(value@),
{
    lower(value).to_string()
}

impl JsonValue {
    /// The value that a text denotes, if the text is well-formed JSON.
    pub fn parse(text: &str) -> (r: Option<JsonValue>)
        ensures
            r is Some <==> json_parsing(text@) is Some,
            r is Some ==> json_parsing(text@) == Some(r->Some_0@),
    {
        parse_json(text)
    }

    /// The compact JSON text of the value.
    pub fn render(&self) -> (s: String)
        ensures
            s@ == json_rendering(self@),
    {
        render_json(self)
    }
}

/// A copy of a value.
pub fn clone_value(v: &JsonValue) -> (r: JsonValue)
    ensures
        r@ == v@,
    decreases v,
{
    match v {
        JsonValue::Null => JsonValue::Null,
        JsonValue::Bool(b) => JsonValue::Bool(*b),
        JsonValue::Number(n) => JsonValue::Number(match n {
            JsonNumber::Unsigned(u) => JsonNumber::Unsigned(*u),
            JsonNumber::Negative(i) => JsonNumber::Negative(*i),
            JsonNumber::Real(t) => JsonNumber::Real(t.clone()),
        }),
        JsonValue::String(s) => JsonValue::String(s.clone()),
        JsonValue::Array(items) => {
            let mut out: Vec<JsonValue> = Vec::new();
            let mut i: usize = 0;
            while i < items.len()
                invariant
                    i <= items@.len(),
                    out@.len() == i,
                    decreases_to!(v => items),
                    forall|j: int| 0 <= j < i ==> out@[j]@ == items@[j]@,
                decreases items@.len() - i,
            {
                proof {
                    vstd::std_specs::vec::axiom_vec_index_decreases(*items, i as int);
                }
                out.push(clone_value(&items[i]));
                i += 1;
            }
            let r = JsonValue::Array(out);
            assert(r@->Array_0 =~= v@->Array_0);
            r
        },
        JsonValue::Object(members) => {
            let mut out: Vec<JsonMember> = Vec::new();
            let mut i: usize = 0;
            while i < members.len()
                invariant
                    i <= members@.len(),
                    out@.len() == i,
                    decreases_to!(v => members),
                    forall|j: int| 0 <= j < i ==> out@[j].key@ == members@[j].key@ && out@[j].value@ == members@[j].value@,
                decreases members@.len() - i,
            {
                proof {
                    vstd::std_specs::vec::axiom_vec_index_decreases(*members, i as int);
                }
                out.push(JsonMember { key: members[i].key.clone(), value: clone_value(&members[i].value) });
                i += 1;
            }
            let r = JsonValue::Object(out);
            assert(r@->Object_0 =~= v@->Object_0);
            r
        },
    }
}

impl Clone for JsonValue {
    fn clone(&self) -> (r: Self)
        ensures
            r@ == self@,
    {
        clone_value(self)
    }
}

/// The members of an object: keys and values, in order.
pub type Members = Seq<(Seq<char>, JsonModel)>;

/// The members with `key`.
pub open spec fn with_key(key: Seq<char>) -> spec_fn((Seq<char>, JsonModel)) -> bool {
    |m: (Seq<char>, JsonModel)| m.0 == key
}

/// Where the member with `key` stands, or the number of members.
pub open spec fn member_index(members: Members, key: Seq<char>) -> int {
    first_index(members, with_key(key))
}

/// The value of the first member with `key`, if there is one.
pub open spec fn member(members: Members, key: Seq<char>) -> Option<JsonModel> {
    let i = member_index(members, key);
    if i < members.len() {
        Some(members[i].1)
    } else {
        None
    }
}

/// The place of the first member with `key` is where `member_index` points.
pub proof fn lemma_member_index_is(members: Members, key: Seq<char>, i: int)
    requires
        0 <= i <= members.len(),
        i < members.len() ==> members[i].0 == key,
        forall|j: int| 0 <= j < i ==> (#[trigger] members[j]).0 != key,
    ensures
        member_index(members, key) == i,
{
    lemma_first_index_is(members, with_key(key), i);
}

/// A member before which no member has its key is what is found under its
/// key.
pub proof fn lemma_member_at(members: Members, i: int)
    requires
        0 <= i < members.len(),
        forall|j: int| 0 <= j < i ==> (#[trigger] members[j]).0 != members[i].0,
    ensures
        member(members, members[i].0) == Some(members[i].1),
{
    lemma_member_index_is(members, members[i].0, i);
}

/// The members after `value` is set under `key`: in place of the first member
/// with that key, or last.
pub open spec fn with_member(members: Members, key: Seq<char>, value: JsonModel) -> Members {
    let i = member_index(members, key);
    if i < members.len() {
        members.update(i, (key, value))
    } else {
        members.push((key, value))
    }
}

impl JsonModel {
    /// The value under `key`, if this is an object that has such a member.
    pub open spec fn get(self, key: Seq<char>) -> Option<JsonModel> {
        match self {
            JsonModel::Object(members) => member(members, key),
            _ => None,
        }
    }

    /// The text, if this is a string.
    pub open spec fn as_text(self) -> Option<Seq<char>> {
        match self {
            JsonModel::String(s) => Some(s),
            _ => None,
        }
    }
}

/// The keys and values of a list of members.
pub open spec fn members_view(members: Seq<JsonMember>) -> Members {
    Seq::new(members.len(), |i: int| (members[i].key@, members[i].value@))
}

/// The view of an object is made of the views of its members.
pub proof fn lemma_object_view(members: Vec<JsonMember>)
    ensures
        JsonValue::Object(members)@ == JsonModel::Object(members_view(members@)),
{
    let v = JsonValue::Object(members);
    assert(v@ is Object);
    assert(v@->Object_0.len() == members@.len());
    assert forall|i: int| 0 <= i < members@.len() implies v@->Object_0[i] == members_view(
        members@,
    )[i] by {}
    assert(v@->Object_0 =~= members_view(members@));
}

/// Where the member with `key` stands in `members`, or their number.
fn position_of(members: &Vec<JsonMember>, key: &Vec<char>) -> (i: usize)
    ensures
        i == member_index(members_view(members@), key@),
        i <= members@.len(),
{
    let ghost view = members_view(members@);
    let ghost pred = with_key(key@);
    let mut i: usize = 0;
    while i < members.len()
        invariant
            i <= members@.len(),
            view == members_view(members@),
            pred == with_key(key@),
            forall|j: int| 0 <= j < i ==> !pred(#[trigger] view[j]),
        decreases members@.len() - i,
    {
        let have = chars_of(members[i].key.as_str());
        if chars_eq(&have, key) {
            proof {
                assert(pred(view[i as int]));
                lemma_first_index_is(view, pred, i as int);
            }
            return i;
        }
        assert(!pred(view[i as int]));
        i += 1;
    }
    proof {
        lemma_first_index_is(view, pred, i as int);
    }
    i
}

/// Sets `value` under `key`: in place of the first member with that key, or last.
pub fn set_member(members: &mut Vec<JsonMember>, key: String, value: JsonValue)
    ensures
        members_view(final(members)@) == with_member(members_view(old(members)@), key@, value@),
{
    let ghost before = members_view(members@);
    let name = chars_of(key.as_str());
    let i = position_of(members, &name);
    if i < members.len() {
        members.set(i, JsonMember { key, value });
    } else {
        members.push(JsonMember { key, value });
    }
    assert(members_view(members@) =~= with_member(before, key@, value@));
}

impl JsonValue {
    /// The value under `key`, if this is an object that has such a member.
    pub fn get(&self, key: &str) -> (r: Option<&JsonValue>)
        ensures
            match r {
                Some(v) => self@.get(key@) == Some(v@),
                None => self@.get(key@) is None,
            },
    {
        match self {
            JsonValue::Object(members) => {
                proof {
                    lemma_object_view(*members);
                }
                let name = chars_of(key);
                let i = position_of(members, &name);
                if i < members.len() {
                    Some(&members[i].value)
                } else {
                    None
                }
            },
            _ => None,
        }
    }

    /// A JSON string with the characters of `text`.
    pub fn text(text: &str) -> (r: JsonValue)
        ensures
            r@ == JsonModel::String(text@),
    {
        JsonValue::String(text.to_string())
    }

    /// The JSON number `n`.
    pub fn unsigned(n: u64) -> (r: JsonValue)
        ensures
            r@ == JsonModel::Number(NumberModel::Unsigned(n)),
    {
        JsonValue::Number(JsonNumber::Unsigned(n))
    }
}

/// The number that a text denotes: an optional `+` and then decimal digits,
/// at least one, that stay within 64 bits.
pub open spec fn unsigned_text(s: Seq<char>) -> Option<u64> {
    let d = if s.len() > 0 && s[0] == '+' {
        s.skip(1)
    } else {
        s
    };
    if d.len() > 0 && all_digits(d) && decimal_value(d) <= u64::MAX {
        Some(decimal_value(d) as u64)
    } else {
        None
    }
}

/// A number is at least as large as any of its leading digits read alone.
pub proof fn lemma_prefix_value(s: Seq<char>, k: int)
    requires
        0 <= k <= s.len(),
    ensures
        decimal_value(s.take(k)) <= decimal_value(s),
{
    let a = s.take(k);
    let b = s.skip(k);
    assert(a + b =~= s);
    lemma_decimal_value_concat(a, b);
    lemma_pow10_positive(b.len());
    assert(decimal_value(a) * pow10(b.len()) >= decimal_value(a)) by (nonlinear_arith)
        requires
            pow10(b.len()) >= 1,
    ;
}

/// A power of ten is at least one.
pub proof fn lemma_pow10_positive(k: nat)
    ensures
        pow10(k) >= 1,
    decreases k,
{
    if k > 0 {
        lemma_pow10_positive((k - 1) as nat);
    }
}

/// Read an unsigned number of at most 64 bits from decimal text.
pub fn parse_u64(s: &Vec<char>) -> (r: Option<u64>)
    ensures
        r == unsigned_text(s@),
{
    let start: usize = if s.len() > 0 && s[0] == '+' {
        1
    } else {
        0
    };
    let d = copy_range(s, start, s.len());
    assert(d@ =~= if s@.len() > 0 && s@[0] == '+' {
        s@.skip(1)
    } else {
        s@
    });
    if d.len() == 0 {
        return None;
    }
    let mut acc: u64 = 0;
    let mut i: usize = 0;
    while i < d.len()
        invariant
            i <= d@.len(),
            d@.len() > 0,
            d@ == (if s@.len() > 0 && s@[0] == '+' {
                s@.skip(1)
            } else {
                s@
            }),
            acc == decimal_value(d@.take(i as int)),
            forall|j: int| 0 <= j < i ==> crate::amount::is_digit(#[trigger] d@[j]),
        decreases d@.len() - i,
    {
        let c = d[i];
        if !('0' <= c && c <= '9') {
            assert(!crate::amount::is_digit(d@[i as int]));
            return None;
        }
        let digit: u64 = (c as u8 - 48) as u64;
        proof {
            assert(d@.take(i + 1).drop_last() =~= d@.take(i as int));
            assert(d@.take(i + 1).last() == c);
            lemma_prefix_value(d@, i + 1);
        }
        if acc > (u64::MAX - digit) / 10 {
            return None;
        }
        acc = acc * 10 + digit;
        i += 1;
    }
    assert(d@.take(d@.len() as int) =~= d@);
    Some(acc)
}

/// The number that a value stands for: a number itself; for a string, the
/// unsigned number that its text denotes.
pub open spec fn number_of(v: JsonModel) -> Option<JsonModel> {
    match v {
        JsonModel::Number(_) => Some(v),
        JsonModel::String(s) => match unsigned_text(s) {
            Some(n) => Some(JsonModel::Number(NumberModel::Unsigned(n))),
            None => None,
        },
        _ => None,
    }
}

/// Coerce a JSON value to a number when possible.
pub fn to_number(v: &JsonValue) -> (r: Option<JsonValue>)
    ensures
        match r {
            Some(n) => number_of(v@) == Some(n@),
            None => number_of(v@) is None,
        },
{
    match v {
        JsonValue::Number(_) => Some(clone_value(v)),
        JsonValue::String(s) => match parse_u64(&chars_of(s.as_str())) {
            Some(n) => Some(JsonValue::Number(JsonNumber::Unsigned(n))),
            None => None,
        },
        _ => None,
    }
}

/// The string that a value stands for: a string itself; for any other value,
/// its compact JSON text.
pub open spec fn string_of_value(v: JsonModel) -> JsonModel {
    match v {
        JsonModel::String(_) => v,
        other => JsonModel::String(json_rendering(other)),
    }
}

/// Convert any JSON value to a string representation.
pub fn to_string(_raw: &str, v: &JsonValue) -> (r: JsonValue)
    ensures
        r@ == string_of_value(v@),
{
    match v {
        JsonValue::String(s) => JsonValue::String(s.clone()),
        other => JsonValue::String(other.render()),
    }
}

/// Whether a text, taken without surrounding whitespace, begins like a JSON
/// object or array.
pub open spec fn looks_nested(s: Seq<char>) -> bool {
    let t = trimmed(s);
    t.len() > 0 && (t[0] == '{' || t[0] == '[')
}

/// What the value of an argument is read as: the JSON it parses to; where
/// that is a string that itself looks like an object or an array and parses,
/// what that string parses to; where the value is no JSON, the value as a string.
pub open spec fn parsed_argument(value: Seq<char>) -> JsonModel {
    match json_parsing(value) {
        Some(JsonModel::String(inner)) => if looks_nested(inner) {
            match json_parsing(inner) {
                Some(v) => v,
                None => JsonModel::String(inner),
            }
        } else {
            JsonModel::String(inner)
        },
        Some(v) => v,
        None => JsonModel::String(value),
    }
}

/// An argument that is always handed on as a string.
pub open spec fn is_text_argument(name: Seq<char>) -> bool {
    name == "to"@ || name == "symbol"@ || name == "ledger"@ || name == "memo"@ || name
        == "amount_dec"@
}

/// What an argument is handed on as: a string for the textual arguments, a
/// number (zero where none can be read) for `decimals`, and what it was read
/// as for any other.
pub open spec fn coerced_argument(name: Seq<char>, value: Seq<char>) -> JsonModel {
    let parsed = parsed_argument(value);
    if is_text_argument(name) {
        string_of_value(parsed)
    } else if name == "decimals"@ {
        match number_of(parsed) {
            Some(n) => n,
            None => JsonModel::Number(NumberModel::Unsigned(0)),
        }
    } else {
        parsed
    }
}

/// The members that a list of arguments gives; a later argument replaces an
/// earlier one with the same name.
pub open spec fn argument_members(args: Seq<(Seq<char>, Seq<char>)>) -> Members
    decreases args.len(),
{
    if args.len() == 0 {
        Seq::empty()
    } else {
        with_member(
            argument_members(args.drop_last()),
            args.last().0,
            coerced_argument(args.last().0, args.last().1),
        )
    }
}

/// Read the value of one argument.
fn parse_argument(value: &str) -> (r: JsonValue)
    ensures
        r@ == parsed_argument(value@),
{
    match JsonValue::parse(value) {
        Some(JsonValue::String(inner)) => {
            let t = trim(&chars_of(inner.as_str()));
            if starts_with_char(&t, '{') || starts_with_char(&t, '[') {
                match JsonValue::parse(inner.as_str()) {
                    Some(v) => v,
                    None => JsonValue::String(inner),
                }
            } else {
                JsonValue::String(inner)
            }
        },
        Some(v) => v,
        None => JsonValue::String(value.to_string()),
    }
}

/// Read and coerce the value of one argument.
fn coerce_argument(name: &str, value: &str) -> (r: JsonValue)
    ensures
        r@ == coerced_argument(name@, value@),
{
    let parsed = parse_argument(value);
    if str_is(name, "to") || str_is(name, "symbol") || str_is(name, "ledger") || str_is(
        name,
        "memo",
    ) || str_is(name, "amount_dec") {
        to_string(value, &parsed)
    } else if str_is(name, "decimals") {
        match to_number(&parsed) {
            Some(n) => n,
            None => JsonValue::Number(JsonNumber::Unsigned(0)),
        }
    } else {
        parsed
    }
}

/// Parse tool call arguments into a JSON object for easier handling.
pub fn tool_args_json(call: &ToolCall) -> (r: JsonValue)
    ensures
        r@ == JsonModel::Object(argument_members(argument_views(call.function.arguments@))),
{
    let args = &call.function.arguments;
    let ghost views = argument_views(args@);
    let mut members: Vec<JsonMember> = Vec::new();
    assert(members_view(members@) =~= argument_members(views.take(0)));
    let mut i: usize = 0;
    while i < args.len()
        invariant
            i <= args@.len(),
            views == argument_views(args@),
            members_view(members@) == argument_members(views.take(i as int)),
        decreases args@.len() - i,
    {
        let value = coerce_argument(args[i].name.as_str(), args[i].value.as_str());
        proof {
            assert(views.take(i + 1).drop_last() =~= views.take(i as int));
            assert(views.take(i + 1).last() == views[i as int]);
        }
        set_member(&mut members, args[i].name.clone(), value);
        i += 1;
    }
    proof {
        assert(views.take(args@.len() as int) =~= views);
        lemma_object_view(members);
    }
    JsonValue::Object(members)
}

} // verus!
