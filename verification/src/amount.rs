//! Amounts in minimal units, of unbounded size, and the scaling of a decimal
//! string to such an amount.

use num_bigint::BigUint;
use vstd::prelude::*;

use crate::errors::{decimal_text, InvalidInput};
use crate::text::{chars_of, copy_range, extend_chars, string_of, trim, trimmed};

verus! {

/// The number that a sequence of digit values denotes, most significant first.
pub open spec fn digits_value(d: Seq<u8>) -> nat
    decreases d.len(),
{
    if d.len() == 0 {
        0
    } else {
        digits_value(d.drop_last()) * 10 + d.last() as nat
    }
}

/// Digit values below ten, at least one, and no leading zero but for zero itself.
pub open spec fn is_canonical(d: Seq<u8>) -> bool {
    &&& d.len() >= 1
    &&& forall|i: int| 0 <= i < d.len() ==> d[i] <= 9
    &&& d.len() > 1 ==> d[0] != 0
}

/// Ten to the power `k`.
pub open spec fn pow10(k: nat) -> nat
    decreases k,
{
    if k == 0 {
        1
    } else {
        10 * pow10((k - 1) as nat)
    }
}

/// An ASCII decimal digit.
pub open spec fn is_digit(c: char) -> bool {
    '0' <= c && c <= '9'
}

/// Every character is an ASCII decimal digit.
pub open spec fn all_digits(s: Seq<char>) -> bool {
    forall|i: int| 0 <= i < s.len() ==> is_digit(#[trigger] s[i])
}

/// The number that a text of ASCII decimal digits denotes; zero for the empty text.
pub open spec fn decimal_value(s: Seq<char>) -> nat
    decreases s.len(),
{
    if s.len() == 0 {
        0
    } else {
        decimal_value(s.drop_last()) * 10 + (s.last() as u8 - 48) as nat
    }
}

/// The decimal digits of a number, in groups of three from the right with `_`
/// between the groups.
pub open spec fn grouped(s: Seq<char>) -> Seq<char>
    decreases s.len(),
{
    if s.len() <= 3 {
        s
    } else {
        grouped(s.take(s.len() - 3)) + seq!['_'] + s.skip(s.len() - 3)
    }
}

/// How an amount is shown to the user: `1_000_000` for a million.
pub open spec fn amount_text(n: nat) -> Seq<char> {
    grouped(decimal_text(n))
}

/// A natural number of unbounded size.
#[derive(Debug, PartialEq, Eq)]
pub struct Nat {
    digits: Vec<u8>,
}

impl View for Nat {
    type V = nat;

    closed spec fn view(&self) -> nat {
        digits_value(self.digits@)
    }
}

/// Calls `BigUint::parse_bytes` with radix 10 on the bytes of `digits` and
/// keeps the number as the digits that `BigUint::to_radix_be(10)` gives. The
/// contract claims that a non-empty text of ASCII decimal digits is always
/// accepted and yields the number that the digits denote.
#[verifier::external_body]
fn parse_decimal(digits: &str) -> (r: Option<Nat>)
    requires
        digits@.len() > 0,
        all_digits(digits@),
    ensures
        r is Some,
        r->Some_0@ == decimal_value(digits@),
{
    BigUint::parse_bytes(digits.as_bytes(), 10).map(|n| Nat { digits: n.to_radix_be(10) })
}

/// Wraps the number in `candid::Nat` and formats it with that type's
/// `Display`, which prints the decimal digits in groups of three from the
/// right, the groups joined by `_`.
#[verifier::external_body]
fn display_nat(n: &Nat) -> (s: String)
    ensures
        s@ == amount_text(n@),
{
    let value = BigUint::from_radix_be(&n.digits, 10).unwrap_or_default();
    candid::Nat(value).to_string()
}

/// The number that base-2^32 digits denote, least significant digit first.
pub open spec fn limbs_value(d: Seq<u32>) -> nat
    decreases d.len(),
{
    if d.len() == 0 {
        0
    } else {
        d[0] as nat + 0x1_0000_0000 * limbs_value(d.drop_first())
    }
}

/// The base-2^32 digits of a number, least significant first and without a
/// zero at the top; none for zero.
pub open spec fn limbs_of(n: nat) -> Seq<u32>
    decreases n,
{
    if n == 0 {
        Seq::empty()
    } else {
        seq![(n % 0x1_0000_0000) as u32] + limbs_of(n / 0x1_0000_0000)
    }
}

/// Calls `BigUint::new`, which reads base-2^32 digits, least significant
/// first, and keeps the number as its decimal digits (`to_radix_be(10)`).
#[verifier::external_body]
fn nat_from_limbs(limbs: &Vec<u32>) -> (n: Nat)
    ensures
        n@ == limbs_value(limbs@),
{
    Nat { digits: BigUint::new(limbs.clone()).to_radix_be(10) }
}

/// Rebuilds the number with `BigUint::from_radix_be` and calls
/// `BigUint::to_u32_digits`, which gives its base-2^32 digits, least
/// significant first and without a zero at the top; none for zero.
#[verifier::external_body]
fn nat_to_limbs(n: &Nat) -> (limbs: Vec<u32>)
    ensures
        limbs@ == limbs_of(n@),
{
    BigUint::from_radix_be(&n.digits, 10).unwrap_or_default().to_u32_digits()
}

/// The view of an optional number.
pub open spec fn opt_nat_view(o: Option<Nat>) -> Option<nat> {
    match o {
        Some(n) => Some(n@),
        None => None,
    }
}

/// Rebuilds both numbers with `BigUint::from_radix_be` and adds them with
/// `BigUint`'s `+`.
#[verifier::external_body]
fn nat_add(a: &Nat, b: &Nat) -> (n: Nat)
    ensures
        n@ == a@ + b@,
{
    let x = BigUint::from_radix_be(&a.digits, 10).unwrap_or_default();
    let y = BigUint::from_radix_be(&b.digits, 10).unwrap_or_default();
    Nat { digits: (x + y).to_radix_be(10) }
}

/// Rebuilds both numbers with `BigUint::from_radix_be` and subtracts them
/// with `BigUint`'s `-`, which does not accept a larger subtrahend.
#[verifier::external_body]
fn nat_sub(a: &Nat, b: &Nat) -> (n: Nat)
    requires
        b@ <= a@,
    ensures
        n@ == a@ - b@,
{
    let x = BigUint::from_radix_be(&a.digits, 10).unwrap_or_default();
    let y = BigUint::from_radix_be(&b.digits, 10).unwrap_or_default();
    Nat { digits: (x - y).to_radix_be(10) }
}

/// Rebuilds both numbers with `BigUint::from_radix_be` and compares them with
/// `BigUint`'s `<`.
#[verifier::external_body]
fn nat_less(a: &Nat, b: &Nat) -> (r: bool)
    ensures
        r == (a@ < b@),
{
    let x = BigUint::from_radix_be(&a.digits, 10).unwrap_or_default();
    let y = BigUint::from_radix_be(&b.digits, 10).unwrap_or_default();
    x < y
}

impl Nat {
    /// The sum of two numbers.
    pub fn plus(&self, other: &Nat) -> (n: Nat)
        ensures
            n@ == self@ + other@,
    {
        nat_add(self, other)
    }

    /// The difference of two numbers, if the second is not the larger.
    pub fn minus(&self, other: &Nat) -> (r: Option<Nat>)
        ensures
            r is Some <==> other@ <= self@,
            r is Some ==> r->Some_0@ == self@ - other@,
    {
        if nat_less(self, other) {
            None
        } else {
            Some(nat_sub(self, other))
        }
    }

    /// Whether this number is smaller than `other`.
    pub fn less_than(&self, other: &Nat) -> (r: bool)
        ensures
            r == (self@ < other@),
    {
        nat_less(self, other)
    }

    /// The number that a text of decimal digits denotes, if it is a
    /// non-empty text of decimal digits.
    pub fn parse_digits(text: &str) -> (r: Option<Nat>)
        ensures
            r is Some <==> text@.len() > 0 && all_digits(text@),
            r is Some ==> r->Some_0@ == decimal_value(text@),
    {
        let chars = chars_of(text);
        if chars.len() == 0 || !only_digits(&chars) {
            return None;
        }
        parse_decimal(text)
    }

    /// The number that a text denotes in which one `+` may lead and
    /// underscores may stand behind the first digit.
    pub fn parse_number(text: &str) -> (r: Option<Nat>)
        ensures
            r is Some <==> number_digits(text@) is Some,
            r is Some ==> r->Some_0@ == decimal_value(number_digits(text@)->Some_0),
    {
        let chars = chars_of(text);
        let signed = chars.len() >= 1 && chars[0] == '+' && !(chars.len() >= 2 && chars[1] == '+');
        let from: usize = if signed { 1 } else { 0 };
        assert(chars@.skip(from as int) =~= unsigned_part(text@));
        if from == chars.len() || chars[from] == '_' {
            return None;
        }
        let digits = strip_underscores(&chars, from);
        proof {
            lemma_without_underscores_head(unsigned_part(text@));
        }
        Nat::parse_digits(string_of(&digits).as_str())
    }

    /// The number `v`.
    pub fn from_u128(v: u128) -> (n: Nat)
        ensures
            n@ == v,
    {
        Nat { digits: wide_digits_of(v) }
    }

    /// The number with the given base-2^32 digits, least significant first.
    pub fn from_limbs(limbs: &Vec<u32>) -> (n: Nat)
        ensures
            n@ == limbs_value(limbs@),
    {
        nat_from_limbs(limbs)
    }

    /// The base-2^32 digits of the number, least significant first and
    /// without a zero at the top.
    pub fn to_limbs(&self) -> (limbs: Vec<u32>)
        ensures
            limbs@ == limbs_of(self@),
    {
        nat_to_limbs(self)
    }

    #[verifier::type_invariant]
    spec fn canonical(self) -> bool {
        is_canonical(self.digits@)
    }

    /// The number `v`.
    pub fn from_u64(v: u64) -> (n: Nat)
        ensures
            n@ == v,
    {
        Nat { digits: digits_of(v) }
    }

    /// Whether the number is zero.
    pub fn is_zero(&self) -> (r: bool)
        ensures
            r == (self@ == 0),
    {
        proof {
            use_type_invariant(self);
            lemma_canonical_zero(self.digits@);
        }
        self.digits.len() == 1 && self.digits[0] == 0
    }

    /// The amount as it is shown to the user.
    pub fn to_text(&self) -> (s: String)
        ensures
            s@ == amount_text(self@),
    {
        display_nat(self)
    }
}

impl Clone for Nat {
    fn clone(&self) -> (r: Self)
        ensures
            r@ == self@,
    {
        proof {
            use_type_invariant(self);
        }
        let digits = self.digits.clone();
        assert(digits@ =~= self.digits@);
        Nat { digits }
    }
}

/// The canonical digits of `v`.
fn digits_of(v: u64) -> (d: Vec<u8>)
    ensures
        is_canonical(d@),
        digits_value(d@) == v,
    decreases v,
{
    if v < 10 {
        let d = vec![v as u8];
        assert(d@.drop_last() =~= Seq::<u8>::empty());
        assert(digits_value(d@.drop_last()) == 0);
        d
    } else {
        let mut d = digits_of(v / 10);
        let ghost head = d@;
        proof {
            lemma_canonical_zero(head);
        }
        d.push((v % 10) as u8);
        assert(d@.drop_last() =~= head);
        d
    }
}

/// The canonical digits of `v`.
fn wide_digits_of(v: u128) -> (d: Vec<u8>)
    ensures
        is_canonical(d@),
        digits_value(d@) == v,
    decreases v,
{
    if v < 10 {
        let d = vec![v as u8];
        assert(d@.drop_last() =~= Seq::<u8>::empty());
        assert(digits_value(d@.drop_last()) == 0);
        d
    } else {
        let mut d = wide_digits_of(v / 10);
        let ghost head = d@;
        proof {
            lemma_canonical_zero(head);
        }
        d.push((v % 10) as u8);
        assert(d@.drop_last() =~= head);
        d
    }
}

/// Canonical digits denote zero exactly when they are the single digit zero.
pub proof fn lemma_canonical_zero(d: Seq<u8>)
    requires
        is_canonical(d),
    ensures
        digits_value(d) == 0 <==> (d.len() == 1 && d[0] == 0),
    decreases d.len(),
{
    if d.len() == 1 {
        assert(d.drop_last() =~= Seq::<u8>::empty());
        assert(digits_value(d.drop_last()) == 0);
    } else {
        let head = d.drop_last();
        assert(head[0] == d[0]);
        assert(is_canonical(head));
        lemma_canonical_zero(head);
    }
}

/// The value of a text followed by another is the first value shifted by the
/// length of the second, plus the second value.
pub proof fn lemma_decimal_value_concat(a: Seq<char>, b: Seq<char>)
    ensures
        decimal_value(a + b) == decimal_value(a) * pow10(b.len()) + decimal_value(b),
    decreases b.len(),
{
    let va = decimal_value(a);
    if b.len() == 0 {
        assert(a + b =~= a);
        assert(pow10(b.len()) == 1);
        assert(va * 1 == va);
    } else {
        let b0 = b.drop_last();
        let d = (b.last() as u8 - 48) as nat;
        assert((a + b).drop_last() =~= a + b0);
        assert((a + b).last() == b.last());
        lemma_decimal_value_concat(a, b0);
        assert(pow10(b.len()) == 10 * pow10(b0.len()));
        assert(va * pow10(b.len()) == (va * pow10(b0.len())) * 10) by (nonlinear_arith)
            requires
                pow10(b.len()) == 10 * pow10(b0.len()),
        ;
        assert(decimal_value(a + b) == decimal_value(a + b0) * 10 + d);
        assert(decimal_value(b) == decimal_value(b0) * 10 + d);
    }
}

/// The decimal text of a number is a non-empty text of digits.
pub proof fn lemma_decimal_text_digits(n: nat)
    ensures
        decimal_text(n).len() > 0,
        all_digits(decimal_text(n)),
    decreases n,
{
    if n >= 10 {
        lemma_decimal_text_digits(n / 10);
    }
}

/// The decimal text of a number denotes that number, so that two numbers with
/// the same text are the same.
pub proof fn lemma_decimal_text_value(n: nat)
    ensures
        decimal_value(decimal_text(n)) == n,
    decreases n,
{
    let t = decimal_text(n);
    if n < 10 {
        assert(t.drop_last() =~= Seq::<char>::empty());
        assert(decimal_value(t.drop_last()) == 0);
        assert(t.last() == (n + 48) as u8 as char);
    } else {
        lemma_decimal_text_value(n / 10);
        assert(t.drop_last() =~= decimal_text(n / 10));
        assert(t.last() == (n % 10 + 48) as u8 as char);
    }
}

/// `k` zeros.
pub open spec fn zeros(k: nat) -> Seq<char> {
    Seq::new(k, |i: int| '0')
}

/// A run of zeros denotes zero.
pub proof fn lemma_zeros_value(k: nat)
    ensures
        decimal_value(zeros(k)) == 0,
        all_digits(zeros(k)),
    decreases k,
{
    if k > 0 {
        assert(zeros(k).drop_last() =~= zeros((k - 1) as nat));
        lemma_zeros_value((k - 1) as nat);
    }
}

/// Where `c` first stands in `s`, or the length of `s` if it stands nowhere.
pub open spec fn index_of(s: Seq<char>, c: char) -> int
    decreases s.len(),
{
    if s.len() == 0 {
        0
    } else if s[0] == c {
        0
    } else {
        1 + index_of(s.drop_first(), c)
    }
}

/// What stands before the first decimal point.
pub open spec fn int_part(s: Seq<char>) -> Seq<char> {
    s.take(index_of(s, '.'))
}

/// What stands after the first decimal point; empty if there is none.
pub open spec fn frac_part(s: Seq<char>) -> Seq<char> {
    let p = index_of(s, '.');
    if p < s.len() {
        s.skip(p + 1)
    } else {
        Seq::empty()
    }
}

/// The amount in minimal units that a well-formed decimal text denotes for an
/// asset with `decimals` decimal places: the text's value times ten to the
/// power `decimals`.
pub open spec fn scaled_value(s: Seq<char>, decimals: u8) -> nat {
    decimal_value(int_part(s)) * pow10(decimals as nat) + decimal_value(frac_part(s)) * pow10(
        (decimals - frac_part(s).len()) as nat,
    )
}

/// What scaling the text `s`, taken without surrounding whitespace, gives for
/// an asset with `decimals` decimal places.
pub open spec fn scale_outcome(s: Seq<char>, decimals: u8) -> Result<nat, InvalidInput> {
    let t = trimmed(s);
    if frac_part(t).contains('.') {
        Err(InvalidInput::InvalidAmountFormat)
    } else if frac_part(t).len() > decimals {
        Err(InvalidInput::TooManyDecimals { max: decimals })
    } else if !all_digits(int_part(t)) || !all_digits(frac_part(t)) || int_part(t).len()
        + decimals == 0 {
        Err(InvalidInput::InvalidAmountFormat)
    } else {
        Ok(scaled_value(t, decimals))
    }
}

/// `index_of` gives an index at which `c` stands, and before which it does not.
pub proof fn lemma_index_of(s: Seq<char>, c: char)
    ensures
        0 <= index_of(s, c) <= s.len(),
        index_of(s, c) < s.len() ==> s[index_of(s, c)] == c,
        forall|j: int| 0 <= j < index_of(s, c) ==> s[j] != c,
    decreases s.len(),
{
    if s.len() > 0 && s[0] != c {
        let t = s.drop_first();
        lemma_index_of(t, c);
        assert forall|j: int| 0 <= j < index_of(s, c) implies s[j] != c by {
            if j > 0 {
                assert(s[j] == t[j - 1]);
            }
        }
    }
}

/// An index at which `c` stands, and before which it does not, is `index_of`.
pub proof fn lemma_index_of_unique(s: Seq<char>, c: char, p: int)
    requires
        0 <= p <= s.len(),
        p < s.len() ==> s[p] == c,
        forall|j: int| 0 <= j < p ==> s[j] != c,
    ensures
        index_of(s, c) == p,
{
    lemma_index_of(s, c);
}

/// The text without its underscores.
pub open spec fn without_underscores(s: Seq<char>) -> Seq<char>
    decreases s.len(),
{
    if s.len() == 0 {
        Seq::empty()
    } else if s.last() == '_' {
        without_underscores(s.drop_last())
    } else {
        without_underscores(s.drop_last()).push(s.last())
    }
}

/// The text behind one leading `+`; a text that begins with two is left as
/// it is.
pub open spec fn unsigned_part(s: Seq<char>) -> Seq<char> {
    if s.len() >= 1 && s[0] == '+' && !(s.len() >= 2 && s[1] == '+') {
        s.skip(1)
    } else {
        s
    }
}

/// The decimal digits of a written natural number: one `+` may lead, and
/// underscores may stand behind the first digit; they are left out. `None`
/// for a text that is not of this form.
pub open spec fn number_digits(s: Seq<char>) -> Option<Seq<char>> {
    let body = unsigned_part(s);
    if body.len() == 0 || body[0] == '_' || !all_digits(without_underscores(body)) {
        None
    } else {
        Some(without_underscores(body))
    }
}

/// A text that does not begin with an underscore keeps its first character
/// when its underscores are left out.
pub proof fn lemma_without_underscores_head(s: Seq<char>)
    requires
        s.len() > 0,
        s[0] != '_',
    ensures
        without_underscores(s).len() > 0,
        without_underscores(s)[0] == s[0],
    decreases s.len(),
{
    if s.len() > 1 {
        lemma_without_underscores_head(s.drop_last());
        assert(s.drop_last()[0] == s[0]);
    } else {
        assert(s.drop_last().len() == 0);
        assert(without_underscores(s.drop_last()) =~= Seq::<char>::empty());
        assert(s.last() == s[0]);
    }
}

/// The characters of `v` from `from` on that are no underscores.
fn strip_underscores(v: &Vec<char>, from: usize) -> (out: Vec<char>)
    requires
        from <= v@.len(),
    ensures
        out@ == without_underscores(v@.skip(from as int)),
{
    let ghost body = v@.skip(from as int);
    let mut out: Vec<char> = Vec::new();
    let mut i: usize = from;
    assert(body.take(0) =~= Seq::<char>::empty());
    while i < v.len()
        invariant
            from <= i <= v@.len(),
            body == v@.skip(from as int),
            out@ == without_underscores(body.take(i - from)),
        decreases v@.len() - i,
    {
        let c = v[i];
        proof {
            let next = body.take(i - from + 1);
            assert(next.drop_last() =~= body.take(i - from));
            assert(next.last() == c);
        }
        if c != '_' {
            out.push(c);
        }
        i += 1;
    }
    assert(body.take(i - from) =~= body);
    out
}

/// Whether every character of `v` is an ASCII decimal digit.
fn only_digits(v: &Vec<char>) -> (r: bool)
    ensures
        r == all_digits(v@),
{
    let mut i: usize = 0;
    while i < v.len()
        invariant
            i <= v@.len(),
            forall|j: int| 0 <= j < i ==> is_digit(#[trigger] v@[j]),
        decreases v@.len() - i,
    {
        let c = v[i];
        if !('0' <= c && c <= '9') {
            return false;
        }
        i += 1;
    }
    true
}

/// The first index from `from` on at which `c` stands, or the length of `v`.
fn position_from(v: &Vec<char>, c: char, from: usize) -> (p: usize)
    requires
        from <= v@.len(),
    ensures
        from <= p <= v@.len(),
        p < v@.len() ==> v@[p as int] == c,
        forall|j: int| from <= j < p ==> v@[j] != c,
{
    let mut p: usize = from;
    while p < v.len() && v[p] != c
        invariant
            from <= p <= v@.len(),
            forall|j: int| from <= j < p ==> v@[j] != c,
        decreases v@.len() - p,
    {
        p += 1;
    }
    p
}

/// Scale a human readable decimal amount into minimal units.
///
/// Whitespace around the amount is ignored. The amount is a run of digits,
/// optionally followed by one decimal point and at most `decimals` further
/// digits; it holds at least one digit once it is padded to `decimals` places.
pub fn scale_amount(amount_dec: &str, decimals: u8) -> (r: Result<Nat, InvalidInput>)
    ensures
        match r {
            Ok(n) => scale_outcome(amount_dec@, decimals) == Ok::<nat, InvalidInput>(n@),
            Err(e) => scale_outcome(amount_dec@, decimals) == Err::<nat, InvalidInput>(e),
        },
{
    let raw = chars_of(amount_dec);
    let t = trim(&raw);
    let n = t.len();
    let p = position_from(&t, '.', 0);
    proof {
        lemma_index_of_unique(t@, '.', p as int);
    }
    let int_chars = copy_range(&t, 0, p);
    assert(int_chars@ =~= int_part(t@));
    let frac_chars = if p < n {
        copy_range(&t, p + 1, n)
    } else {
        Vec::new()
    };
    assert(frac_chars@ =~= frac_part(t@));
    let q = position_from(&frac_chars, '.', 0);
    if q < frac_chars.len() {
        assert(frac_chars@.contains('.'));
        return Err(InvalidInput::InvalidAmountFormat);
    }
    assert(!frac_chars@.contains('.'));
    if frac_chars.len() > decimals as usize {
        return Err(InvalidInput::TooManyDecimals { max: decimals });
    }
    if !only_digits(&int_chars) || !only_digits(&frac_chars) {
        return Err(InvalidInput::InvalidAmountFormat);
    }
    let pad: usize = decimals as usize - frac_chars.len();
    let mut scaled = int_chars;
    extend_chars(&mut scaled, &frac_chars);
    let mut k: usize = 0;
    while k < pad
        invariant
            k <= pad,
            scaled@ == int_part(t@) + frac_part(t@) + zeros(k as nat),
        decreases pad - k,
    {
        scaled.push('0');
        assert(scaled@ =~= int_part(t@) + frac_part(t@) + zeros((k + 1) as nat));
        k += 1;
    }
    if scaled.len() == 0 {
        return Err(InvalidInput::InvalidAmountFormat);
    }
    proof {
        let i = int_part(t@);
        let f = frac_part(t@);
        let z = zeros(pad as nat);
        lemma_zeros_value(pad as nat);
        assert(scaled@ =~= i + (f + z));
        lemma_decimal_value_concat(f, z);
        lemma_decimal_value_concat(i, f + z);
        assert(all_digits(scaled@));
        assert((f + z).len() == decimals);
    }
    match parse_decimal(string_of(&scaled).as_str()) {
        Some(value) => Ok(value),
        None => Err(InvalidInput::InvalidAmountFormat),
    }
}

/// The scaled amount of a well-formed text stands for the same quantity as the
/// text itself: divided by ten to the power `decimals` it is the text's integer
/// and fractional digits, read as one number, divided by ten to the power of
/// the number of fractional digits.
pub proof fn lemma_scale_preserves_value(s: Seq<char>, decimals: u8)
    requires
        scale_outcome(s, decimals) is Ok,
    ensures
        scale_outcome(s, decimals)->Ok_0 * pow10(frac_part(trimmed(s)).len()) == decimal_value(
            int_part(trimmed(s)) + frac_part(trimmed(s)),
        ) * pow10(decimals as nat),
{
    let t = trimmed(s);
    let i = int_part(t);
    let f = frac_part(t);
    let k = (decimals - f.len()) as nat;
    lemma_decimal_value_concat(i, f);
    lemma_pow10_add(f.len(), k);
    let vi = decimal_value(i);
    let vf = decimal_value(f);
    let pf = pow10(f.len());
    let pk = pow10(k);
    let pd = pow10(decimals as nat);
    assert((vi * pd + vf * pk) * pf == (vi * pf + vf) * pd) by (nonlinear_arith)
        requires
            pd == pf * pk,
    ;
}

/// Powers of ten multiply as their exponents add.
pub proof fn lemma_pow10_add(a: nat, b: nat)
    ensures
        pow10(a + b) == pow10(a) * pow10(b),
    decreases a,
{
    if a == 0 {
        assert(pow10(0) == 1);
        assert(pow10(a + b) == 1 * pow10(b));
    } else {
        lemma_pow10_add((a - 1) as nat, b);
        assert(pow10(a + b) == 10 * pow10((a + b - 1) as nat));
        assert(pow10(a) == 10 * pow10((a - 1) as nat));
        assert(10 * (pow10((a - 1) as nat) * pow10(b)) == (10 * pow10((a - 1) as nat)) * pow10(b))
            by (nonlinear_arith);
    }
}

/// The base-2^32 digits of a number denote that number.
pub proof fn lemma_limbs_round_trip(n: nat)
    ensures
        limbs_value(limbs_of(n)) == n,
    decreases n,
{
    if n > 0 {
        let rest = limbs_of(n / 0x1_0000_0000);
        let all = limbs_of(n);
        lemma_limbs_round_trip(n / 0x1_0000_0000);
        assert(all.drop_first() =~= rest);
        assert(all[0] == (n % 0x1_0000_0000) as u32);
    }
}

} // verus!
