//! Input that the caller can correct.

use vstd::prelude::*;

use crate::text::{chars_of, extend_chars, string_of};

verus! {

/// Why a request was turned down before any intent was drafted.
#[derive(Clone, Copy, Debug, PartialEq, Eq, Structural)]
pub enum InvalidInput {
    /// The amount has more than one decimal point, a character that is no
    /// digit, or no digit at all.
    InvalidAmountFormat,
    /// The amount has more fractional digits than the asset has decimals.
    TooManyDecimals { max: u8 },
    /// A symbol or ledger identifier was given and is not on the allow-list.
    UnknownAsset,
    /// The allow-list entry that matched carries no well-formed ledger identifier.
    InvalidLedgerId,
    /// The recipient is neither a well-formed address nor a saved alias.
    UnknownRecipient,
}

/// The decimal digits of `n`, most significant first.
pub open spec fn decimal_text(n: nat) -> Seq<char>
    decreases n,
{
    if n < 10 {
        seq![(n + 48) as u8 as char]
    } else {
        decimal_text(n / 10).push((n % 10 + 48) as u8 as char)
    }
}

/// Appends the decimal digits of `n` to `out`.
pub fn push_decimal(out: &mut Vec<char>, n: u64)
    ensures
        final(out)@ == old(out)@ + decimal_text(n as nat),
    decreases n,
{
    if n < 10 {
        out.push((n as u8 + 48) as char);
        assert(out@ =~= old(out)@ + decimal_text(n as nat));
    } else {
        push_decimal(out, n / 10);
        out.push(((n % 10) as u8 + 48) as char);
        assert(out@ =~= old(out)@ + decimal_text(n as nat));
    }
}

impl InvalidInput {
    /// The text shown to the user for the refusal of `subject`, the text that
    /// was turned down. An unknown recipient is named.
    pub open spec fn message_text(self, subject: Seq<char>) -> Seq<char> {
        match self {
            InvalidInput::InvalidAmountFormat => "format amount tidak valid"@,
            InvalidInput::TooManyDecimals { max } => "maksimal "@ + decimal_text(max as nat)
                + " digit desimal"@,
            InvalidInput::UnknownAsset => "token tidak di-allowlist"@,
            InvalidInput::InvalidLedgerId => "ledger id invalid"@,
            InvalidInput::UnknownRecipient => "alias/principal '"@ + subject
                + "' tidak ditemukan"@,
        }
    }

    /// A short, single-line message naming what has to be corrected in
    /// `subject`, the text that was turned down.
    pub fn message(&self, subject: &str) -> (s: String)
        ensures
            s@ == self.message_text(subject@),
    {
        match self {
            InvalidInput::InvalidAmountFormat => "format amount tidak valid".to_string(),
            InvalidInput::TooManyDecimals { max } => {
                let mut out = chars_of("maksimal ");
                push_decimal(&mut out, *max as u64);
                let tail = chars_of(" digit desimal");
                extend_chars(&mut out, &tail);
                string_of(&out)
            },
            InvalidInput::UnknownAsset => "token tidak di-allowlist".to_string(),
            InvalidInput::InvalidLedgerId => "ledger id invalid".to_string(),
            InvalidInput::UnknownRecipient => {
                let mut out = chars_of("alias/principal '");
                extend_chars(&mut out, &chars_of(subject));
                extend_chars(&mut out, &chars_of("' tidak ditemukan"));
                string_of(&out)
            },
        }
    }
}

} // verus!
