//! Building message text.
//!
//! Every piece of text goes through serenity's `MessageBuilder`; the wrappers
//! below each make one call on a builder that holds the text so far.

use serenity::model::id::{ChannelId, UserId};
use serenity::utils::MessageBuilder;
use vstd::prelude::*;

verus! {

/// The character of a decimal digit `d < 10`.
pub open spec fn digit_char(d: nat) -> char {
    (d + 48) as char
}

/// The decimal rendering of `n`, without sign or leading zeros.
pub open spec fn decimal(n: nat) -> Seq<char>
    decreases n,
{
    if n < 10 {
        seq![digit_char(n)]
    } else {
        decimal(n / 10) + seq![digit_char(n % 10)]
    }
}

/// A decimal rendering has at least one digit, and more than one from 10 on.
pub(crate) proof fn lemma_decimal_len(n: nat)
    ensures
        decimal(n).len() >= 1,
        n >= 10 ==> decimal(n).len() >= 2,
    decreases n,
{
    if n >= 10 {
        lemma_decimal_len(n / 10);
    }
}

/// Different numbers have different decimal renderings.
pub(crate) proof fn lemma_decimal_injective(x: nat, y: nat)
    requires
        decimal(x) == decimal(y),
    ensures
        x == y,
    decreases x,
{
    lemma_decimal_len(x);
    lemma_decimal_len(y);
    if x >= 10 && y >= 10 {
        assert(decimal(x).last() == digit_char(x % 10));
        assert(decimal(y).last() == digit_char(y % 10));
        assert(decimal(x).drop_last() =~= decimal(x / 10));
        assert(decimal(y).drop_last() =~= decimal(y / 10));
        lemma_decimal_injective(x / 10, y / 10);
    } else if x < 10 && y < 10 {
        assert(decimal(x)[0] == digit_char(x));
        assert(decimal(y)[0] == digit_char(y));
    }
}

/// `**piece**` followed by a line break.
pub open spec fn bold_line(piece: Seq<char>) -> Seq<char> {
    seq!['*', '*'] + piece + seq!['*', '*', '\n']
}

/// The mention of a user: `<@id>`.
pub open spec fn user_mention(id: u64) -> Seq<char> {
    seq!['<', '@'] + decimal(id as nat) + seq!['>']
}

/// The mention of a channel: `<#id>`.
pub open spec fn channel_mention(id: u64) -> Seq<char> {
    seq!['<', '#'] + decimal(id as nat) + seq!['>']
}

/// `MessageBuilder::push` with a string: the builder appends it unchanged
/// (its `Display` rendering, which for a string is the string itself).
#[verifier::external_body]
pub(crate) fn push_text(text: String, piece: &str) -> (out: String)
    ensures
        out@ == text@ + piece@,
{
    let mut builder = MessageBuilder(text);
    builder.push(piece);
    builder.build()
}

/// `MessageBuilder::push` with an integer: the builder appends its `Display`
/// rendering, the decimal digits of the number.
#[verifier::external_body]
pub(crate) fn push_number(text: String, n: u64) -> (out: String)
    ensures
        out@ == text@ + decimal(n as nat),
{
    let mut builder = MessageBuilder(text);
    builder.push(n);
    builder.build()
}

/// `MessageBuilder::push_bold_line`: the builder appends `**`, the piece,
/// `**` and a line break.
#[verifier::external_body]
pub(crate) fn push_bold_line(text: String, piece: &str) -> (out: String)
    ensures
        out@ == text@ + bold_line(piece@),
{
    let mut builder = MessageBuilder(text);
    builder.push_bold_line(piece);
    builder.build()
}

/// `MessageBuilder::mention` of a `UserId`: the builder appends `<@id>`.
#[verifier::external_body]
pub(crate) fn push_user_mention(text: String, id: u64) -> (out: String)
    ensures
        out@ == text@ + user_mention(id),
{
    let mut builder = MessageBuilder(text);
    builder.mention(&UserId(id));
    builder.build()
}

/// `MessageBuilder::mention` of a `ChannelId`: the builder appends `<#id>`.
#[verifier::external_body]
pub(crate) fn push_channel_mention(text: String, id: u64) -> (out: String)
    ensures
        out@ == text@ + channel_mention(id),
{
    let mut builder = MessageBuilder(text);
    builder.mention(&ChannelId(id));
    builder.build()
}

} // verus!
