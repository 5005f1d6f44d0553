//! The few computations the bot borrows from serenity: argument splitting,
//! and message formatting.

use serenity::framework::standard::{Args, Delimiter};
use serenity::model::id::UserId;
use serenity::utils::MessageBuilder;
use vstd::prelude::*;
use crate::text::decimal;

verus! {

/// What serenity's `Args::single_quoted::<String>` yields for the first argument of
/// `message` split at `delimiters` (`None` when there is no argument).
pub uninterp spec fn first_quoted_argument(message: Seq<char>, delimiters: Seq<Seq<char>>) -> Option<Seq<char>>;

/// What serenity's `Args::rest` gives back after one `single_quoted` step over `message`
/// split at `delimiters`.
pub uninterp spec fn rest_after_first_argument(message: Seq<char>, delimiters: Seq<Seq<char>>) -> Seq<char>;

/// What serenity's `Args::rest` gives back for `message` split at `delimiters`, before any
/// argument has been taken.
pub uninterp spec fn all_arguments(message: Seq<char>, delimiters: Seq<Seq<char>>) -> Seq<char>;

/// The text of a user mention: `<@`, the id in decimal, `>`.
pub open spec fn mention_text(user_id: u64) -> Seq<char> {
    seq!['<', '@'] + decimal(user_id as nat) + seq!['>']
}

/// Text wrapped in Discord's bold markers.
pub open spec fn bold_text(text: Seq<char>) -> Seq<char> {
    seq!['*', '*'] + text + seq!['*', '*']
}

/// Calls `Args::new(message, delimiters)` and `single_quoted::<String>()` on it.
/// Every delimiter must be non-empty: an empty one matches everywhere without moving,
/// and serenity's splitter then never returns.
/// The contract names the result; it adds only that an empty message has no argument,
/// which `Args::new` shows (no delimiter occurs in it and its trimmed text is empty, so no
/// token is made, and `single_quoted` then fails with end-of-string).
#[verifier::external_body]
pub(crate) fn single_quoted_argument(message: &str, delimiters: &Vec<String>) -> (r: Option<String>)
    requires
        forall|i: int| 0 <= i < delimiters.len() ==> #[trigger] delimiters@[i]@.len() > 0,
    ensures
        match r {
            Some(a) => first_quoted_argument(message@, delimiters.deep_view()) == Some(a@),
            None => first_quoted_argument(message@, delimiters.deep_view()) == None::<Seq<char>>,
        },
        message@.len() == 0 ==> r is None,
{
    let ds: Vec<Delimiter> = delimiters.iter().map(Delimiter::from).collect();
    Args::new(message, &ds).single_quoted::<String>().ok()
}

/// Calls `Args::new(message, delimiters)`, one `single_quoted::<String>()` step, then
/// `rest()`. Delimiters must be non-empty, as above. The result is named; for an empty message it is empty (no token exists, so
/// `rest` falls back to the empty string).
#[verifier::external_body]
pub(crate) fn rest_after_quoted_argument(message: &str, delimiters: &Vec<String>) -> (r: String)
    requires
        forall|i: int| 0 <= i < delimiters.len() ==> #[trigger] delimiters@[i]@.len() > 0,
    ensures
        r@ == rest_after_first_argument(message@, delimiters.deep_view()),
        message@.len() == 0 ==> r@.len() == 0,
{
    let ds: Vec<Delimiter> = delimiters.iter().map(Delimiter::from).collect();
    let mut args = Args::new(message, &ds);
    let _ = args.single_quoted::<String>();
    args.rest().to_string()
}

/// Calls `Args::new(message, delimiters)` and `rest()` on it. Delimiters must be
/// non-empty, as above. The result is named; for an
/// empty message it is empty.
#[verifier::external_body]
pub(crate) fn rest_of_arguments(message: &str, delimiters: &Vec<String>) -> (r: String)
    requires
        forall|i: int| 0 <= i < delimiters.len() ==> #[trigger] delimiters@[i]@.len() > 0,
    ensures
        r@ == all_arguments(message@, delimiters.deep_view()),
        message@.len() == 0 ==> r@.len() == 0,
{
    let ds: Vec<Delimiter> = delimiters.iter().map(Delimiter::from).collect();
    Args::new(message, &ds).rest().to_string()
}

/// `MessageBuilder::new().mention(&UserId::new(user_id)).build()`: serenity formats a user
/// mention as `<@{id}>` with the id in decimal. `UserId::new` panics on 0, which `requires`
/// leaves out.
#[verifier::external_body]
pub(crate) fn mention_user(user_id: u64) -> (r: String)
    requires
        user_id != 0,
    ensures
        r@ == mention_text(user_id),
{
    MessageBuilder::new().mention(&UserId::new(user_id)).build()
}

/// `MessageBuilder::new().push_bold(text).build()`: `push_bold` writes `**`, the content
/// unchanged, and `**`.
#[verifier::external_body]
pub(crate) fn bold(text: &str) -> (r: String)
    ensures
        r@ == bold_text(text@),
{
    MessageBuilder::new().push_bold(text).build()
}

} // verus!
