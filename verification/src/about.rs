//! The text that the `about` command shows, which administrators can replace.

use vstd::prelude::*;

verus! {

/// The text shown before any update.
pub open spec fn initial_about() -> Seq<char> {
    "Bot created by ilya"@
}

/// The line that every updated text starts with.
pub open spec fn about_heading() -> Seq<char> {
    "Bot made by itzIlya.\n"@
}

/// The text after an update whose argument text is `rest`.
pub open spec fn updated_about(rest: Seq<char>) -> Seq<char> {
    about_heading() + rest
}

/// The current "about" text.
pub struct AboutText {
    text: String,
}

impl View for AboutText {
    type V = Seq<char>;

    closed spec fn view(&self) -> Seq<char> {
        self.text@
    }
}

impl AboutText {
    /// The text the bot starts with: "Bot created by ilya".
    pub fn new() -> (a: Self)
        ensures
            a@ == initial_about(),
    {
        AboutText { text: String::from_str("Bot created by ilya") }
    }

    /// The text that the `about` command sends.
    pub fn text(&self) -> (r: String)
        ensures
            r@ == self@,
    {
        self.text.clone()
    }

    /// Replaces the text by the heading line "Bot made by itzIlya." followed by `rest`.
    pub fn replace_with(&mut self, rest: &str)
        ensures
            final(self)@ == updated_about(rest@),
    {
        let mut t = String::from_str("Bot made by itzIlya.\n");
        t.append(rest);
        self.text = t;
    }
}

/// What an update writes is what the next read gives back: after `replace_with(rest)`
/// the text is the heading line followed by `rest`, and `rest` can be read back from it
/// by dropping the heading.
pub proof fn law_about_read_back(rest: Seq<char>)
    ensures
        updated_about(rest).subrange(0, about_heading().len() as int) == about_heading(),
        updated_about(rest).subrange(about_heading().len() as int, updated_about(rest).len() as int) == rest,
{
    assert(updated_about(rest).subrange(0, about_heading().len() as int) =~= about_heading());
    assert(updated_about(rest).subrange(about_heading().len() as int, updated_about(rest).len() as int) =~= rest);
}

/// Two updates with different arguments leave different texts.
pub proof fn law_about_updates_distinct(a: Seq<char>, b: Seq<char>)
    requires
        a != b,
    ensures
        updated_about(a) != updated_about(b),
{
    law_about_read_back(a);
    law_about_read_back(b);
}

} // verus!
