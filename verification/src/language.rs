//! The bad-language filter: a list of forbidden words and the check that a message
//! contains one of them.

use vstd::prelude::*;
use crate::text::{occurs_in, contains_text};
use crate::discord::{mention_text, bold_text, mention_user, bold};

verus! {

/// The words the bot starts out forbidding.
pub open spec fn initial_words() -> Seq<Seq<char>> {
    seq![seq!['s', 'h', 'i', 't'], seq!['f', 'u', 'c', 'k'], seq!['a', 's', 's']]
}

/// Some word of `words` occurs in `input`.
pub open spec fn has_bad_word(input: Seq<char>, words: Seq<Seq<char>>) -> bool {
    exists|i: int| 0 <= i < words.len() && occurs_in(#[trigger] words[i], input)
}

/// The text that answers a message with bad language, addressed to its author.
pub open spec fn warning_text(author_id: u64) -> Seq<char> {
    mention_text(author_id) + bold_text(", watch your language please!"@)
}

/// The list of forbidden words.
pub struct LanguageFilter {
    words: Vec<String>,
}

impl View for LanguageFilter {
    type V = Seq<Seq<char>>;

    closed spec fn view(&self) -> Seq<Seq<char>> {
        self.words.deep_view()
    }
}

impl LanguageFilter {
    /// The filter with the initial words "shit", "fuck" and "ass".
    pub fn new() -> (f: Self)
        ensures
            f@ == initial_words(),
    {
        let mut words: Vec<String> = Vec::new();
        words.push(String::from_str("shit"));
        words.push(String::from_str("fuck"));
        words.push(String::from_str("ass"));
        proof {
            reveal_strlit("shit");
            reveal_strlit("fuck");
            reveal_strlit("ass");
        }
        let f = LanguageFilter { words };
        assert(f.words@[0]@ =~= initial_words()[0]);
        assert(f.words@[1]@ =~= initial_words()[1]);
        assert(f.words@[2]@ =~= initial_words()[2]);
        assert(f@ =~= initial_words());
        f
    }

    /// The forbidden words, in order.
    pub fn words(&self) -> (r: Vec<String>)
        ensures
            r.deep_view() == self@,
    {
        self.words.clone()
    }
}

/// Whether `input_str` contains any of the forbidden words, as a plain substring (so
/// "class" counts, since it contains "ass").
pub fn bad_language(input_str: &str, filter: &LanguageFilter) -> (r: bool)
    ensures
        r == has_bad_word(input_str@, filter@),
{
    let words = &filter.words;
    let mut i: usize = 0;
    while i < words.len()
        invariant
            i <= words.len(),
            words.deep_view() == filter@,
            forall|k: int| 0 <= k < i ==> !occurs_in(#[trigger] filter@[k], input_str@),
        decreases words.len() - i,
    {
        assert(words.deep_view()[i as int] == words@[i as int]@);
        if contains_text(input_str, words[i].as_str()) {
            return true;
        }
        i = i + 1;
    }
    false
}

/// The warning sent back to the author of a message with bad language: a mention of
/// the author followed by ", watch your language please!" in bold.
pub fn language_warning(author_id: u64) -> (r: String)
    requires
        author_id != 0,
    ensures
        r@ == warning_text(author_id),
{
    let mut r = mention_user(author_id);
    let b = bold(", watch your language please!");
    r.append(b.as_str());
    r
}

/// What the bot answers to an ordinary (non-command) message: the warning when the
/// message contains bad language, nothing otherwise.
pub fn normal_message(content: &str, author_id: u64, filter: &LanguageFilter) -> (r: Option<String>)
    requires
        author_id != 0,
    ensures
        match r {
            Some(w) => has_bad_word(content@, filter@) && w@ == warning_text(author_id),
            None => !has_bad_word(content@, filter@),
        },
{
    if bad_language(content, filter) {
        Some(language_warning(author_id))
    } else {
        None
    }
}

/// Occurrence is transitive: a text inside a text inside `hay` is inside `hay`.
pub proof fn lemma_occurs_transitive(w: Seq<char>, a: Seq<char>, b: Seq<char>)
    requires
        occurs_in(w, a),
        occurs_in(a, b),
    ensures
        occurs_in(w, b),
{
    let i = choose|i: int| 0 <= i <= a.len() - w.len() && #[trigger] a.subrange(i, i + w.len()) == w;
    let j = choose|j: int| 0 <= j <= b.len() - a.len() && #[trigger] b.subrange(j, j + a.len()) == a;
    assert(b.subrange(j + i, j + i + w.len()) =~= w) by {
        assert forall|k: int| 0 <= k < w.len() implies b.subrange(j + i, j + i + w.len())[k] == w[k] by {
            assert(a.subrange(i, i + w.len())[k] == a[i + k]);
            assert(b.subrange(j, j + a.len())[i + k] == b[j + i + k]);
        }
    }
}

/// A message that contains a flagged message is flagged too: quoting or extending a
/// message with bad language never hides it.
pub proof fn law_flagged_text_stays_flagged(a: Seq<char>, b: Seq<char>, words: Seq<Seq<char>>)
    requires
        has_bad_word(a, words),
        occurs_in(a, b),
    ensures
        has_bad_word(b, words),
{
    let k = choose|k: int| 0 <= k < words.len() && occurs_in(#[trigger] words[k], a);
    lemma_occurs_transitive(words[k], a, b);
}

/// Every forbidden word, sent on its own, is flagged.
pub proof fn law_each_word_is_flagged(words: Seq<Seq<char>>, k: int)
    requires
        0 <= k < words.len(),
    ensures
        has_bad_word(words[k], words),
{
    let w = words[k];
    let z: int = 0;
    assert(w.subrange(z, z + w.len()) =~= w);
}

/// A message flagged by a filter stays flagged when the filter gains more words.
pub proof fn law_more_words_flag_more(input: Seq<char>, words: Seq<Seq<char>>, extra: Seq<Seq<char>>)
    requires
        has_bad_word(input, words),
    ensures
        has_bad_word(input, words + extra),
{
    let k = choose|k: int| 0 <= k < words.len() && occurs_in(#[trigger] words[k], input);
    assert((words + extra)[k] == words[k]);
}

/// A message is flagged exactly when some forbidden word occurs in it whole, as a
/// contiguous run of its characters; a message holding none of the words is never
/// flagged, and a part of a word is not enough.
pub proof fn law_flagged_iff_whole_word_occurs(input: Seq<char>, words: Seq<Seq<char>>)
    ensures
        has_bad_word(input, words) <==> exists|k: int, i: int|
            0 <= k < words.len() && 0 <= i && i + words[k].len() <= input.len()
                && #[trigger] input.subrange(i, i + words[k].len()) == words[k],
{
    if has_bad_word(input, words) {
        let k = choose|k: int| 0 <= k < words.len() && occurs_in(#[trigger] words[k], input);
        let w = words[k];
        let i = choose|i: int| 0 <= i <= input.len() - w.len() && #[trigger] input.subrange(i, i + w.len()) == w;
        assert(input.subrange(i, i + words[k].len()) == words[k]);
    }
    if exists|k: int, i: int|
        0 <= k < words.len() && 0 <= i && i + words[k].len() <= input.len()
            && #[trigger] input.subrange(i, i + words[k].len()) == words[k] {
        let (k, i) = choose|k: int, i: int|
            0 <= k < words.len() && 0 <= i && i + words[k].len() <= input.len()
                && #[trigger] input.subrange(i, i + words[k].len()) == words[k];
        assert(occurs_in(words[k], input));
    }
}

/// The warning always mentions the author: `<@`, the author's id in decimal, `>`, then
/// ", watch your language please!" between bold markers.
pub proof fn law_warning_mentions_author(author_id: u64)
    ensures
        warning_text(author_id) == "<@"@ + crate::text::decimal(author_id as nat) + ">"@
            + "**, watch your language please!**"@,
{
    reveal_strlit("<@");
    reveal_strlit(">");
    reveal_strlit("**, watch your language please!**");
    reveal_strlit(", watch your language please!");
    assert(warning_text(author_id) =~= "<@"@ + crate::text::decimal(author_id as nat) + ">"@
        + "**, watch your language please!**"@);
}

} // verus!
