//! A post to a channel, as it is put together before it is sent.
use vstd::prelude::*;
use vstd::string::*;
use crate::text::{chars_of, text_of};

verus! {

/// Who may be called by a mention in the text: only the kinds that are listed.
#[derive(Debug, PartialEq, Eq)]
pub struct Mentions {
    pub parse: Vec<String>,
}

/// A named line of an embed.
#[derive(Debug, PartialEq, Eq)]
pub struct EmbedField {
    pub name: String,
    pub value: String,
    pub inline: bool,
}

/// A box below the text. What is not there is not sent.
#[derive(Debug, PartialEq, Eq)]
pub struct Embed {
    pub title: Option<String>,
    pub url: Option<String>,
    pub description: Option<String>,
    pub fields: Vec<EmbedField>,
    /// The address of the picture.
    pub image: Option<String>,
    /// The address of the small picture.
    pub thumbnail: Option<String>,
    /// The text at the foot.
    pub footer: Option<String>,
}

/// A post.
#[derive(Debug, PartialEq, Eq)]
pub struct Card {
    pub content: String,
    pub embeds: Vec<Embed>,
    pub allowed_mentions: Mentions,
}

impl Card {
    /// Nobody is called by a mention in the text, whatever it says.
    pub open spec fn calls_nobody(self) -> bool {
        self.allowed_mentions.parse@.len() == 0
    }
}

/// Nobody is called.
pub fn no_mentions() -> (r: Mentions)
    ensures
        r.parse@.len() == 0,
{
    Mentions { parse: Vec::new() }
}

/// A post of text alone. No mention in it calls anybody.
pub fn plain_post(content: &str) -> (r: Card)
    ensures
        r.content@ == content@,
        r.embeds@.len() == 0,
        r.calls_nobody(),
{
    Card {
        content: String::from_str(content),
        embeds: Vec::new(),
        allowed_mentions: no_mentions(),
    }
}

/// The first so many characters of a text.
pub open spec fn first_chars(s: Seq<char>, max: nat) -> Seq<char> {
    if s.len() <= max {
        s
    } else {
        s.take(max as int)
    }
}

/// The first so many characters of a text.
pub fn cap(s: &str, max: usize) -> (r: String)
    ensures
        r@ == first_chars(s@, max as nat),
{
    let v = chars_of(s);
    if v.len() <= max {
        String::from_str(s)
    } else {
        let r = text_of(&v, 0, max);
        assert(r@ =~= s@.take(max as int));
        r
    }
}

} // verus!
