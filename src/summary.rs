//! Short summaries of articles and tweets.
use vstd::prelude::*;
use vstd::string::StringExecFns;

verus! {

/// `"(Read more from " + author + "...)"`.
pub open spec fn read_more_text(author: Seq<char>) -> Seq<char> {
    "(Read more from "@ + author + "...)"@
}

/// Builds the default summary for an author.
pub fn read_more(author: &str) -> (r: String)
    ensures
        r@ == read_more_text(author@),
{
    let mut s = String::from_str("(Read more from ");
    s.append(author);
    s.append("...)");
    s
}

/// Something that can be summed up in a line.
pub trait Summary {
    /// Who wrote it.
    fn summarize_author(&self) -> String;

    /// A one-line summary; by default, a pointer to the author.
    fn summarize(&self) -> String {
        let author = self.summarize_author();
        read_more(author.as_str())
    }
}

/// A news article.
pub struct NewsArticle {
    pub author: String,
    pub headline: String,
    pub content: String,
}

impl Summary for NewsArticle {
    fn summarize_author(&self) -> String {
        self.author.clone()
    }
}

/// A tweet.
pub struct Tweet {
    pub username: String,
    pub content: String,
    pub reply: bool,
    pub retweet: bool,
}

impl Tweet {
    /// The handle, `"@" + username`.
    pub fn handle(&self) -> (r: String)
        ensures
            r@ == "@"@ + self.username@,
    {
        let mut s = String::from_str("@");
        s.append(self.username.as_str());
        s
    }

    /// `"@" + username + ": " + content`.
    pub fn line(&self) -> (r: String)
        ensures
            r@ == "@"@ + self.username@ + ": "@ + self.content@,
    {
        let mut s = self.handle();
        s.append(": ");
        s.append(self.content.as_str());
        s
    }
}

impl Summary for Tweet {
    fn summarize_author(&self) -> String {
        self.handle()
    }

    fn summarize(&self) -> String {
        self.line()
    }
}

} // verus!
