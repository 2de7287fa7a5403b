//! Things that can be summed up in a line of text.

use vstd::prelude::*;

verus! {

/// A thing that can be summed up in a line.
pub trait Summary {
    /// Sums this up in a line.
    fn summarize(&self) -> String;
}

/// A piece of news.
pub struct NewsArticle {
    pub headline: String,
    pub location: String,
    pub author: String,
    pub content: String,
}

impl NewsArticle {
    /// The line that sums an article up: the headline, then the author, then the
    /// place in brackets.
    pub open spec fn summary(&self) -> Seq<char> {
        self.headline@ + ", by "@ + self.author@ + ", ("@ + self.location@ + ")"@
    }
}

impl Summary for NewsArticle {
    fn summarize(&self) -> (line: String)
        ensures
            line@ == self.summary(),
    {
        let mut line = self.headline.clone();
        line.append(", by ");
        line.append(self.author.as_str());
        line.append(", (");
        line.append(self.location.as_str());
        line.append(")");
        line
    }
}

/// A post on a social network.
pub struct SocialPost {
    pub username: String,
    pub content: String,
    pub reply: bool,
    pub repost: bool,
}

impl SocialPost {
    /// The line that sums a post up: the user's name, a colon, and what they wrote.
    pub open spec fn summary(&self) -> Seq<char> {
        self.username@ + ": "@ + self.content@
    }
}

impl Summary for SocialPost {
    fn summarize(&self) -> (line: String)
        ensures
            line@ == self.summary(),
    {
        let mut line = self.username.clone();
        line.append(": ");
        line.append(self.content.as_str());
        line
    }
}

} // verus!
