//! Things that can be summed up in a line of text.

use vstd::prelude::*;
use vstd::string::StringExecFns;

verus! {

/// The summary of anything that has no more to say of itself.
pub open spec fn default_summary() -> Seq<char> {
    "read more ..."@
}

/// Something that can be summed up in a line of text.
pub trait Summary {
    /// The line that sums `self` up.
    spec fn summary(&self) -> Seq<char>;

    /// Returns the line that sums `self` up.
    fn summarize(&self) -> (line: String)
        ensures
            line@ == self.summary(),
    ;
}

/// Returns the default summary, for implementations of `Summary` that have
/// no line of their own.
pub fn read_more() -> (line: String)
    ensures
        line@ == default_summary(),
{
    "read more ...".to_owned()
}

/// A piece of news.
pub struct NewArticle {
    pub title: String,
    pub content: String,
    pub author: String,
}

impl Summary for NewArticle {
    /// Author, title and content, as `author:title-content`.
    open spec fn summary(&self) -> Seq<char> {
        self.author@ + ":"@ + self.title@ + "-"@ + self.content@
    }

    fn summarize(&self) -> (line: String) {
        let mut line = self.author.clone();
        line.append(":");
        line.append(self.title.as_str());
        line.append("-");
        line.append(self.content.as_str());
        line
    }
}

/// The summary of the article that `summarizable_item` returns.
pub open spec fn sample_summary() -> Seq<char> {
    "min:today's news-stock price"@
}

/// Returns something to try summaries on: an article by `min`, titled
/// `today's news`, on the `stock price`.
pub fn summarizable_item() -> (item: impl Summary)
    ensures
        item.summary() == sample_summary(),
{
    proof {
        reveal_strlit("min");
        reveal_strlit(":");
        reveal_strlit("today's news");
        reveal_strlit("-");
        reveal_strlit("stock price");
        reveal_strlit("min:today's news-stock price");
        assert("min"@ + ":"@ + "today's news"@ + "-"@ + "stock price"@
            =~= "min:today's news-stock price"@);
    }
    NewArticle {
        title: "today's news".to_owned(),
        content: "stock price".to_owned(),
        author: "min".to_owned(),
    }
}

} // verus!
