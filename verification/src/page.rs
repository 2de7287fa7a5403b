//! What to say about the title of a web page.

use vstd::prelude::*;

verus! {

/// `trpl::Html::parse`, `trpl::Html::select_first` and the `inner_html` of the
/// element found: the markup inside the first `title` element of a document, or
/// `None` where the document has none. Nothing is claimed of the markup: where
/// the title holds elements with several attributes, their order is not fixed.
#[verifier::external_body]
fn first_title(html: &str) -> (title: Option<String>) {
    match trpl::Html::parse(html).select_first("title") {
        Some(element) => Some(element.inner_html()),
        None => None,
    }
}

/// The sentence about a page and its title.
pub open spec fn sentence_for(url: Seq<char>, title: Option<Seq<char>>) -> Seq<char> {
    match title {
        Some(title) => "The title for "@ + url + " was "@ + title,
        None => url + " had no title"@,
    }
}

/// Says what the title of the page at `url` was, or that it had none.
pub fn describe_title(url: &str, title: Option<&str>) -> (sentence: String)
    ensures
        sentence@ == sentence_for(
            url@,
            match title {
                Some(title) => Some(title@),
                None => None,
            },
        ),
{
    match title {
        Some(title) => {
            let mut sentence = "The title for ".to_owned();
            sentence.append(url);
            sentence.append(" was ");
            sentence.append(title);
            sentence
        },
        None => {
            let mut sentence = url.to_owned();
            sentence.append(" had no title");
            sentence
        },
    }
}

/// Reads the title out of the text of the page at `url` and says what it was. The
/// sentence is the one for the page's address and for some title, or for none.
pub fn title_sentence(url: &str, html: &str) -> (sentence: String)
    ensures
        exists|title: Option<Seq<char>>| sentence@ == sentence_for(url@, title),
{
    let title = first_title(html);
    match title {
        Some(title) => {
            let sentence = describe_title(url, Some(title.as_str()));
            assert(sentence@ == sentence_for(url@, Some(title@)));
            sentence
        },
        None => {
            let sentence = describe_title(url, None);
            assert(sentence@ == sentence_for(url@, None));
            sentence
        },
    }
}

} // verus!
