use workbook::aggregator::{NewsArticle, SocialPost, Summary};

#[test]
fn a_post_is_summed_up_by_name_and_text() {
    let post = SocialPost {
        username: "username_value".to_string(),
        content: "content_value".to_string(),
        reply: false,
        repost: false,
    };
    assert_eq!(post.summarize(), "username_value: content_value");
}

#[test]
fn an_article_is_summed_up_by_headline_author_and_place() {
    let article = NewsArticle {
        headline: String::from("Penguins win the Stanley Cup Championship!"),
        location: String::from("Pittsburgh, PA, USA"),
        author: String::from("Iceburgh"),
        content: String::from("The Pittsburgh Penguins once again are the best hockey team in the NHL."),
    };
    assert_eq!(
        article.summarize(),
        "Penguins win the Stanley Cup Championship!, by Iceburgh, (Pittsburgh, PA, USA)"
    );
}

#[test]
fn empty_fields_leave_the_frame() {
    let article = NewsArticle {
        headline: String::new(),
        location: String::new(),
        author: String::new(),
        content: String::from("unused"),
    };
    assert_eq!(article.summarize(), ", by , ()");
    let post = SocialPost {
        username: String::new(),
        content: String::new(),
        reply: true,
        repost: true,
    };
    assert_eq!(post.summarize(), ": ");
}

struct Note(String);

impl Summary for Note {
    fn summarize(&self) -> String {
        self.0.clone()
    }
}

fn summed_up(item: &impl Summary) -> String {
    item.summarize()
}

#[test]
fn anything_can_be_summed_up() {
    assert_eq!(summed_up(&Note(String::from("remember"))), "remember");
    let post = SocialPost {
        username: "a".to_string(),
        content: "b".to_string(),
        reply: false,
        repost: false,
    };
    assert_eq!(summed_up(&post), "a: b");
}
