//! The content of the articles page: how it is read out of a JSON
//! document, and what is shown when it cannot be loaded.

use vstd::prelude::*;
use crate::json::{values_view, JsonValue, JsonValueView};
use crate::utils::owned;
use crate::xhr::{
    array_member, get_array_from_obj, get_string_array_from_obj, get_string_from_obj,
    string_array_member, string_member, strings_view,
};

verus! {

/// An article of the articles page.
#[derive(Debug, PartialEq, Eq)]
pub struct Article {
    pub title: String,
    pub content: String,
    pub date: String,
    pub author: String,
    pub tags: Vec<String>,
}

/// The mathematical value of an [`Article`].
pub struct ArticleView {
    pub title: Seq<char>,
    pub content: Seq<char>,
    pub date: Seq<char>,
    pub author: Seq<char>,
    pub tags: Seq<Seq<char>>,
}

impl View for Article {
    type V = ArticleView;

    open spec fn view(&self) -> ArticleView {
        ArticleView {
            title: self.title@,
            content: self.content@,
            date: self.date@,
            author: self.author@,
            tags: strings_view(self.tags@),
        }
    }
}

impl Clone for Article {
    fn clone(&self) -> (copy: Article)
        ensures
            copy@ == self@,
    {
        let mut tags: Vec<String> = Vec::new();
        let mut i: usize = 0;
        while i < self.tags.len()
            invariant
                i <= self.tags.len(),
                tags@.len() == i,
                forall|j: int| 0 <= j < i ==> (#[trigger] tags@[j])@ == self.tags@[j]@,
            decreases self.tags.len() - i,
        {
            tags.push(self.tags[i].clone());
            i += 1;
        }
        assert(strings_view(tags@) =~= strings_view(self.tags@));
        Article {
            title: self.title.clone(),
            content: self.content.clone(),
            date: self.date.clone(),
            author: self.author.clone(),
            tags,
        }
    }
}

/// The mathematical values of a list of articles.
pub open spec fn articles_view(articles: Seq<Article>) -> Seq<ArticleView> {
    Seq::new(articles.len(), |i: int| articles[i]@)
}

/// What the articles page shows.
#[derive(Debug, PartialEq, Eq)]
pub struct Content {
    pub articles: Vec<Article>,
}

/// The mathematical value of a [`Content`].
pub struct ContentView {
    pub articles: Seq<ArticleView>,
}

impl View for Content {
    type V = ContentView;

    open spec fn view(&self) -> ContentView {
        ContentView { articles: articles_view(self.articles@) }
    }
}

impl Clone for Content {
    fn clone(&self) -> (copy: Content)
        ensures
            copy@ == self@,
    {
        let mut articles: Vec<Article> = Vec::new();
        let mut i: usize = 0;
        while i < self.articles.len()
            invariant
                i <= self.articles.len(),
                articles@.len() == i,
                forall|j: int| 0 <= j < i ==> (#[trigger] articles@[j])@ == self.articles@[j]@,
            decreases self.articles.len() - i,
        {
            articles.push(self.articles[i].clone());
            i += 1;
        }
        assert(articles_view(articles@) =~= articles_view(self.articles@));
        Content { articles }
    }
}

/// The article that stands in while there is no content.
pub open spec fn fallback_article() -> ArticleView {
    ArticleView {
        title: "Loading..."@,
        content: "Content is loading..."@,
        date: Seq::empty(),
        author: Seq::empty(),
        tags: Seq::empty(),
    }
}

/// The content that stands in while there is none: the fallback article
/// alone.
pub open spec fn fallback_content() -> ContentView {
    ContentView { articles: seq![fallback_article()] }
}

/// The article that a JSON object describes: the strings under `title`,
/// `content`, `date` and `author`, each empty where the property is missing
/// or no string, and the strings among the items of `tags`.
pub open spec fn article_of(obj: JsonValueView) -> ArticleView {
    ArticleView {
        title: string_or_empty(string_member(obj, "title"@)),
        content: string_or_empty(string_member(obj, "content"@)),
        date: string_or_empty(string_member(obj, "date"@)),
        author: string_or_empty(string_member(obj, "author"@)),
        tags: string_array_member(obj, "tags"@),
    }
}

/// The text, or the empty string where there is none.
pub open spec fn string_or_empty(text: Option<Seq<char>>) -> Seq<char> {
    match text {
        Some(content) => content,
        None => Seq::empty(),
    }
}

/// The articles of the objects among JSON values, in their order.
pub open spec fn articles_among(items: Seq<JsonValueView>) -> Seq<ArticleView>
    decreases items.len(),
{
    if items.len() == 0 {
        Seq::empty()
    } else {
        match items.last() {
            JsonValueView::Object(_) => articles_among(items.drop_last()).push(
                article_of(items.last()),
            ),
            _ => articles_among(items.drop_last()),
        }
    }
}

/// The content that a JSON document describes: the document is an object
/// whose property `articles` is an array, and the content holds the
/// articles of the objects in that array. Any other document describes no
/// content.
pub open spec fn content_of(document: JsonValueView) -> Option<ContentView> {
    match document {
        JsonValueView::Object(_) => match array_member(document, "articles"@) {
            Some(items) => Some(ContentView { articles: articles_among(items) }),
            None => None,
        },
        _ => None,
    }
}

/// The value of an optional content.
pub open spec fn content_view(content: Option<Content>) -> Option<ContentView> {
    match content {
        Some(found) => Some(found@),
        None => None,
    }
}

/// The text, or the empty string where there is none.
fn unwrap_or_default(text: Option<String>) -> (content: String)
    ensures
        content@ == string_or_empty(crate::xhr::text_view(text)),
{
    match text {
        Some(content) => content,
        None => String::new(),
    }
}

/// Reads the content out of a parsed JSON document.
pub fn parse_json(document: &JsonValue) -> (content: Option<Content>)
    ensures
        content_view(content) == content_of(document@),
{
    match document {
        JsonValue::Object(_) => {},
        _ => {
            return None;
        },
    }
    let items = match get_array_from_obj(document, "articles") {
        Some(items) => items,
        None => {
            return None;
        },
    };
    let ghost views = values_view(items@);
    let mut articles: Vec<Article> = Vec::new();
    let mut i: usize = 0;
    assert(articles_view(articles@) =~= articles_among(views.take(0)));
    while i < items.len()
        invariant
            i <= items.len(),
            views == values_view(items@),
            articles_view(articles@) == articles_among(views.take(i as int)),
        decreases items.len() - i,
    {
        proof {
            assert(views.take(i + 1).drop_last() =~= views.take(i as int));
            assert(views.take(i + 1).last() == items@[i as int]@);
        }
        let ghost before = articles_view(articles@);
        let item = &items[i];
        match item {
            JsonValue::Object(_) => {
                let article = Article {
                    title: unwrap_or_default(get_string_from_obj(item, "title")),
                    content: unwrap_or_default(get_string_from_obj(item, "content")),
                    date: unwrap_or_default(get_string_from_obj(item, "date")),
                    author: unwrap_or_default(get_string_from_obj(item, "author")),
                    tags: get_string_array_from_obj(item, "tags"),
                };
                assert(article@ == article_of(item@));
                articles.push(article);
                assert(articles_view(articles@) =~= before.push(article_of(item@)));
            },
            _ => {},
        }
        i += 1;
    }
    assert(views.take(items.len() as int) =~= views);
    Some(Content { articles })
}

/// The article that stands in while there is no content.
pub fn create_fallback_article() -> (article: Article)
    ensures
        article@ == fallback_article(),
{
    let article = Article {
        title: owned("Loading..."),
        content: owned("Content is loading..."),
        date: String::new(),
        author: String::new(),
        tags: Vec::new(),
    };
    assert(article@.tags =~= Seq::empty());
    article
}

/// Keeps the content of the articles page once it was loaded.
pub struct ContentLoader {
    cache: Option<Content>,
}

impl View for ContentLoader {
    type V = Option<ContentView>;

    closed spec fn view(&self) -> Option<ContentView> {
        content_view(self.cache)
    }
}

/// What the page shows for the answer to the request for the content: the
/// content of the document where the status is 200 and the body is a
/// document that describes one, the fallback content otherwise.
pub open spec fn loaded_content(status: u16, body: Option<JsonValueView>) -> ContentView {
    match fetched_content(status, body) {
        Some(content) => content,
        None => fallback_content(),
    }
}

/// The content that the answer to the request carries, where it does.
pub open spec fn fetched_content(status: u16, body: Option<JsonValueView>) -> Option<ContentView> {
    if status == 200 {
        match body {
            Some(document) => content_of(document),
            None => None,
        }
    } else {
        None
    }
}

/// The value of an optional JSON document.
pub open spec fn body_view(body: Option<&JsonValue>) -> Option<JsonValueView> {
    match body {
        Some(document) => Some(document@),
        None => None,
    }
}

impl ContentLoader {
    /// A loader that has loaded nothing.
    pub fn new() -> (loader: ContentLoader)
        ensures
            loader@ is None,
    {
        ContentLoader { cache: None }
    }

    /// The content that was loaded before, where there is one. While this
    /// is `None` the content has to be fetched.
    pub fn cached(&self) -> (content: Option<Content>)
        ensures
            content_view(content) == self@,
    {
        match &self.cache {
            Some(content) => Some(content.clone()),
            None => None,
        }
    }
}

/// Settles what the articles page shows once the request for the content
/// was answered with `status` and, where the response text was a JSON
/// document, `body`. Content that was loaded before is kept and shown
/// again. A document that describes content is shown and kept; after any
/// failure the fallback content is shown and nothing is kept.
pub fn load_content(loader: &mut ContentLoader, status: u16, body: Option<&JsonValue>) -> (content:
    Content)
    ensures
        match old(loader)@ {
            Some(kept) => content@ == kept && final(loader)@ == old(loader)@,
            None => content@ == loaded_content(status, body_view(body)) && final(loader)@
                == fetched_content(status, body_view(body)),
        },
{
    match loader.cached() {
        Some(content) => {
            return content;
        },
        None => {},
    }
    let parsed = if status == 200 {
        match body {
            Some(document) => parse_json(document),
            None => None,
        }
    } else {
        None
    };
    match parsed {
        Some(content) => {
            loader.cache = Some(content.clone());
            content
        },
        None => {
            let mut articles: Vec<Article> = Vec::new();
            articles.push(create_fallback_article());
            let content = Content { articles };
            assert(content@.articles =~= fallback_content().articles);
            content
        },
    }
}

} // verus!
