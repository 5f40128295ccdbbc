use rsx_ui::content_loader::{
    create_fallback_article, load_content, parse_json, Article, Content, ContentLoader,
};
use rsx_ui::json::JsonValue;
use rsx_ui::utils::str_eq;
use rsx_ui::xhr::{
    clear_cache, get_array_from_obj, get_string_array_from_obj, get_string_from_obj,
    ResourceCache, ResourceType, SendStep, XhrError, XhrRequest, XhrResponse,
};

fn string(text: &str) -> JsonValue {
    JsonValue::Text(text.to_string())
}

fn object(members: Vec<(&str, JsonValue)>) -> JsonValue {
    JsonValue::Object(members.into_iter().map(|(key, value)| (key.to_string(), value)).collect())
}

fn article_json(title: &str) -> JsonValue {
    object(vec![
        ("title", string(title)),
        ("content", string("text")),
        ("date", string("2024-05-01")),
        ("author", string("me")),
        ("tags", JsonValue::Array(vec![string("a"), JsonValue::Number("1".to_string()), string("b")])),
    ])
}

fn fallback() -> Content {
    Content { articles: vec![create_fallback_article()] }
}

#[test]
fn test_json_accessors() {
    let value = object(vec![
        ("name", string("x")),
        ("n", JsonValue::Number("3".to_string())),
        ("name", string("shadowed")),
        ("list", JsonValue::Array(vec![JsonValue::Null, JsonValue::Bool(true)])),
    ]);
    assert_eq!(value.get("name"), Some(&string("x")));
    assert_eq!(value.get("n"), Some(&JsonValue::Number("3".to_string())));
    assert_eq!(value.get("missing"), None);
    assert_eq!(string("s").get("name"), None);
    assert_eq!(JsonValue::Array(Vec::new()).get("0"), None);
    assert_eq!(string("s").as_string(), Some("s"));
    assert_eq!(JsonValue::Null.as_string(), None);
    assert_eq!(JsonValue::Number("1".to_string()).as_string(), None);
    assert_eq!(value.get("list").unwrap().as_array().unwrap().len(), 2);
    assert_eq!(value.as_array(), None);
}

#[test]
fn test_object_helpers() {
    let obj = article_json("T");
    assert_eq!(get_string_from_obj(&obj, "title"), Some("T".to_string()));
    assert_eq!(get_string_from_obj(&obj, "tags"), None);
    assert_eq!(get_string_from_obj(&obj, "nope"), None);
    assert_eq!(get_string_from_obj(&JsonValue::Null, "title"), None);
    assert_eq!(get_array_from_obj(&obj, "tags").unwrap().len(), 3);
    assert_eq!(get_array_from_obj(&obj, "title"), None);
    assert_eq!(get_array_from_obj(&obj, "nope"), None);
    assert_eq!(get_string_array_from_obj(&obj, "tags"), vec!["a".to_string(), "b".to_string()]);
    assert!(get_string_array_from_obj(&obj, "title").is_empty());
    assert!(get_string_array_from_obj(&obj, "nope").is_empty());
}

#[test]
fn test_parse_json_reads_articles() {
    let document = object(vec![(
        "articles",
        JsonValue::Array(vec![
            article_json("First"),
            string("not an article"),
            object(vec![("title", JsonValue::Number("5".to_string()))]),
            JsonValue::Null,
            article_json("Last"),
        ]),
    )]);
    let content = parse_json(&document).unwrap();
    assert_eq!(content.articles.len(), 3);
    assert_eq!(
        content.articles[0],
        Article {
            title: "First".to_string(),
            content: "text".to_string(),
            date: "2024-05-01".to_string(),
            author: "me".to_string(),
            tags: vec!["a".to_string(), "b".to_string()],
        }
    );
    assert_eq!(
        content.articles[1],
        Article {
            title: String::new(),
            content: String::new(),
            date: String::new(),
            author: String::new(),
            tags: Vec::new(),
        }
    );
    assert_eq!(content.articles[2].title, "Last");
}

#[test]
fn test_parse_json_rejects_other_documents() {
    assert_eq!(parse_json(&JsonValue::Null), None);
    assert_eq!(parse_json(&string("articles")), None);
    assert_eq!(parse_json(&JsonValue::Array(vec![article_json("x")])), None);
    assert_eq!(parse_json(&object(Vec::new())), None);
    assert_eq!(parse_json(&object(vec![("articles", string("none"))])), None);
    assert_eq!(parse_json(&object(vec![("other", JsonValue::Array(Vec::new()))])), None);
    let empty = parse_json(&object(vec![("articles", JsonValue::Array(Vec::new()))]));
    assert_eq!(empty, Some(Content { articles: Vec::new() }));
}

#[test]
fn test_fallback_article() {
    let article = create_fallback_article();
    assert_eq!(article.title, "Loading...");
    assert_eq!(article.content, "Content is loading...");
    assert_eq!(article.date, "");
    assert_eq!(article.author, "");
    assert!(article.tags.is_empty());
}

#[test]
fn test_load_content_falls_back_on_failure() {
    let document = object(vec![("articles", JsonValue::Array(vec![article_json("A")]))]);
    let mut loader = ContentLoader::new();
    assert_eq!(load_content(&mut loader, 404, Some(&document)), fallback());
    assert_eq!(loader.cached(), None);
    assert_eq!(load_content(&mut loader, 200, None), fallback());
    assert_eq!(loader.cached(), None);
    assert_eq!(load_content(&mut loader, 200, Some(&string("oops"))), fallback());
    assert_eq!(loader.cached(), None);
    assert_eq!(load_content(&mut loader, 500, None), fallback());
    assert_eq!(loader.cached(), None);
}

#[test]
fn test_load_content_caches_first_successful_load() {
    let first = object(vec![("articles", JsonValue::Array(vec![article_json("A")]))]);
    let second = object(vec![("articles", JsonValue::Array(vec![article_json("B")]))]);
    let mut loader = ContentLoader::new();
    assert_eq!(loader.cached(), None);
    let loaded = load_content(&mut loader, 200, Some(&first));
    assert_eq!(loaded.articles.len(), 1);
    assert_eq!(loaded.articles[0].title, "A");
    assert_eq!(loader.cached(), Some(loaded.clone()));
    assert_eq!(load_content(&mut loader, 200, Some(&second)), loaded);
    assert_eq!(load_content(&mut loader, 500, None), loaded);
    assert_eq!(loader.cached().unwrap().articles[0].title, "A");
}

#[test]
fn test_resource_content_types() {
    assert_eq!(ResourceType::CSS.content_type(), "text/css");
    assert_eq!(ResourceType::JSON.content_type(), "application/json");
    assert_eq!(ResourceType::HTML.content_type(), "text/html");
    assert_eq!(ResourceType::Text.content_type(), "text/plain");
}

#[test]
fn test_send_fetches_when_nothing_is_cached() {
    let cache = ResourceCache::new();
    let request = XhrRequest::new("style.css", ResourceType::CSS);
    assert_eq!(
        request.send(&cache),
        SendStep::Fetch { url: "style.css".to_string(), content_type: "text/css" }
    );
}

#[test]
fn test_receive_caches_good_answers() {
    let mut cache = ResourceCache::new();
    let request = XhrRequest::new("data.json", ResourceType::JSON);
    let result =
        request.receive(&mut cache, XhrResponse { status: 200, text: Some("{}".to_string()) });
    assert_eq!(result, Ok("{}".to_string()));
    assert_eq!(cache.get("data.json"), Some("{}".to_string()));
    assert_eq!(request.send(&cache), SendStep::Cached("{}".to_string()));
    let other = XhrRequest::new("other.json", ResourceType::JSON);
    assert_eq!(
        other.send(&cache),
        SendStep::Fetch { url: "other.json".to_string(), content_type: "application/json" }
    );
    let result =
        request.receive(&mut cache, XhrResponse { status: 200, text: Some("[1]".to_string()) });
    assert_eq!(result, Ok("[1]".to_string()));
    assert_eq!(cache.get("data.json"), Some("[1]".to_string()));
}

#[test]
fn test_disabled_cache_is_neither_read_nor_written() {
    let mut cache = ResourceCache::new();
    cache.insert("page.html", "<p>old</p>");
    let request = XhrRequest::new("page.html", ResourceType::HTML).disable_cache();
    assert_eq!(
        request.send(&cache),
        SendStep::Fetch { url: "page.html".to_string(), content_type: "text/html" }
    );
    let result = request
        .receive(&mut cache, XhrResponse { status: 200, text: Some("<p>new</p>".to_string()) });
    assert_eq!(result, Ok("<p>new</p>".to_string()));
    assert_eq!(cache.get("page.html"), Some("<p>old</p>".to_string()));
}

#[test]
fn test_receive_errors() {
    let mut cache = ResourceCache::new();
    let request = XhrRequest::new("notes.txt", ResourceType::Text);
    let result = request.receive(&mut cache, XhrResponse { status: 200, text: None });
    assert_eq!(result, Err(XhrError::NoResponseText));
    assert_eq!(XhrError::NoResponseText.message(), "Failed to get response text");
    let result =
        request.receive(&mut cache, XhrResponse { status: 404, text: Some("gone".to_string()) });
    assert_eq!(result, Err(XhrError::Status { url: "notes.txt".to_string(), status: 404 }));
    assert_eq!(
        result.unwrap_err().message(),
        "Failed to load resource: notes.txt (Status: 404)"
    );
    let result = request.receive(&mut cache, XhrResponse { status: 0, text: None });
    assert_eq!(result.unwrap_err().message(), "Failed to load resource: notes.txt (Status: 0)");
    assert_eq!(cache.get("notes.txt"), None);
}

#[test]
fn test_clear_cache() {
    let mut cache = ResourceCache::new();
    cache.insert("a", "1");
    cache.insert("b", "2");
    assert_eq!(cache.get("a"), Some("1".to_string()));
    clear_cache(&mut cache);
    assert_eq!(cache.get("a"), None);
    assert_eq!(cache.get("b"), None);
}

#[test]
fn test_str_eq() {
    assert!(str_eq("", ""));
    assert!(str_eq("abc", "abc"));
    assert!(!str_eq("abc", "abd"));
    assert!(!str_eq("abc", "ab"));
    assert!(!str_eq("", "a"));
    assert!(str_eq("caf\u{e9}", "caf\u{e9}"));
    assert!(!str_eq("cafe", "caf\u{e9}"));
}
