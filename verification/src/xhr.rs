//! Loading resources: what a request asks for, what is answered from the
//! cache, and what an answer comes to. The request itself is made by the
//! host.

use vstd::prelude::*;
use vstd::hash_map::StringHashMap;
use vstd::string::StringExecFns;
use crate::json::{values_view, JsonValue, JsonValueView};
use crate::utils::{decimal, format_i32, owned};

verus! {

/// The kind of a resource that is loaded.
#[derive(Copy, Clone, Debug, PartialEq, Eq, Structural)]
pub enum ResourceType {
    CSS,
    JSON,
    HTML,
    Text,
}

impl ResourceType {
    /// The media type of the kind.
    pub open spec fn media_type(self) -> Seq<char> {
        match self {
            ResourceType::CSS => "text/css"@,
            ResourceType::JSON => "application/json"@,
            ResourceType::HTML => "text/html"@,
            ResourceType::Text => "text/plain"@,
        }
    }

    /// The value of the content type header for the kind.
    pub fn content_type(&self) -> (media_type: &'static str)
        ensures
            media_type@ == self.media_type(),
    {
        match self {
            ResourceType::CSS => "text/css",
            ResourceType::JSON => "application/json",
            ResourceType::HTML => "text/html",
            ResourceType::Text => "text/plain",
        }
    }
}

/// The resources that were loaded, by their URL.
pub struct ResourceCache {
    entries: StringHashMap<String>,
}

impl View for ResourceCache {
    type V = Map<Seq<char>, Seq<char>>;

    closed spec fn view(&self) -> Map<Seq<char>, Seq<char>> {
        self.entries@.map_values(|text: String| text@)
    }
}

impl ResourceCache {
    /// An empty cache.
    pub fn new() -> (cache: ResourceCache)
        ensures
            cache@ == Map::<Seq<char>, Seq<char>>::empty(),
    {
        let cache = ResourceCache { entries: StringHashMap::new() };
        assert(cache@ =~= Map::<Seq<char>, Seq<char>>::empty());
        cache
    }

    /// The resource that is kept for `url`.
    pub fn get(&self, url: &str) -> (content: Option<String>)
        ensures
            match content {
                Some(text) => self@.contains_key(url@) && self@[url@] == text@,
                None => !self@.contains_key(url@),
            },
    {
        match self.entries.get(url) {
            Some(text) => Some(text.clone()),
            None => None,
        }
    }

    /// Keeps `content` for `url`, in place of what was kept for it.
    pub fn insert(&mut self, url: &str, content: &str)
        ensures
            final(self)@ == old(self)@.insert(url@, content@),
    {
        self.entries.insert(owned(url), owned(content));
        assert(self@ =~= old(self)@.insert(url@, content@));
    }
}

/// Forgets every resource that was loaded.
pub fn clear_cache(cache: &mut ResourceCache)
    ensures
        final(cache)@ == Map::<Seq<char>, Seq<char>>::empty(),
{
    cache.entries.clear();
    assert(cache@ =~= Map::<Seq<char>, Seq<char>>::empty());
}

/// A request for a resource.
#[derive(Debug, PartialEq, Eq)]
pub struct XhrRequest {
    url: String,
    resource_type: ResourceType,
    use_cache: bool,
}

/// The mathematical value of an [`XhrRequest`].
pub struct XhrRequestView {
    pub url: Seq<char>,
    pub resource_type: ResourceType,
    pub use_cache: bool,
}

impl View for XhrRequest {
    type V = XhrRequestView;

    closed spec fn view(&self) -> XhrRequestView {
        XhrRequestView {
            url: self.url@,
            resource_type: self.resource_type,
            use_cache: self.use_cache,
        }
    }
}

/// What sending a request comes to before anything goes over the network.
#[derive(Debug, PartialEq, Eq)]
pub enum SendStep {
    /// The resource was loaded before: this is its content.
    Cached(String),
    /// The resource has to be fetched with a GET request for `url` that
    /// carries `content_type` in its content type header.
    Fetch { url: String, content_type: &'static str },
}

/// The mathematical value of a [`SendStep`].
pub enum SendStepView {
    Cached(Seq<char>),
    Fetch { url: Seq<char>, content_type: Seq<char> },
}

impl View for SendStep {
    type V = SendStepView;

    open spec fn view(&self) -> SendStepView {
        match *self {
            SendStep::Cached(content) => SendStepView::Cached(content@),
            SendStep::Fetch { url, content_type } => SendStepView::Fetch {
                url: url@,
                content_type: content_type@,
            },
        }
    }
}

/// The answer to a request: the status, and the response text where there
/// is one.
#[derive(Debug, PartialEq, Eq)]
pub struct XhrResponse {
    pub status: u16,
    pub text: Option<String>,
}

/// Why a resource could not be loaded.
#[derive(Debug, PartialEq, Eq)]
pub enum XhrError {
    /// The status was 200 and the response had no text.
    NoResponseText,
    /// The status was not 200.
    Status { url: String, status: u16 },
}

/// The mathematical value of an [`XhrError`].
pub enum XhrErrorView {
    NoResponseText,
    Status { url: Seq<char>, status: u16 },
}

impl XhrErrorView {
    /// The message of the error.
    pub open spec fn message(self) -> Seq<char> {
        match self {
            XhrErrorView::NoResponseText => "Failed to get response text"@,
            XhrErrorView::Status { url, status } => "Failed to load resource: "@ + url
                + " (Status: "@ + decimal(status as int) + ")"@,
        }
    }
}

impl View for XhrError {
    type V = XhrErrorView;

    open spec fn view(&self) -> XhrErrorView {
        match *self {
            XhrError::NoResponseText => XhrErrorView::NoResponseText,
            XhrError::Status { url, status } => XhrErrorView::Status { url: url@, status },
        }
    }
}

impl XhrError {
    /// The message of the error.
    pub fn message(&self) -> (message: String)
        ensures
            message@ == self@.message(),
    {
        match self {
            XhrError::NoResponseText => owned("Failed to get response text"),
            XhrError::Status { url, status } => {
                let mut message = owned("Failed to load resource: ");
                message.append(url.as_str());
                message.append(" (Status: ");
                let code = format_i32(*status as i32);
                message.append(code.as_str());
                message.append(")");
                message
            },
        }
    }
}

impl XhrRequestView {
    /// What sending the request comes to with the cache `cache`: the kept
    /// content where the request uses the cache and the cache holds its
    /// URL, a fetch otherwise.
    pub open spec fn send(self, cache: Map<Seq<char>, Seq<char>>) -> SendStepView {
        if self.use_cache && cache.contains_key(self.url) {
            SendStepView::Cached(cache[self.url])
        } else {
            SendStepView::Fetch { url: self.url, content_type: self.resource_type.media_type() }
        }
    }

    /// The cache after the answer `status` and `text` to the request: the
    /// text is kept for the URL where the status is 200, there is a text
    /// and the request uses the cache.
    pub open spec fn cache_after(
        self,
        cache: Map<Seq<char>, Seq<char>>,
        status: u16,
        text: Option<Seq<char>>,
    ) -> Map<Seq<char>, Seq<char>> {
        if status == 200 && text is Some && self.use_cache {
            cache.insert(self.url, text->0)
        } else {
            cache
        }
    }

    /// What the request gives for the answer `status` and `text`.
    pub open spec fn outcome(self, status: u16, text: Option<Seq<char>>) -> Result<
        Seq<char>,
        XhrErrorView,
    > {
        if status == 200 {
            match text {
                Some(content) => Ok(content),
                None => Err(XhrErrorView::NoResponseText),
            }
        } else {
            Err(XhrErrorView::Status { url: self.url, status })
        }
    }
}

/// The value of the result of a request.
pub open spec fn outcome_view(result: Result<String, XhrError>) -> Result<Seq<char>, XhrErrorView> {
    match result {
        Ok(content) => Ok(content@),
        Err(error) => Err(error@),
    }
}

/// The value of an optional text.
pub open spec fn text_view(text: Option<String>) -> Option<Seq<char>> {
    match text {
        Some(content) => Some(content@),
        None => None,
    }
}

impl XhrRequest {
    /// A request for `url` that uses the cache.
    pub fn new(url: &str, resource_type: ResourceType) -> (request: XhrRequest)
        ensures
            request@ == (XhrRequestView { url: url@, resource_type, use_cache: true }),
    {
        XhrRequest { url: owned(url), resource_type, use_cache: true }
    }

    /// The same request without the cache.
    pub fn disable_cache(self) -> (request: XhrRequest)
        ensures
            request@ == (XhrRequestView { use_cache: false, ..self@ }),
    {
        let mut request = self;
        request.use_cache = false;
        request
    }

    /// The first half of sending the request: the cached content, or what
    /// to fetch.
    pub fn send(&self, cache: &ResourceCache) -> (step: SendStep)
        ensures
            step@ == self@.send(cache@),
    {
        if self.use_cache {
            match cache.get(self.url.as_str()) {
                Some(content) => {
                    return SendStep::Cached(content);
                },
                None => {},
            }
        }
        SendStep::Fetch { url: self.url.clone(), content_type: self.resource_type.content_type() }
    }

    /// The second half of sending the request, once the answer is there:
    /// keeps a good answer in the cache where the request uses it, and
    /// gives the text or the error.
    pub fn receive(&self, cache: &mut ResourceCache, response: XhrResponse) -> (result: Result<
        String,
        XhrError,
    >)
        ensures
            final(cache)@ == self@.cache_after(old(cache)@, response.status, text_view(response.text)),
            outcome_view(result) == self@.outcome(response.status, text_view(response.text)),
    {
        if response.status == 200 {
            match response.text {
                Some(content) => {
                    if self.use_cache {
                        cache.insert(self.url.as_str(), content.as_str());
                    }
                    Ok(content)
                },
                None => Err(XhrError::NoResponseText),
            }
        } else {
            Err(XhrError::Status { url: self.url.clone(), status: response.status })
        }
    }
}

/// The text of the property `key` of a JSON value, where the property is a
/// string.
pub open spec fn string_member(obj: JsonValueView, key: Seq<char>) -> Option<Seq<char>> {
    match obj.get(key) {
        Some(value) => value.as_string(),
        None => None,
    }
}

/// The items of the property `key` of a JSON value, where the property is
/// an array.
pub open spec fn array_member(obj: JsonValueView, key: Seq<char>) -> Option<Seq<JsonValueView>> {
    match obj.get(key) {
        Some(value) => value.as_array(),
        None => None,
    }
}

/// The strings among JSON values, in their order.
pub open spec fn strings_among(items: Seq<JsonValueView>) -> Seq<Seq<char>>
    decreases items.len(),
{
    if items.len() == 0 {
        Seq::empty()
    } else {
        match items.last() {
            JsonValueView::Text(text) => strings_among(items.drop_last()).push(text),
            _ => strings_among(items.drop_last()),
        }
    }
}

/// The strings among the items of the property `key` of a JSON value;
/// none where the property is no array.
pub open spec fn string_array_member(obj: JsonValueView, key: Seq<char>) -> Seq<Seq<char>> {
    match array_member(obj, key) {
        Some(items) => strings_among(items),
        None => Seq::empty(),
    }
}

/// The mathematical values of a list of strings.
pub open spec fn strings_view(strings: Seq<String>) -> Seq<Seq<char>> {
    Seq::new(strings.len(), |i: int| strings[i]@)
}

/// The text of the property `key` of a JSON value, where the property is a
/// string.
pub fn get_string_from_obj(obj: &JsonValue, key: &str) -> (text: Option<String>)
    ensures
        text_view(text) == string_member(obj@, key@),
{
    match obj.get(key) {
        Some(value) => match value.as_string() {
            Some(text) => Some(owned(text)),
            None => None,
        },
        None => None,
    }
}

/// The items of the property `key` of a JSON value, where the property is
/// an array.
pub fn get_array_from_obj<'a>(obj: &'a JsonValue, key: &str) -> (items: Option<&'a Vec<JsonValue>>)
    ensures
        match items {
            Some(found) => array_member(obj@, key@) == Some(values_view(found@)),
            None => array_member(obj@, key@) is None,
        },
{
    match obj.get(key) {
        Some(value) => value.as_array(),
        None => None,
    }
}

/// The strings among the items of the property `key` of a JSON value, in
/// their order; none where the property is no array.
pub fn get_string_array_from_obj(obj: &JsonValue, key: &str) -> (strings: Vec<String>)
    ensures
        strings_view(strings@) == string_array_member(obj@, key@),
{
    let mut strings: Vec<String> = Vec::new();
    match get_array_from_obj(obj, key) {
        Some(items) => {
            let ghost views = values_view(items@);
            let mut i: usize = 0;
            assert(strings_view(strings@) =~= strings_among(views.take(0)));
            while i < items.len()
                invariant
                    i <= items.len(),
                    views == values_view(items@),
                    strings_view(strings@) == strings_among(views.take(i as int)),
                decreases items.len() - i,
            {
                proof {
                    assert(views.take(i + 1).drop_last() =~= views.take(i as int));
                    assert(views.take(i + 1).last() == items@[i as int]@);
                }
                let ghost before = strings_view(strings@);
                match items[i].as_string() {
                    Some(text) => {
                        strings.push(owned(text));
                        assert(strings_view(strings@) =~= before.push(text@));
                    },
                    None => {},
                }
                i += 1;
            }
            assert(views.take(items.len() as int) =~= views);
        },
        None => {
            assert(strings_view(strings@) =~= Seq::empty());
        },
    }
    strings
}

} // verus!
