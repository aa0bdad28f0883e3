//! The records the content collaborators return: a page summary fetched by
//! title, and a list of search result pages fetched by query. Only plain
//! values appear here; the fetch itself lives outside the library.
use vstd::prelude::*;

verus! {

/// A page summary as the content API returns it.
pub struct WikipediaPageSummary {
    pub wikipedia_page_summary_type: String,
    pub title: String,
    pub displaytitle: String,
    pub namespace: Namespace,
    pub wikibase_item: String,
    pub titles: Titles,
    pub pageid: i64,
    pub thumbnail: Option<Originalimage>,
    pub originalimage: Option<Originalimage>,
    pub lang: String,
    pub dir: String,
    pub revision: String,
    pub tid: String,
    pub timestamp: String,
    pub description: String,
    pub description_source: String,
    pub content_urls: ContentUrls,
    pub extract: String,
    pub extract_html: String,
}

pub struct ContentUrls {
    pub desktop: Desktop,
    pub mobile: Desktop,
}

pub struct Desktop {
    pub page: String,
    pub revisions: String,
    pub edit: String,
    pub talk: String,
}

pub struct Namespace {
    pub id: i64,
    pub text: String,
}

pub struct Originalimage {
    pub source: String,
    pub width: i64,
    pub height: i64,
}

pub struct Titles {
    pub canonical: String,
    pub normalized: String,
    pub display: String,
}

/// A search response: the ordered result pages.
pub struct WikipediaSearchResponse {
    pub pages: Vec<Page>,
}

/// One search result page.
pub struct Page {
    pub id: i64,
    pub key: String,
    pub title: String,
    pub excerpt: String,
    pub description: Option<String>,
    pub thumbnail: Option<Thumbnail>,
}

pub struct Thumbnail {
    pub mimetype: String,
    pub width: i64,
    pub height: i64,
    pub url: String,
}

} // verus!
