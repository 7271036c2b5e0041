use vstd::prelude::*;

verus! {

/// Default for flags that are on unless configured otherwise.
pub fn _default_true() -> (r: bool)
    ensures
        r == true,
{
    true
}

/// Default request timeout, in seconds.
pub fn _default_timeout() -> (r: u64)
    ensures
        r == 30,
{
    30
}

/// Default number of extra attempts after a failed request.
pub fn _default_retries() -> (r: u32)
    ensures
        r == 0,
{
    0
}

/// Default delay between requests, in milliseconds.
pub fn _default_delay() -> (r: u64)
    ensures
        r == 0,
{
    0
}

/// Default first page number of the pattern strategy.
pub fn _default_start_page() -> (r: usize)
    ensures
        r == 1,
{
    1
}

/// The field schema: field names with their extraction rules.
pub type DataConfig = Vec<(String, ItemConfig)>;

/// A whole run: where to fetch, and what to extract from each page.
#[derive(Debug)]
pub struct ScrapeRoot {
    pub config: ScrapeRootConfig,
    pub data: DataConfig,
}

/// How and where pages are fetched.
#[derive(Debug)]
pub struct ScrapeRootConfig {
    /// Primary URL to scrape (overridden by `urls`).
    pub url: Option<String>,
    /// Several URLs to scrape in one run.
    pub urls: Option<Vec<String>>,
    /// HTTP headers sent with each request.
    pub headers: Option<Vec<(String, String)>>,
    /// Request timeout in seconds.
    pub timeout: u64,
    /// Extra attempts after a failed request.
    pub retries: u32,
    /// Delay between requests in milliseconds.
    pub delay: u64,
    /// Proxy URL.
    pub proxy: Option<String>,
    /// Directory where fetched pages are cached.
    pub cache_dir: Option<String>,
    /// Answer from the cache when a page is there.
    pub use_cache: bool,
    /// How one URL expands into several pages.
    pub pagination: Option<PaginationConfig>,
}

/// Pagination: either a page-number pattern or a "next" link selector.
#[derive(Debug)]
pub struct PaginationConfig {
    /// CSS selector of the "next page" link.
    pub next_selector: Option<String>,
    /// URL pattern with a `{page}` placeholder.
    pub page_pattern: Option<String>,
    /// First page number.
    pub start_page: usize,
    /// Number of pages to visit (0: no limit given).
    pub max_pages: usize,
    /// Last page number (pattern strategy only).
    pub end_page: Option<usize>,
    /// Stop at the first page whose extraction is empty.
    pub stop_on_empty: bool,
}

/// One field's extraction rule.
#[derive(Debug)]
pub struct ItemConfig {
    pub selector: String,
    /// Attribute to read instead of the inner markup.
    pub attr: Option<String>,
    /// Nested schema: when present the field is a group field.
    pub data: Option<DataConfig>,
    pub trim: bool,
    /// Which match to take, counting from 0.
    pub nth: usize,
    /// Value used when nothing matches.
    pub default: Option<String>,
    /// Pattern whose first match replaces the value.
    pub regex: Option<String>,
    /// Find/replace pair.
    pub replace: Option<Vec<String>>,
    pub uppercase: bool,
    pub lowercase: bool,
    pub to_number: bool,
    pub to_boolean: bool,
    /// Keep only the text of the markup.
    pub strip_html: bool,
}

impl ItemConfig {
    /// The field's compiled selector; an invalid one is a configuration
    /// error.
    pub fn get_item_selector(&self) -> (r: Result<scraper::Selector, ConfigError>)
        ensures
            r is Ok <==> crate::html::selector_parses(self.selector@),
            r matches Err(e) ==> e matches ConfigError::InvalidSelector(s) && s@ == self.selector@,
    {
        match crate::html::parse_selector(self.selector.as_str()) {
            Some(selector) => Ok(selector),
            None => Err(ConfigError::InvalidSelector(self.selector.clone())),
        }
    }

    /// A scalar field on `selector` with every option at its default: trimmed,
    /// first match, inner markup, no transformation, text value.
    pub fn new(selector: String) -> (r: ItemConfig)
        ensures
            r.selector@ == selector@,
            r.attr is None,
            r.data is None,
            r.trim,
            r.nth == 0,
            r.default is None,
            r.regex is None,
            r.replace is None,
            !r.uppercase,
            !r.lowercase,
            !r.to_number,
            !r.to_boolean,
            !r.strip_html,
    {
        ItemConfig {
            selector,
            attr: None,
            data: None,
            trim: _default_true(),
            nth: 0,
            default: None,
            regex: None,
            replace: None,
            uppercase: false,
            lowercase: false,
            to_number: false,
            to_boolean: false,
            strip_html: false,
        }
    }
}

/// Why a configuration is refused.
#[derive(Debug, PartialEq, Eq)]
pub enum ConfigError {
    /// Neither `url` nor `urls` is given.
    MissingUrl,
    /// `url` is not a valid absolute URL.
    InvalidUrl,
    /// A selector of the schema or of the pagination does not parse.
    InvalidSelector(String),
}

pub open spec fn strings_view(v: Seq<String>) -> Seq<Seq<char>> {
    v.map_values(|s: String| s@)
}

/// Copies a list of strings.
pub fn clone_strings(v: &Vec<String>) -> (r: Vec<String>)
    ensures
        strings_view(r@) == strings_view(v@),
{
    let mut r: Vec<String> = Vec::new();
    let mut i: usize = 0;
    while i < v.len()
        invariant
            i <= v@.len(),
            r@.len() == i,
            forall|j: int| 0 <= j < i ==> r@[j]@ == v@[j]@,
        decreases v@.len() - i,
    {
        r.push(v[i].clone());
        i = i + 1;
    }
    assert(strings_view(r@) =~= strings_view(v@));
    r
}

impl ScrapeRootConfig {
    /// The URLs a run starts from, as configured.
    pub open spec fn spec_urls(&self) -> Seq<Seq<char>> {
        match self.urls {
            Some(urls) => strings_view(urls@),
            None => match self.url {
                Some(url) => seq![url@],
                None => Seq::empty(),
            },
        }
    }

    /// `urls` when given, else the single `url`, else nothing.
    pub fn get_urls(&self) -> (r: Vec<String>)
        ensures
            strings_view(r@) == self.spec_urls(),
    {
        if let Some(urls) = &self.urls {
            clone_strings(urls)
        } else if let Some(url) = &self.url {
            let r = vec![url.clone()];
            assert(strings_view(r@) =~= seq![url@]);
            r
        } else {
            let r: Vec<String> = Vec::new();
            assert(strings_view(r@) =~= Seq::empty());
            r
        }
    }
}

/// At least one of `url` and `urls` must be given.
pub fn validate_urls(config: &ScrapeRootConfig) -> (r: Result<(), ConfigError>)
    ensures
        r is Ok <==> (config.url is Some || config.urls is Some),
        r is Err ==> r == Err::<(), ConfigError>(ConfigError::MissingUrl),
{
    if config.url.is_none() && config.urls.is_none() {
        return Err(ConfigError::MissingUrl);
    }
    Ok(())
}

/// Whether a text parses as a URL.
pub uninterp spec fn url_parses(s: Seq<char>) -> bool;

/// Relies on validator::validate_url: whether the text parses as a URL.
#[verifier::external_body]
fn url_is_valid(s: &str) -> (r: bool)
    ensures
        r == url_parses(s@),
{
    validator::validate_url(s)
}

impl ScrapeRoot {
    /// Checks the run's configuration before anything is fetched: a URL or a
    /// list of URLs must be given, and a given `url` must parse.
    pub fn validate(&self) -> (r: Result<(), ConfigError>)
        ensures
            r is Ok <==> ((self.config.url is Some || self.config.urls is Some) && (
            self.config.url matches Some(u) ==> url_parses(u@))),
            r is Err && self.config.url is None ==> r == Err::<(), ConfigError>(ConfigError::MissingUrl),
            r is Err && self.config.url is Some ==> r == Err::<(), ConfigError>(ConfigError::InvalidUrl),
    {
        validate_urls(&self.config)?;
        if let Some(url) = &self.config.url {
            if !url_is_valid(url.as_str()) {
                return Err(ConfigError::InvalidUrl);
            }
        }
        Ok(())
    }
}

} // verus!
