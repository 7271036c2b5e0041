//! Pagination: the page URLs of the pattern strategy, and the steps of the
//! next-link strategy. Fetching is the caller's: each step takes the text of
//! the page it decides on.
use vstd::prelude::*;
use crate::config::{ConfigError, DataConfig, PaginationConfig};
use crate::extract::{extract_page, lemma_emptiness_of_yield, page_yields_empty, schema_selectors_ok};
use crate::html::{document_first_attr, first_attr_in_document, selector_is_valid, selector_parses};
use crate::text::{concat, contains, decimal, has_infix, has_prefix, starts_with, usize_text};
use crate::transform::replace_all;
use crate::value::{is_empty_result, ReturnedData};

verus! {

pub open spec fn placeholder() -> Seq<char> {
    seq!['{', 'p', 'a', 'g', 'e', '}']
}

pub open spec fn http() -> Seq<char> {
    seq!['h', 't', 't', 'p']
}

/// Last page number of the pattern strategy: `end_page`, else `max_pages`
/// pages from the start, else ten pages.
pub open spec fn pattern_end_page(p: PaginationConfig) -> int {
    match p.end_page {
        Some(e) => e as int,
        None => if p.max_pages > 0 {
            p.start_page + p.max_pages - 1
        } else {
            p.start_page + 9
        },
    }
}

/// The URL of page `page`: the placeholder replaced by the page number (a
/// pattern without placeholder is a suffix of the base URL), with the base
/// URL prepended when the result does not start with `http`.
pub open spec fn page_url(base: Seq<char>, pattern: Seq<char>, page: nat) -> Seq<char> {
    let sub = replace_all(pattern, placeholder(), decimal(page));
    let url = if has_infix(pattern, placeholder()) {
        sub
    } else {
        base + sub
    };
    if has_prefix(url, http()) {
        url
    } else {
        base + url
    }
}

/// The URLs of pages `start_page` to the last page, in order.
pub open spec fn pattern_urls(base: Seq<char>, pattern: Seq<char>, p: PaginationConfig) -> Seq<Seq<char>> {
    let n = pattern_end_page(p) - p.start_page + 1;
    Seq::new(
        if n > 0 {
            n as nat
        } else {
            0
        },
        |i: int| page_url(base, pattern, (p.start_page + i) as nat),
    )
}

fn page_url_of(base_url: &str, pattern: &str, page: usize) -> (r: String)
    ensures
        r@ == page_url(base_url@, pattern@, page as nat),
{
    proof {
        reveal_strlit("{page}");
        reveal_strlit("http");
    }
    assert("{page}"@ =~= placeholder());
    assert("http"@ =~= http());
    let number = usize_text(page);
    let sub = crate::transform::replace_text(pattern, "{page}", number.as_str());
    let url = if contains(pattern, "{page}") {
        sub
    } else {
        concat(base_url, sub.as_str())
    };
    if starts_with(url.as_str(), "http") {
        url
    } else {
        concat(base_url, url.as_str())
    }
}

/// The candidate page URLs of the pattern strategy, before any emptiness
/// check. A page number must fit in `usize`.
pub fn pattern_page_urls(base_url: &str, pattern: &str, pagination: &PaginationConfig) -> (r: Vec<String>)
    requires
        pattern_end_page(*pagination) <= usize::MAX,
    ensures
        r@.map_values(|s: String| s@) == pattern_urls(base_url@, pattern@, *pagination),
{
    let start = pagination.start_page;
    let end: usize = match pagination.end_page {
        Some(e) => e,
        None => if pagination.max_pages > 0 {
            start + (pagination.max_pages - 1)
        } else {
            start + 9
        },
    };
    let ghost want = pattern_urls(base_url@, pattern@, *pagination);
    let mut urls: Vec<String> = Vec::new();
    if end < start {
        assert(urls@.map_values(|s: String| s@) =~= want);
        return urls;
    }
    let mut page: usize = start;
    loop
        invariant_except_break
            urls@.len() == page - start,
        invariant
            start <= page <= end,
            end == pattern_end_page(*pagination),
            start == pagination.start_page,
            want == pattern_urls(base_url@, pattern@, *pagination),
            forall|i: int| 0 <= i < urls@.len() ==> #[trigger] urls@[i]@ == want[i],
        ensures
            urls@.len() == end - start + 1,
            forall|i: int| 0 <= i < urls@.len() ==> #[trigger] urls@[i]@ == want[i],
        decreases end - page,
    {
        urls.push(page_url_of(base_url, pattern, page));
        if page == end {
            break;
        }
        page = page + 1;
    }
    assert(urls@.map_values(|s: String| s@) =~= want);
    urls
}

/// Decides whether the pattern strategy keeps the page at `position`.
///
/// `Ok(false)` exactly when `stop_on_empty` is set, the page is not the
/// first, its text was fetched, and the schema extracts an empty tree from
/// it; the caller then drops that page and generates no more.
pub fn keep_pattern_page(
    stop_on_empty: bool,
    position: usize,
    page: Option<&str>,
    data: &DataConfig,
) -> (r: Result<bool, ConfigError>)
    ensures
        !stop_on_empty || position == 0 || page is None ==> r == Ok::<bool, ConfigError>(true),
        stop_on_empty && position > 0 && page is Some ==> {
            &&& r is Ok <==> schema_selectors_ok(data@, data@.len() as int)
            &&& r matches Ok(keep) ==> keep == !page_yields_empty(page->0@, data@)
            &&& r matches Err(e) ==> e matches ConfigError::InvalidSelector(s) && !selector_parses(s@)
        },
{
    if !stop_on_empty || position == 0 {
        return Ok(true);
    }
    match page {
        None => Ok(true),
        Some(html) => match extract_page(html, data) {
            Ok(t) => {
                let empty = is_empty_result(&t);
                proof {
                    lemma_emptiness_of_yield(t, html@, data@);
                }
                Ok(!empty)
            },
            Err(e) => Err(e),
        },
    }
}

/// Most pages the next-link strategy visits: `max_pages`, else 1000.
pub open spec fn link_page_limit(p: PaginationConfig) -> int {
    if p.max_pages > 0 {
        p.max_pages as int
    } else {
        1000
    }
}

/// The page limit of the next-link strategy.
pub fn next_link_page_limit(pagination: &PaginationConfig) -> (r: usize)
    ensures
        r == link_page_limit(*pagination),
{
    if pagination.max_pages > 0 {
        pagination.max_pages
    } else {
        1000
    }
}

/// Number of `/` in `s[0..j]`.
pub open spec fn slashes(s: Seq<char>, j: int) -> int
    decreases j,
{
    if j <= 0 || j > s.len() {
        0
    } else {
        slashes(s, j - 1) + if s[j - 1] == '/' {
            1int
        } else {
            0int
        }
    }
}

/// Scheme and host of a URL: what comes before its third `/` (all of it
/// when it has fewer).
pub open spec fn url_origin(s: Seq<char>) -> Seq<char> {
    if exists|j: int| 0 <= j < s.len() && s[j] == '/' && #[trigger] slashes(s, j) == 2 {
        let j = choose|j: int| 0 <= j < s.len() && s[j] == '/' && #[trigger] slashes(s, j) == 2;
        s.subrange(0, j)
    } else {
        s
    }
}

/// What comes before the last `/` of a URL (all of it when it has none).
pub open spec fn url_directory(s: Seq<char>) -> Seq<char> {
    if exists|j: int| 0 <= j < s.len() && #[trigger] s[j] == '/' {
        let j = choose|j: int|
            0 <= j < s.len() && #[trigger] s[j] == '/' && forall|k: int| j < k < s.len() ==> s[k] != '/';
        s.subrange(0, j)
    } else {
        s
    }
}

/// An href made absolute against the page it was found on: one that starts
/// with `http` stands as it is; one that starts with `/` goes after the
/// page's scheme and host; any other goes after the page's directory and a
/// `/`.
pub open spec fn resolve_href(current: Seq<char>, href: Seq<char>) -> Seq<char> {
    if has_prefix(href, http()) {
        href
    } else if has_prefix(href, seq!['/']) {
        url_origin(current) + href
    } else {
        url_directory(current) + seq!['/'] + href
    }
}

proof fn lemma_slashes_step(s: Seq<char>, j: int)
    requires
        0 <= j < s.len(),
    ensures
        slashes(s, j + 1) == slashes(s, j) + if s[j] == '/' {
            1int
        } else {
            0int
        },
{
}

proof fn lemma_slashes_mono(s: Seq<char>, a: int, b: int)
    requires
        0 <= a <= b <= s.len(),
    ensures
        slashes(s, a) <= slashes(s, b),
    decreases b - a,
{
    if a < b {
        lemma_slashes_mono(s, a, b - 1);
    }
}

/// Scheme and host of `url`.
fn origin_of(url: &str) -> (r: String)
    ensures
        r@ == url_origin(url@),
{
    let n = url.unicode_len();
    let mut count: usize = 0;
    let mut j: usize = 0;
    while j < n
        invariant
            n == url@.len(),
            j <= n,
            count == slashes(url@, j as int),
            count <= 2,
            forall|k: int| 0 <= k < j && url@[k] == '/' ==> #[trigger] slashes(url@, k) < 2,
        decreases n - j,
    {
        proof {
            lemma_slashes_step(url@, j as int);
        }
        if url.get_char(j) == '/' {
            if count == 2 {
                let r = url.substring_char(0, j);
                proof {
                    assert forall|k: int|
                        0 <= k < url@.len() && url@[k] == '/' && #[trigger] slashes(url@, k) == 2 implies k
                        == j by {
                        if k < j {
                        } else if k > j {
                            lemma_slashes_mono(url@, j as int + 1, k);
                        }
                    }
                }
                return r.to_string();
            }
            count = count + 1;
        }
        j = j + 1;
    }
    url.to_string()
}

/// Directory part of `url`.
fn directory_of(url: &str) -> (r: String)
    ensures
        r@ == url_directory(url@),
{
    let n = url.unicode_len();
    let mut j: usize = n;
    while j > 0
        invariant
            n == url@.len(),
            j <= n,
            forall|k: int| j <= k < n ==> url@[k] != '/',
        decreases j,
    {
        if url.get_char(j - 1) == '/' {
            let r = url.substring_char(0, j - 1);
            proof {
                let w = (j - 1) as int;
                assert(url@[w] == '/' && forall|k: int| w < k < url@.len() ==> url@[k] != '/');
                let c = choose|c: int|
                    0 <= c < url@.len() && #[trigger] url@[c] == '/' && forall|k: int|
                        c < k < url@.len() ==> url@[k] != '/';
                assert(c == w);
            }
            return r.to_string();
        }
        j = j - 1;
    }
    url.to_string()
}

/// Makes an href absolute against the URL of the page it was found on.
pub fn resolve_link(current_url: &str, href: &str) -> (r: String)
    ensures
        r@ == resolve_href(current_url@, href@),
{
    proof {
        reveal_strlit("http");
        reveal_strlit("/");
    }
    assert("http"@ =~= http());
    assert("/"@ =~= seq!['/']);
    if starts_with(href, "http") {
        href.to_string()
    } else if starts_with(href, "/") {
        let base = origin_of(current_url);
        concat(base.as_str(), href)
    } else {
        let base = directory_of(current_url);
        let with_slash = concat(base.as_str(), "/");
        concat(with_slash.as_str(), href)
    }
}

/// The next-link strategy's decision on a fetched page: `None` to stop, or
/// the URL of the next page.
pub open spec fn next_link_outcome(
    current: Seq<char>,
    html: Seq<char>,
    next_selector: Seq<char>,
    stop_on_empty: bool,
    data: Seq<(String, crate::config::ItemConfig)>,
) -> Option<Seq<char>> {
    if stop_on_empty && page_yields_empty(html, data) {
        None
    } else {
        match document_first_attr(html, next_selector, seq!['h', 'r', 'e', 'f']) {
            Some(Some(href)) => Some(resolve_href(current, href)),
            _ => None,
        }
    }
}

/// One step of the next-link strategy, on the text of the current page.
///
/// With `stop_on_empty`, an empty extraction stops the walk. Otherwise the
/// first element that `next_selector` matches gives the next URL by its
/// `href`; no match, or no `href`, stops the walk. An invalid selector, of
/// the schema (when it is used) or of the link, is a configuration error.
pub fn next_page_url(
    current_url: &str,
    html: &str,
    next_selector: &str,
    stop_on_empty: bool,
    data: &DataConfig,
) -> (r: Result<Option<String>, ConfigError>)
    ensures
        r is Ok <==> ((stop_on_empty ==> schema_selectors_ok(data@, data@.len() as int)) && (
        stop_on_empty && page_yields_empty(html@, data@) || selector_parses(next_selector@))),
        r matches Ok(next) ==> match next {
            Some(u) => next_link_outcome(current_url@, html@, next_selector@, stop_on_empty, data@)
                == Some(u@),
            None => next_link_outcome(current_url@, html@, next_selector@, stop_on_empty, data@) is None,
        },
        r matches Err(e) ==> e matches ConfigError::InvalidSelector(s) && !selector_parses(s@),
{
    if stop_on_empty {
        match extract_page(html, data) {
            Ok(t) => {
                proof {
                    lemma_emptiness_of_yield(t, html@, data@);
                }
                if is_empty_result(&t) {
                    return Ok(None);
                }
            },
            Err(e) => {
                return Err(e);
            },
        }
    }
    if !selector_is_valid(next_selector) {
        return Err(ConfigError::InvalidSelector(next_selector.to_string()));
    }
    proof {
        reveal_strlit("href");
    }
    assert("href"@ =~= seq!['h', 'r', 'e', 'f']);
    match first_attr_in_document(html, next_selector, "href") {
        Some(Some(href)) => Ok(Some(resolve_link(current_url, href.as_str()))),
        _ => Ok(None),
    }
}

/// The pattern strategy in progress: candidates are kept in order until one
/// that must be checked turns out empty.
pub struct PatternWalk {
    candidates: Vec<String>,
    kept: usize,
    stop_on_empty: bool,
    finished: bool,
}

impl PatternWalk {
    pub closed spec fn spec_candidates(&self) -> Seq<Seq<char>> {
        self.candidates@.map_values(|s: String| s@)
    }

    /// How many candidates have been kept, from the first on.
    pub closed spec fn spec_kept(&self) -> nat {
        self.kept as nat
    }

    pub closed spec fn spec_stop_on_empty(&self) -> bool {
        self.stop_on_empty
    }

    pub closed spec fn spec_finished(&self) -> bool {
        self.finished
    }

    pub open spec fn wf(&self) -> bool {
        self.spec_kept() <= self.spec_candidates().len()
    }

    /// The walk is over: stopped at an empty page, or out of candidates.
    pub open spec fn spec_over(&self) -> bool {
        self.spec_finished() || self.spec_kept() == self.spec_candidates().len()
    }

    /// Starts the walk over the pages of `pattern` from `base_url`. A page
    /// number must fit in `usize`.
    pub fn new(base_url: &str, pattern: &str, pagination: &PaginationConfig) -> (r: PatternWalk)
        requires
            pattern_end_page(*pagination) <= usize::MAX,
        ensures
            r.wf(),
            r.spec_candidates() == pattern_urls(base_url@, pattern@, *pagination),
            r.spec_kept() == 0,
            r.spec_stop_on_empty() == pagination.stop_on_empty,
            !r.spec_finished(),
    {
        PatternWalk {
            candidates: pattern_page_urls(base_url, pattern, pagination),
            kept: 0,
            stop_on_empty: pagination.stop_on_empty,
            finished: false,
        }
    }

    /// The next candidate, and whether its page must be fetched and checked
    /// before it is kept (with `stop_on_empty`, every page but the first);
    /// `None` once the walk is over.
    pub fn next(&self) -> (r: Option<(String, bool)>)
        requires
            self.wf(),
        ensures
            r is None <==> self.spec_over(),
            r matches Some(c) ==> c.0@ == self.spec_candidates()[self.spec_kept() as int] && c.1 == (
            self.spec_stop_on_empty() && self.spec_kept() > 0),
    {
        if self.finished || self.kept == self.candidates.len() {
            return None;
        }
        proof {
            assert(self.candidates@.map_values(|s: String| s@)[self.kept as int]
                == self.candidates@[self.kept as int]@);
        }
        Some((self.candidates[self.kept].clone(), self.stop_on_empty && self.kept > 0))
    }

    /// Decides on the candidate that `next` gave, with the text of its page
    /// when it was fetched (`None`: not fetched, or the fetch failed). An
    /// empty page ends the walk without being kept; any other candidate is
    /// kept.
    pub fn record(&mut self, page: Option<&str>, data: &DataConfig) -> (r: Result<(), ConfigError>)
        requires
            old(self).wf(),
            !old(self).spec_over(),
        ensures
            final(self).wf(),
            final(self).spec_candidates() == old(self).spec_candidates(),
            final(self).spec_stop_on_empty() == old(self).spec_stop_on_empty(),
            r is Ok <==> (!(old(self).spec_stop_on_empty() && old(self).spec_kept() > 0 && page is Some)
                || schema_selectors_ok(data@, data@.len() as int)),
            r is Ok ==> {
                let empty = old(self).spec_stop_on_empty() && old(self).spec_kept() > 0 && page is Some
                    && page_yields_empty(page->0@, data@);
                &&& empty ==> final(self).spec_finished() && final(self).spec_kept() == old(self).spec_kept()
                &&& !empty ==> !final(self).spec_finished() && final(self).spec_kept() == old(self).spec_kept() + 1
            },
            r matches Err(e) ==> e matches ConfigError::InvalidSelector(s) && !selector_parses(s@),
    {
        let n = self.candidates.len();
        assert(self.candidates@.map_values(|s: String| s@).len() == n);
        match keep_pattern_page(self.stop_on_empty, self.kept, page, data) {
            Ok(true) => {
                self.kept = self.kept + 1;
                Ok(())
            },
            Ok(false) => {
                self.finished = true;
                Ok(())
            },
            Err(e) => Err(e),
        }
    }

    /// The kept URLs, in order: always the first candidates.
    pub fn urls(&self) -> (r: Vec<String>)
        requires
            self.wf(),
        ensures
            r@.map_values(|s: String| s@) == self.spec_candidates().subrange(0, self.spec_kept() as int),
    {
        let mut r: Vec<String> = Vec::new();
        let mut i: usize = 0;
        while i < self.kept
            invariant
                self.wf(),
                i <= self.kept,
                r@.len() == i,
                forall|j: int| 0 <= j < i ==> #[trigger] r@[j]@ == self.candidates@[j]@,
            decreases self.kept - i,
        {
            r.push(self.candidates[i].clone());
            i = i + 1;
        }
        assert(r@.map_values(|s: String| s@) =~= self.spec_candidates().subrange(0, self.spec_kept() as int));
        r
    }
}

/// The next-link strategy in progress: the URLs found so far, the first
/// being the base URL.
pub struct LinkWalk {
    urls: Vec<String>,
    limit: usize,
    finished: bool,
}

impl LinkWalk {
    pub closed spec fn spec_urls(&self) -> Seq<Seq<char>> {
        self.urls@.map_values(|s: String| s@)
    }

    pub closed spec fn spec_limit(&self) -> nat {
        self.limit as nat
    }

    pub closed spec fn spec_finished(&self) -> bool {
        self.finished
    }

    pub open spec fn wf(&self) -> bool {
        self.spec_urls().len() >= 1
    }

    /// The walk is over: a page ended it, or the page limit is reached.
    pub open spec fn spec_over(&self) -> bool {
        self.spec_finished() || self.spec_urls().len() >= self.spec_limit()
    }

    /// Starts the walk at `base_url`.
    pub fn new(base_url: &str, pagination: &PaginationConfig) -> (r: LinkWalk)
        ensures
            r.wf(),
            r.spec_urls() == seq![base_url@],
            r.spec_limit() == link_page_limit(*pagination),
            !r.spec_finished(),
    {
        let urls = vec![base_url.to_string()];
        assert(urls@.map_values(|s: String| s@) =~= seq![base_url@]);
        LinkWalk { urls, limit: next_link_page_limit(pagination), finished: false }
    }

    /// The page to fetch next (the last URL found), or `None` once the walk
    /// is over.
    pub fn next_fetch(&self) -> (r: Option<String>)
        requires
            self.wf(),
        ensures
            r is None <==> self.spec_over(),
            r matches Some(u) ==> u@ == self.spec_urls().last(),
    {
        if self.finished || self.urls.len() >= self.limit {
            return None;
        }
        let last = self.urls.len() - 1;
        proof {
            assert(self.urls@.map_values(|s: String| s@)[last as int] == self.urls@[last as int]@);
        }
        Some(self.urls[last].clone())
    }

    /// Takes the text of the page that `next_fetch` named: the next URL is
    /// added, or the walk ends.
    pub fn record(
        &mut self,
        html: &str,
        next_selector: &str,
        stop_on_empty: bool,
        data: &DataConfig,
    ) -> (r: Result<(), ConfigError>)
        requires
            old(self).wf(),
            !old(self).spec_over(),
        ensures
            final(self).wf(),
            final(self).spec_limit() == old(self).spec_limit(),
            r is Ok <==> ((stop_on_empty ==> schema_selectors_ok(data@, data@.len() as int)) && (
            stop_on_empty && page_yields_empty(html@, data@) || selector_parses(next_selector@))),
            r is Ok ==> match next_link_outcome(
                old(self).spec_urls().last(),
                html@,
                next_selector@,
                stop_on_empty,
                data@,
            ) {
                Some(u) => final(self).spec_urls() == old(self).spec_urls().push(u)
                    && !final(self).spec_finished(),
                None => final(self).spec_urls() == old(self).spec_urls() && final(self).spec_finished(),
            },
            r matches Err(e) ==> e matches ConfigError::InvalidSelector(s) && !selector_parses(s@),
    {
        let last = self.urls.len() - 1;
        proof {
            assert(self.urls@.map_values(|s: String| s@)[last as int] == self.urls@[last as int]@);
        }
        match next_page_url(self.urls[last].as_str(), html, next_selector, stop_on_empty, data) {
            Ok(Some(u)) => {
                let ghost before = self.urls@;
                self.urls.push(u);
                assert(self.urls@.map_values(|s: String| s@) =~= before.map_values(|s: String| s@).push(
                    self.urls@.last()@,
                ));
                Ok(())
            },
            Ok(None) => {
                self.finished = true;
                Ok(())
            },
            Err(e) => Err(e),
        }
    }

    /// The URLs found, in order.
    pub fn urls(&self) -> (r: Vec<String>)
        ensures
            r@.map_values(|s: String| s@) == self.spec_urls(),
    {
        crate::config::clone_strings(&self.urls)
    }
}

} // verus!
