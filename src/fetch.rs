//! The fetch policy: where a page is cached, when the cache answers, and how
//! often a failed request is tried again. The requests and the file system
//! are the caller's.
use vstd::prelude::*;
use vstd::utf8::encode_utf8;
use crate::config::ScrapeRootConfig;
use crate::text::concat;

verus! {

/// The SHA-256 digest of a byte string.
pub uninterp spec fn sha256(data: Seq<u8>) -> Seq<u8>;

/// A path to `name` inside directory `dir`, as `Path::join` builds it.
pub uninterp spec fn path_joined(dir: Seq<char>, name: Seq<char>) -> Seq<char>;

pub open spec fn hex_digit(n: int) -> char {
    seq!['0', '1', '2', '3', '4', '5', '6', '7', '8', '9', 'a', 'b', 'c', 'd', 'e', 'f'][n]
}

/// Lower-case hex: two digits for each byte, the high half first.
pub open spec fn hex_lower(b: Seq<u8>) -> Seq<char> {
    Seq::new(
        2 * b.len(),
        |i: int|
            if i % 2 == 0 {
                hex_digit(b[i / 2] as int / 16)
            } else {
                hex_digit(b[i / 2] as int % 16)
            },
    )
}

pub open spec fn html_extension() -> Seq<char> {
    seq!['.', 'h', 't', 'm', 'l']
}

/// The cache file of a URL: the hex SHA-256 of its UTF-8 bytes, with the
/// `.html` extension, inside the cache directory.
pub open spec fn cache_path(url: Seq<char>, cache_dir: Seq<char>) -> Seq<char> {
    path_joined(cache_dir, hex_lower(sha256(encode_utf8(url))) + html_extension())
}

/// Relies on sha2::Sha256::digest: the 32-byte SHA-256 digest.
#[verifier::external_body]
fn sha256_digest(data: &[u8]) -> (r: Vec<u8>)
    ensures
        r@ == sha256(data@),
        r@.len() == 32,
{
    <sha2::Sha256 as sha2::Digest>::digest(data).to_vec()
}

/// Relies on hex::encode: lower-case digits, high half of each byte first.
#[verifier::external_body]
fn hex_encode(data: &[u8]) -> (r: String)
    ensures
        r@ == hex_lower(data@),
{
    hex::encode(data)
}

/// Relies on Path::join, read back as text.
#[verifier::external_body]
fn join_path(dir: &str, name: &str) -> (r: String)
    ensures
        r@ == path_joined(dir@, name@),
{
    std::path::Path::new(dir).join(name).to_string_lossy().into_owned()
}

/// The cache file of `url` inside `cache_dir`.
pub fn get_cache_path(url: &str, cache_dir: &str) -> (r: String)
    ensures
        r@ == cache_path(url@, cache_dir@),
        sha256(encode_utf8(url@)).len() == 32,
        hex_lower(sha256(encode_utf8(url@))).len() == 64,
{
    let digest = sha256_digest(url.as_bytes());
    let hash = hex_encode(digest.as_slice());
    proof {
        reveal_strlit(".html");
    }
    assert(".html"@ =~= html_extension());
    let name = concat(hash.as_str(), ".html");
    join_path(cache_dir, name.as_str())
}

/// The cache answers when it is enabled and a directory is configured.
pub open spec fn cache_in_use(config: ScrapeRootConfig) -> bool {
    config.use_cache && config.cache_dir is Some
}

/// Where a fetch of `url` looks before any request: the cache file, when the
/// cache is in use. A file found there is the page, with no request made.
pub fn cache_lookup_path(url: &str, config: &ScrapeRootConfig) -> (r: Option<String>)
    ensures
        r is Some <==> cache_in_use(*config),
        r matches Some(p) ==> p@ == cache_path(url@, config.cache_dir->0@),
{
    if config.use_cache {
        if let Some(dir) = &config.cache_dir {
            return Some(get_cache_path(url, dir.as_str()));
        }
    }
    None
}

/// What the caller of a fetch does next.
#[derive(Debug, PartialEq, Eq)]
pub enum FetchStep {
    /// Look for the cache file at this path and report whether it is there;
    /// if it is, its contents are the page.
    ReadCache(String),
    /// Send the request: one attempt.
    Send,
    /// Wait one second, then send the request again: one more attempt.
    WaitThenSend,
    /// Write the fetched text to the cache file at this path, then return it.
    StoreThenReturn(String),
    /// Return the text at hand.
    Return,
    /// Give up with the last transport failure.
    Fail,
}

/// The model of a fetch in progress.
pub struct SessionModel {
    pub cache: Option<Seq<char>>,
    pub attempts: nat,
    pub max_attempts: nat,
}

/// The model of a step.
pub enum StepModel {
    ReadCache(Seq<char>),
    Send,
    WaitThenSend,
    StoreThenReturn(Seq<char>),
    Return,
    Fail,
}

impl View for FetchStep {
    type V = StepModel;

    open spec fn view(&self) -> StepModel {
        match self {
            FetchStep::ReadCache(p) => StepModel::ReadCache(p@),
            FetchStep::Send => StepModel::Send,
            FetchStep::WaitThenSend => StepModel::WaitThenSend,
            FetchStep::StoreThenReturn(p) => StepModel::StoreThenReturn(p@),
            FetchStep::Return => StepModel::Return,
            FetchStep::Fail => StepModel::Fail,
        }
    }
}

/// How a fetch of `url` begins: at the cache when it is in use, else with the
/// first request. Up to `retries` further attempts follow failed ones.
pub open spec fn start_model(url: Seq<char>, config: ScrapeRootConfig) -> (SessionModel, StepModel) {
    let max = config.retries + 1;
    if cache_in_use(config) {
        let p = cache_path(url, config.cache_dir->0@);
        (SessionModel { cache: Some(p), attempts: 0, max_attempts: max as nat }, StepModel::ReadCache(p))
    } else {
        (SessionModel { cache: None, attempts: 1, max_attempts: max as nat }, StepModel::Send)
    }
}

/// After looking in the cache: a file found is returned with no request; a
/// miss leads to the first request.
pub open spec fn after_cache_model(s: SessionModel, found: bool) -> (SessionModel, StepModel) {
    if found {
        (s, StepModel::Return)
    } else {
        (SessionModel { attempts: s.attempts + 1, ..s }, StepModel::Send)
    }
}

/// After an attempt: a response (whatever its HTTP status) is stored in the
/// cache when it is in use, and returned; a transport failure is tried again
/// while attempts remain, else it is the fetch's failure.
pub open spec fn after_response_model(s: SessionModel, ok: bool) -> (SessionModel, StepModel) {
    if ok {
        match s.cache {
            Some(p) => (s, StepModel::StoreThenReturn(p)),
            None => (s, StepModel::Return),
        }
    } else if s.attempts < s.max_attempts {
        (SessionModel { attempts: s.attempts + 1, ..s }, StepModel::WaitThenSend)
    } else {
        (s, StepModel::Fail)
    }
}

/// A fetch in progress: the decisions of one fetch, from the cache lookup to
/// the last attempt. Reading and writing files and sending requests are the
/// caller's; each step says which.
pub struct FetchSession {
    cache: Option<String>,
    attempts: u64,
    max_attempts: u64,
}

impl View for FetchSession {
    type V = SessionModel;

    closed spec fn view(&self) -> SessionModel {
        SessionModel {
            cache: match self.cache {
                Some(p) => Some(p@),
                None => None,
            },
            attempts: self.attempts as nat,
            max_attempts: self.max_attempts as nat,
        }
    }
}

impl FetchSession {
    pub open spec fn wf(&self) -> bool {
        1 <= self@.max_attempts <= u32::MAX + 1 && self@.attempts <= self@.max_attempts
    }

    /// Starts a fetch of `url`.
    pub fn start(url: &str, config: &ScrapeRootConfig) -> (r: (FetchSession, FetchStep))
        ensures
            r.0.wf(),
            (r.0@, r.1@) == start_model(url@, *config),
    {
        let max = config.retries as u64 + 1;
        match cache_lookup_path(url, config) {
            Some(p) => {
                let session = FetchSession { cache: Some(p.clone()), attempts: 0, max_attempts: max };
                (session, FetchStep::ReadCache(p))
            },
            None => (FetchSession { cache: None, attempts: 1, max_attempts: max }, FetchStep::Send),
        }
    }

    /// Attempts made so far.
    pub fn attempts(&self) -> (r: u64)
        ensures
            r == self@.attempts,
    {
        self.attempts
    }

    /// Attempts allowed in all.
    pub fn max_attempts(&self) -> (r: u64)
        ensures
            r == self@.max_attempts,
    {
        self.max_attempts
    }

    /// Reports whether the cache file was there.
    pub fn cache_result(&mut self, found: bool) -> (r: FetchStep)
        requires
            old(self).wf(),
            old(self)@.attempts == 0,
        ensures
            final(self).wf(),
            (final(self)@, r@) == after_cache_model(old(self)@, found),
    {
        if found {
            FetchStep::Return
        } else {
            self.attempts = self.attempts + 1;
            FetchStep::Send
        }
    }

    /// Reports the outcome of the attempt just made: `true` for a response,
    /// `false` for a transport failure.
    pub fn response(&mut self, ok: bool) -> (r: FetchStep)
        requires
            old(self).wf(),
        ensures
            final(self).wf(),
            (final(self)@, r@) == after_response_model(old(self)@, ok),
    {
        if ok {
            match &self.cache {
                Some(p) => FetchStep::StoreThenReturn(p.clone()),
                None => FetchStep::Return,
            }
        } else if self.attempts < self.max_attempts {
            self.attempts = self.attempts + 1;
            FetchStep::WaitThenSend
        } else {
            FetchStep::Fail
        }
    }
}

} // verus!
