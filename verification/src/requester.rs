//! Requests, and the fetcher that resolves them through the page cache or
//! the network.

use flate2::read::ZlibDecoder;
use flate2::write::ZlibEncoder;
use flate2::Compression;
use std::io::{Read, Write};
use crate::spider::Failure;
use std::path::PathBuf;
use vstd::prelude::*;
use vstd::string::*;
use vstd::utf8::encode_utf8;

verus! {

/// The HTTP method of a request.
#[derive(Clone, Copy, Debug, PartialEq, Eq, Structural)]
pub enum Method {
    Get,
    Head,
    Post,
    Put,
    Delete,
    Connect,
    Options,
    Trace,
    Patch,
}

/// One request of the crawl. `url` is the serialised absolute URL; it is the
/// identity of the request wherever requests are compared.
#[derive(Clone, Debug)]
pub struct SimpleRequest {
    pub method: Method,
    pub url: String,
    pub headers: Vec<(String, String)>,
    pub body: Option<String>,
}

/// The mathematical value of a [`SimpleRequest`].
pub ghost struct RequestView {
    pub method: Method,
    pub url: Seq<char>,
    pub headers: Seq<(Seq<char>, Seq<char>)>,
    pub body: Option<Seq<char>>,
}

impl View for SimpleRequest {
    type V = RequestView;

    open spec fn view(&self) -> RequestView {
        RequestView {
            method: self.method,
            url: self.url@,
            headers: self.headers@.map_values(|h: (String, String)| (h.0@, h.1@)),
            body: match self.body {
                Some(b) => Some(b@),
                None => None,
            },
        }
    }
}

/// The views of a sequence of requests, in order.
pub open spec fn request_views(requests: Seq<SimpleRequest>) -> Seq<RequestView> {
    requests.map_values(|r: SimpleRequest| r@)
}

impl SimpleRequest {
    /// A `GET` request for `url` with no headers and no body.
    pub fn get(url: String) -> (r: SimpleRequest)
        ensures
            r@ == (RequestView { method: Method::Get, url: url@, headers: Seq::empty(), body: None }),
    {
        let r = SimpleRequest { method: Method::Get, url, headers: Vec::new(), body: None };
        assert(r@.headers =~= Seq::empty());
        r
    }
}

/// Whether a byte stands for itself in a cache file's name: an ASCII letter
/// or digit, or one of `-`, `.`, `_`, `~`.
pub open spec fn is_unreserved(b: u8) -> bool {
    ||| 0x30 <= b <= 0x39
    ||| 0x41 <= b <= 0x5A
    ||| 0x61 <= b <= 0x7A
    ||| b == 0x2D
    ||| b == 0x2E
    ||| b == 0x5F
    ||| b == 0x7E
}

/// The upper-case hexadecimal digit of a value below 16.
pub open spec fn hex_digit(d: int) -> char {
    seq!['0', '1', '2', '3', '4', '5', '6', '7', '8', '9', 'A', 'B', 'C', 'D', 'E', 'F'][d]
}

/// A byte as it stands in a cache file's name: itself where it is
/// unreserved, else `%` and its two hexadecimal digits.
pub open spec fn encoded_byte(b: u8) -> Seq<char> {
    if is_unreserved(b) {
        seq![b as char]
    } else {
        seq!['%', hex_digit(b as int / 16), hex_digit(b as int % 16)]
    }
}

/// The percent-encoding of `bytes`.
pub open spec fn percent_encoded(bytes: Seq<u8>) -> Seq<char>
    decreases bytes.len(),
{
    if bytes.len() == 0 {
        Seq::empty()
    } else {
        encoded_byte(bytes[0]) + percent_encoded(bytes.drop_first())
    }
}

/// The name of the cache file of `url`: the percent-encoding of its UTF-8
/// bytes.
pub open spec fn cache_name(url: Seq<char>) -> Seq<char> {
    percent_encoded(encode_utf8(url))
}

/// Each hexadecimal digit stands for one value only.
proof fn hex_digit_is_injective(a: int, b: int)
    requires
        0 <= a < 16,
        0 <= b < 16,
        hex_digit(a) == hex_digit(b),
    ensures
        a == b,
{
    let digits = seq!['0', '1', '2', '3', '4', '5', '6', '7', '8', '9', 'A', 'B', 'C', 'D', 'E', 'F'];
    assert(digits[0] == '0' && digits[1] == '1' && digits[2] == '2' && digits[3] == '3');
    assert(digits[4] == '4' && digits[5] == '5' && digits[6] == '6' && digits[7] == '7');
    assert(digits[8] == '8' && digits[9] == '9' && digits[10] == 'A' && digits[11] == 'B');
    assert(digits[12] == 'C' && digits[13] == 'D' && digits[14] == 'E' && digits[15] == 'F');
}

/// Percent-encoding loses nothing: two sequences of bytes with the same
/// encoding are the same.
pub proof fn percent_encoding_is_injective(a: Seq<u8>, b: Seq<u8>)
    requires
        percent_encoded(a) == percent_encoded(b),
    ensures
        a == b,
    decreases a.len(),
{
    if a.len() == 0 {
        if b.len() > 0 {
            assert(percent_encoded(b).len() >= encoded_byte(b[0]).len());
        }
        assert(a =~= b);
    } else {
        let ea = encoded_byte(a[0]);
        let ra = percent_encoded(a.drop_first());
        assert(percent_encoded(a) == ea + ra);
        assert(b.len() > 0);
        let eb = encoded_byte(b[0]);
        let rb = percent_encoded(b.drop_first());
        assert(percent_encoded(b) == eb + rb);
        assert((ea + ra)[0] == ea[0]);
        assert((eb + rb)[0] == eb[0]);
        if is_unreserved(a[0]) {
            assert(ea[0] == a[0] as char);
            assert(is_unreserved(b[0]));
            assert(eb[0] == b[0] as char);
            assert(a[0] == b[0]);
            assert(ra =~= (ea + ra).skip(1));
            assert(rb =~= (eb + rb).skip(1));
        } else {
            assert(!is_unreserved(b[0]));
            assert((ea + ra)[1] == ea[1] && (ea + ra)[2] == ea[2]);
            assert((eb + rb)[1] == eb[1] && (eb + rb)[2] == eb[2]);
            hex_digit_is_injective(a[0] as int / 16, b[0] as int / 16);
            hex_digit_is_injective(a[0] as int % 16, b[0] as int % 16);
            assert(a[0] == b[0]);
            assert(ra =~= (ea + ra).skip(3));
            assert(rb =~= (eb + rb).skip(3));
        }
        percent_encoding_is_injective(a.drop_first(), b.drop_first());
        assert(a =~= seq![a[0]] + a.drop_first());
        assert(b =~= seq![b[0]] + b.drop_first());
    }
}

/// The cache keeps pages apart: two URLs with the same cache file are the
/// same URL.
pub proof fn cache_names_are_injective(url: Seq<char>, other: Seq<char>)
    requires
        cache_name(url) == cache_name(other),
    ensures
        url == other,
{
    percent_encoding_is_injective(encode_utf8(url), encode_utf8(other));
    vstd::utf8::encode_utf8_decode_utf8(url);
    vstd::utf8::encode_utf8_decode_utf8(other);
}

/// The percent-encoding of a text.
///
/// Trusted: this is `urlencoding::encode`, which keeps each unreserved byte
/// of the text's UTF-8 form and writes every other byte as `%` and two
/// upper-case hexadecimal digits.
#[verifier::external_body]
fn url_encode(text: &str) -> (encoded: String)
    ensures
        encoded@ == percent_encoded(encode_utf8(text@)),
{
    urlencoding::encode(text).into_owned()
}

/// What zlib compression at the best level makes of a text's UTF-8 bytes,
/// or `None` where the compressor reports an error.
pub uninterp spec fn deflated(text: Seq<char>) -> Option<Seq<u8>>;

/// The text whose UTF-8 bytes a zlib stream decompresses to, or `None`
/// where the bytes are no such stream or do not hold UTF-8.
pub uninterp spec fn inflated(bytes: Seq<u8>) -> Option<Seq<char>>;

/// Compresses a text.
///
/// Trusted: this is `flate2::write::ZlibEncoder` at `Compression::best()`,
/// fed the whole text and finished. Its result depends on the text alone,
/// and what it wrote decompresses to the same text.
#[verifier::external_body]
fn deflate(text: &str) -> (bytes: Option<Vec<u8>>)
    ensures
        match bytes {
            Some(b) => deflated(text@) == Some(b@) && inflated(b@) == Some(text@),
            None => deflated(text@) is None,
        },
{
    let mut encoder = ZlibEncoder::new(Vec::new(), Compression::best());
    match encoder.write_all(text.as_bytes()) {
        Ok(()) => encoder.finish().ok(),
        Err(_) => None,
    }
}

/// Decompresses a text.
///
/// Trusted: this is `flate2::read::ZlibDecoder` read to its end as a string.
/// Its result depends on the bytes alone.
#[verifier::external_body]
fn inflate(bytes: &[u8]) -> (text: Option<String>)
    ensures
        match text {
            Some(t) => inflated(bytes@) == Some(t@),
            None => inflated(bytes@) is None,
        },
{
    let mut text = String::new();
    match ZlibDecoder::new(bytes).read_to_string(&mut text) {
        Ok(_) => Some(text),
        Err(_) => None,
    }
}

/// Why a fetch failed.
#[derive(Debug)]
pub enum FetchError {
    /// The network exchange failed.
    Transport { reason: String },
    /// A cache entry could not be read, decoded, encoded or written.
    CacheIO { reason: String },
}

/// One entry of the page cache: the name of its file and the file's content.
#[derive(Debug)]
pub struct CacheEntry {
    pub file_name: String,
    pub bytes: Vec<u8>,
}

/// What the cache holds for a URL, given the content of its file if there
/// is one: the decoded text, nothing where there is no file, or an error
/// where the file does not decode.
pub open spec fn cached_text(stored: Option<Seq<u8>>) -> Result<Option<Seq<char>>, ()> {
    match stored {
        None => Ok(None),
        Some(bytes) => match inflated(bytes) {
            Some(text) => Ok(Some(text)),
            None => Err(()),
        },
    }
}

/// The mathematical value of a [`FetchError`].
pub ghost enum FetchErrorView {
    Transport { reason: Seq<char> },
    CacheIO { reason: Seq<char> },
}

impl View for FetchError {
    type V = FetchErrorView;

    open spec fn view(&self) -> FetchErrorView {
        match self {
            FetchError::Transport { reason } => FetchErrorView::Transport { reason: reason@ },
            FetchError::CacheIO { reason } => FetchErrorView::CacheIO { reason: reason@ },
        }
    }
}

impl FetchError {
    /// The kind of failure that the crawl engine is told of.
    pub fn kind(&self) -> (failure: Failure)
        ensures
            failure == match self@ {
                FetchErrorView::Transport { .. } => Failure::Transport,
                FetchErrorView::CacheIO { .. } => Failure::CacheIO,
            },
    {
        match self {
            FetchError::Transport { .. } => Failure::Transport,
            FetchError::CacheIO { .. } => Failure::CacheIO,
        }
    }
}

/// The error for a cache file that does not decode.
pub open spec fn undecodable() -> FetchErrorView {
    FetchErrorView::CacheIO { reason: "cache entry is not a compressed text"@ }
}

/// The error for a text that the compressor refused.
pub open spec fn unencodable() -> FetchErrorView {
    FetchErrorView::CacheIO { reason: "page could not be compressed"@ }
}

/// The content of a cache file, if there is one, as a sequence of bytes.
pub open spec fn stored_view(stored: Option<Vec<u8>>) -> Option<Seq<u8>> {
    match stored {
        Some(bytes) => Some(bytes@),
        None => None,
    }
}

/// The entry that caches `content` under `url`, or the error where the
/// compressor refused the content.
pub open spec fn cache_entry(url: Seq<char>, content: Seq<char>) -> Result<(Seq<char>, Seq<u8>), FetchErrorView> {
    match deflated(content) {
        Some(bytes) => Ok((cache_name(url), bytes)),
        None => Err(unencodable()),
    }
}

/// The name of the cache file of `url`.
pub fn cache_file_name(url: &str) -> (name: String)
    ensures
        name@ == cache_name(url@),
{
    url_encode(url)
}

/// The cache entry named `file_name` for a page whose compression gave
/// `compressed`.
pub fn entry_of(file_name: String, compressed: Option<Vec<u8>>) -> (entry: Result<CacheEntry, FetchError>)
    ensures
        match compressed {
            Some(bytes) => entry matches Ok(e) && e.file_name == file_name && e.bytes == bytes,
            None => entry matches Err(e) && e@ == unencodable(),
        },
{
    match compressed {
        Some(bytes) => Ok(CacheEntry { file_name, bytes }),
        None => Err(FetchError::CacheIO { reason: "page could not be compressed".to_owned() }),
    }
}

/// Decodes what the cache holds for a URL. `stored` is the content of the
/// URL's cache file, or `None` where there is no such file.
pub fn get_from_cache(stored: Option<Vec<u8>>) -> (text: Result<Option<String>, FetchError>)
    ensures
        match cached_text(stored_view(stored)) {
            Ok(Some(t)) => text matches Ok(Some(found)) && found@ == t,
            Ok(None) => text matches Ok(None),
            Err(_) => text matches Err(e) && e@ == undecodable(),
        },
{
    match stored {
        None => Ok(None),
        Some(bytes) => match inflate(bytes.as_slice()) {
            Some(text) => Ok(Some(text)),
            None => Err(FetchError::CacheIO { reason: "cache entry is not a compressed text".to_owned() }),
        },
    }
}

/// Encodes `content` for the cache, keyed by `url`. Reading the entry back
/// gives `content` again.
pub fn write_to_cache(url: &str, content: &str) -> (entry: Result<CacheEntry, FetchError>)
    ensures
        match cache_entry(url@, content@) {
            Ok((name, bytes)) => entry matches Ok(e) && e.file_name@ == name && e.bytes@ == bytes,
            Err(error) => entry matches Err(e) && e@ == error,
        },
        entry matches Ok(e) ==> cached_text(Some(e.bytes@)) == Ok::<Option<Seq<char>>, ()>(Some(content@)),
{
    entry_of(cache_file_name(url), deflate(content))
}

/// A fetch that waits for the cache: the caller reads the file named
/// `file_name` in the cache directory and hands its content to `resolve`.
#[derive(Debug)]
pub struct CacheQuery {
    request: SimpleRequest,
    file_name: String,
}

/// A fetch that missed the cache and waits for the network: the caller
/// takes a client from the pool, sends the request, gives the client back
/// and hands the response to `complete`.
#[derive(Debug)]
pub struct Exchange {
    request: SimpleRequest,
    file_name: String,
}

/// A fetch that waits for its cache entry to be written: the caller writes
/// the entry and hands the outcome to `finish`, which alone gives the page.
#[derive(Debug)]
pub struct PendingStore {
    content: String,
    entry: CacheEntry,
}

/// What the cache had for a request.
#[derive(Debug)]
pub enum Lookup {
    /// The cache held the page: the fetch is over, without any network call.
    Hit(String),
    /// The cache holds nothing for the URL: the page comes from the network.
    Miss(Exchange),
    /// The cache file does not decode.
    Corrupt(FetchError),
}

/// The mathematical value of a fetch that waits for the cache or for the
/// network.
pub ghost struct FetchView {
    pub request: RequestView,
    pub file_name: Seq<char>,
}

/// The mathematical value of a [`PendingStore`].
pub ghost struct PendingStoreView {
    pub content: Seq<char>,
    pub file_name: Seq<char>,
    pub bytes: Seq<u8>,
}

impl View for CacheQuery {
    type V = FetchView;

    closed spec fn view(&self) -> FetchView {
        FetchView { request: self.request@, file_name: self.file_name@ }
    }
}

impl View for Exchange {
    type V = FetchView;

    closed spec fn view(&self) -> FetchView {
        FetchView { request: self.request@, file_name: self.file_name@ }
    }
}

impl View for PendingStore {
    type V = PendingStoreView;

    closed spec fn view(&self) -> PendingStoreView {
        PendingStoreView { content: self.content@, file_name: self.entry.file_name@, bytes: self.entry.bytes@ }
    }
}

impl CacheQuery {
    /// The name of the cache file to read.
    pub fn file_name(&self) -> (name: &String)
        ensures
            name@ == self@.file_name,
    {
        &self.file_name
    }

    /// The request being fetched.
    pub fn request(&self) -> (request: &SimpleRequest)
        ensures
            request@ == self@.request,
    {
        &self.request
    }

    /// Decides between the cache and the network. `stored` is the content
    /// of the cache file, or `None` where there is no such file. A file
    /// that decodes ends the fetch with its text; no file sends the fetch
    /// to the network; a file that does not decode is an error.
    pub fn resolve(self, stored: Option<Vec<u8>>) -> (lookup: Lookup)
        ensures
            match cached_text(stored_view(stored)) {
                Ok(Some(text)) => lookup matches Lookup::Hit(page) && page@ == text,
                Ok(None) => lookup matches Lookup::Miss(exchange) && exchange@ == self@,
                Err(_) => lookup matches Lookup::Corrupt(e) && e@ == undecodable(),
            },
    {
        match get_from_cache(stored) {
            Ok(Some(page)) => Lookup::Hit(page),
            Ok(None) => Lookup::Miss(Exchange { request: self.request, file_name: self.file_name }),
            Err(e) => Lookup::Corrupt(e),
        }
    }
}

impl Exchange {
    /// The request to send.
    pub fn request(&self) -> (request: &SimpleRequest)
        ensures
            request@ == self@.request,
    {
        &self.request
    }

    /// Takes the response of the network. A failed exchange fails the fetch
    /// with a transport error that carries the reason given. A page is
    /// compressed into the cache entry of the request's URL, which is to be
    /// written before the page is handed on.
    pub fn complete(self, response: Result<String, String>) -> (next: Result<PendingStore, FetchError>)
        ensures
            match response {
                Err(reason) => next matches Err(e) && e@ == (FetchErrorView::Transport { reason: reason@ }),
                Ok(content) => match deflated(content@) {
                    Some(bytes) => next matches Ok(store) && store@ == (PendingStoreView {
                        content: content@,
                        file_name: self@.file_name,
                        bytes,
                    }) && cached_text(Some(bytes)) == Ok::<Option<Seq<char>>, ()>(Some(content@)),
                    None => next matches Err(e) && e@ == unencodable(),
                },
            },
    {
        match response {
            Err(reason) => Err(FetchError::Transport { reason }),
            Ok(content) => match entry_of(self.file_name, deflate(content.as_str())) {
                Ok(entry) => Ok(PendingStore { content, entry }),
                Err(e) => Err(e),
            },
        }
    }
}

impl PendingStore {
    /// The entry to write into the cache directory.
    pub fn entry(&self) -> (entry: &CacheEntry)
        ensures
            entry.file_name@ == self@.file_name,
            entry.bytes@ == self@.bytes,
    {
        &self.entry
    }

    /// Ends the fetch. `written` says whether the cache entry was written;
    /// a failure to write it fails the fetch with the reason given.
    pub fn finish(self, written: Result<(), String>) -> (page: Result<String, FetchError>)
        ensures
            match written {
                Ok(_) => page matches Ok(text) && text@ == self@.content,
                Err(reason) => page matches Err(e) && e@ == (FetchErrorView::CacheIO { reason: reason@ }),
            },
    {
        match written {
            Ok(_) => Ok(self.content),
            Err(reason) => Err(FetchError::CacheIO { reason }),
        }
    }
}

/// Where a client handle of the pool is.
#[derive(Clone, Copy, Debug, PartialEq, Eq, Structural)]
pub enum Slot {
    /// In the pool, never lent yet.
    Idle,
    /// With a caller.
    Lent,
    /// Given back, and not to be lent again before `ready_at`.
    Cooling { ready_at: u64 },
}

impl Slot {
    /// Whether the handle may be lent at `now`.
    pub open spec fn ready(self, now: u64) -> bool {
        match self {
            Slot::Idle => true,
            Slot::Lent => false,
            Slot::Cooling { ready_at } => ready_at <= now,
        }
    }

    /// The moment at which the handle ends its cooldown, if it is cooling.
    pub open spec fn until(self) -> Option<u64> {
        match self {
            Slot::Cooling { ready_at } => Some(ready_at),
            _ => None,
        }
    }

    pub fn is_ready(&self, now: u64) -> (b: bool)
        ensures
            b == self.ready(now),
    {
        match self {
            Slot::Idle => true,
            Slot::Lent => false,
            Slot::Cooling { ready_at } => *ready_at <= now,
        }
    }
}

/// The mathematical value of the client pool.
pub ghost struct Pool {
    pub slots: Seq<Slot>,
    pub cooldown: u64,
}

impl Pool {
    /// The first handle at or after `from` that may be lent at `now`.
    pub open spec fn first_ready(self, now: u64, from: int) -> Option<int>
        decreases self.slots.len() - from,
    {
        if from < 0 || from >= self.slots.len() {
            None
        } else if self.slots[from].ready(now) {
            Some(from)
        } else {
            self.first_ready(now, from + 1)
        }
    }

    /// The handle that `get_client` lends at `now`, if any: the first that
    /// is ready.
    pub open spec fn lends(self, now: u64) -> Option<int> {
        self.first_ready(now, 0)
    }

    /// The pool after `get_client` at `now`.
    pub open spec fn get(self, now: u64) -> Pool {
        match self.lends(now) {
            Some(client) => Pool { slots: self.slots.update(client, Slot::Lent), ..self },
            None => self,
        }
    }

    /// Whether `client` is a handle of the pool that is lent.
    pub open spec fn is_lent(self, client: int) -> bool {
        0 <= client < self.slots.len() && self.slots[client] == Slot::Lent
    }

    /// The moment from which a handle given back at `now` may be lent
    /// again.
    pub open spec fn ready_after(self, now: u64) -> u64 {
        if now + self.cooldown > u64::MAX {
            u64::MAX
        } else {
            (now + self.cooldown) as u64
        }
    }

    /// The pool after `return_client(client, now)`.
    pub open spec fn give_back(self, client: int, now: u64) -> Pool {
        if self.is_lent(client) {
            Pool { slots: self.slots.update(client, Slot::Cooling { ready_at: self.ready_after(now) }), ..self }
        } else {
            self
        }
    }

    /// Whether none of the first `n` handles is cooling.
    pub open spec fn none_cooling_upto(self, n: int) -> bool {
        forall|i: int| 0 <= i < n ==> (#[trigger] self.slots[i]).until() is None
    }

    /// Whether `t` is the earliest moment at which one of the first `n`
    /// handles ends its cooldown.
    pub open spec fn earliest_upto(self, t: u64, n: int) -> bool {
        &&& exists|i: int| 0 <= i < n && (#[trigger] self.slots[i]).until() == Some(t)
        &&& forall|i: int|
            0 <= i < n ==> ((#[trigger] self.slots[i]).until() matches Some(r) ==> t <= r)
    }

    /// How many of the first `n` handles may be lent at `now`.
    pub open spec fn ready_upto(self, now: u64, n: int) -> nat
        decreases n,
    {
        if n <= 0 {
            0
        } else {
            let before = self.ready_upto(now, n - 1);
            if self.slots[n - 1].ready(now) {
                before + 1
            } else {
                before
            }
        }
    }

    /// How many handles may be lent at `now`.
    pub open spec fn ready_count(self, now: u64) -> nat {
        self.ready_upto(now, self.slots.len() as int)
    }

    /// The handle lent is the first ready one, and none at all is lent only
    /// where none is ready.
    pub proof fn first_ready_is_first(self, now: u64, from: int)
        requires
            from >= 0,
        ensures
            match self.first_ready(now, from) {
                Some(client) => {
                    &&& from <= client < self.slots.len()
                    &&& self.slots[client].ready(now)
                    &&& forall|i: int| from <= i < client ==> !(#[trigger] self.slots[i]).ready(now)
                },
                None => forall|i: int| from <= i < self.slots.len() ==> !(#[trigger] self.slots[i]).ready(now),
            },
        decreases self.slots.len() - from,
    {
        if from < self.slots.len() && !self.slots[from].ready(now) {
            self.first_ready_is_first(now, from + 1);
        }
    }

    /// The cooldown. A handle that was given back at `now` is not lent
    /// again before the cooldown has passed, as long as the clock has room
    /// for the end of the cooldown.
    pub proof fn cooldown_is_kept(self, client: int, now: u64, later: u64)
        requires
            self.is_lent(client),
            now + self.cooldown <= u64::MAX,
            later < now + self.cooldown,
        ensures
            self.give_back(client, now).lends(later) != Some(client),
    {
        self.give_back(client, now).first_ready_is_first(later, 0);
    }

    /// A handle that is lent is not lent again until it was given back.
    pub proof fn lent_stays_lent(self, client: int, now: u64)
        requires
            self.is_lent(client),
        ensures
            self.lends(now) != Some(client),
            self.get(now).is_lent(client),
    {
        self.first_ready_is_first(now, 0);
    }
}

/// The bounded pool of client handles. A handle is a number below the size
/// of the pool; the caller holds the clients themselves. A handle that was
/// given back is lent again only after the cooldown, which throttles the
/// crawl to about one request per handle and cooldown.
#[derive(Debug)]
pub struct ClientProvider {
    slots: Vec<Slot>,
    cooldown: u64,
}

impl View for ClientProvider {
    type V = Pool;

    closed spec fn view(&self) -> Pool {
        Pool { slots: self.slots@, cooldown: self.cooldown }
    }
}

impl ClientProvider {
    /// A pool of `size` idle handles with the given cooldown, in
    /// milliseconds.
    pub fn new(size: usize, cooldown: u64) -> (pool: ClientProvider)
        ensures
            pool@ == (Pool { slots: Seq::new(size as nat, |i: int| Slot::Idle), cooldown }),
    {
        let mut slots: Vec<Slot> = Vec::new();
        let mut i: usize = 0;
        while i < size
            invariant
                i <= size,
                slots@ == Seq::new(i as nat, |k: int| Slot::Idle),
            decreases size - i,
        {
            slots.push(Slot::Idle);
            assert(slots@ =~= Seq::new((i + 1) as nat, |k: int| Slot::Idle));
            i += 1;
        }
        ClientProvider { slots, cooldown }
    }

    /// Lends the first handle that is ready at `now`, a time in
    /// milliseconds, or `None` where the caller has to wait.
    pub fn get_client(&mut self, now: u64) -> (client: Option<usize>)
        ensures
            final(self)@ == old(self)@.get(now),
            match client {
                Some(c) => old(self)@.lends(now) == Some(c as int),
                None => old(self)@.lends(now) is None,
            },
    {
        let mut i: usize = 0;
        while i < self.slots.len()
            invariant
                i <= self.slots@.len(),
                self@ == old(self)@,
                self@.lends(now) == self@.first_ready(now, i as int),
            decreases self.slots@.len() - i,
        {
            if self.slots[i].is_ready(now) {
                self.slots.set(i, Slot::Lent);
                return Some(i);
            }
            i += 1;
        }
        None
    }

    /// Takes back a handle at `now`, a time in milliseconds: it cools down
    /// from then on. Says whether `client` was a lent handle of this pool;
    /// anything else changes nothing.
    pub fn return_client(&mut self, client: usize, now: u64) -> (taken: bool)
        ensures
            taken == old(self)@.is_lent(client as int),
            final(self)@ == old(self)@.give_back(client as int, now),
    {
        if client < self.slots.len() && matches!(self.slots[client], Slot::Lent) {
            let ready_at = now.saturating_add(self.cooldown);
            self.slots.set(client, Slot::Cooling { ready_at });
            true
        } else {
            false
        }
    }

    /// How many handles may be lent at `now`.
    pub fn available(&self, now: u64) -> (n: usize)
        ensures
            n == self@.ready_count(now),
    {
        let mut n: usize = 0;
        let mut i: usize = 0;
        while i < self.slots.len()
            invariant
                i <= self.slots@.len(),
                n <= i,
                n == self@.ready_upto(now, i as int),
            decreases self.slots@.len() - i,
        {
            if self.slots[i].is_ready(now) {
                n += 1;
            }
            i += 1;
        }
        n
    }

    /// The earliest moment at which a cooling handle is ready again, or
    /// `None` where no handle is cooling: until when a caller that got no
    /// handle has to wait.
    pub fn wake_at(&self) -> (at: Option<u64>)
        ensures
            match at {
                Some(t) => self@.earliest_upto(t, self@.slots.len() as int),
                None => self@.none_cooling_upto(self@.slots.len() as int),
            },
    {
        let mut at: Option<u64> = None;
        let mut i: usize = 0;
        while i < self.slots.len()
            invariant
                i <= self.slots@.len(),
                match at {
                    Some(t) => self@.earliest_upto(t, i as int),
                    None => self@.none_cooling_upto(i as int),
                },
            decreases self.slots@.len() - i,
        {
            match self.slots[i] {
                Slot::Cooling { ready_at } => {
                    let earlier = match at {
                        Some(t) => ready_at < t,
                        None => true,
                    };
                    if earlier {
                        at = Some(ready_at);
                    }
                    assert(self@.slots[i as int].until() == Some(ready_at));
                },
                _ => {},
            }
            i += 1;
        }
        at
    }
}

/// The number of client handles of the fetcher.
pub const POOL_SIZE: usize = 1;

/// The cooldown of a client handle, in milliseconds.
pub const COOLDOWN_MS: u64 = 1000;

/// The fetcher: the page cache's directory and the pool of client handles.
/// It resolves a request to the text of its page through the cache or the
/// network; the caller does the reading, the sending and the writing.
#[derive(Debug)]
pub struct Requester {
    cache_dir: PathBuf,
    clients: ClientProvider,
}

impl Requester {
    /// The pool of client handles.
    pub closed spec fn pool(&self) -> Pool {
        self.clients@
    }

    /// The directory of the page cache.
    pub closed spec fn dir(&self) -> PathBuf {
        self.cache_dir
    }

    /// A fetcher whose cache lies in `cache_dir`, with one idle client
    /// handle and a cooldown of one second.
    pub fn new(cache_dir: PathBuf) -> (requester: Requester)
        ensures
            requester.dir() == cache_dir,
            requester.pool() == (Pool { slots: seq![Slot::Idle], cooldown: COOLDOWN_MS }),
    {
        let requester = Requester { cache_dir, clients: ClientProvider::new(POOL_SIZE, COOLDOWN_MS) };
        assert(requester.pool().slots =~= seq![Slot::Idle]);
        requester
    }

    /// The directory of the page cache.
    pub fn cache_dir(&self) -> (dir: &PathBuf)
        ensures
            *dir == self.dir(),
    {
        &self.cache_dir
    }

    /// Starts the fetch of `r` by asking the cache: the page is looked up
    /// under the name of the request's URL.
    pub fn execute(&self, r: SimpleRequest) -> (query: CacheQuery)
        ensures
            query@ == (FetchView { request: r@, file_name: cache_name(r@.url) }),
    {
        let file_name = cache_file_name(r.url.as_str());
        CacheQuery { request: r, file_name }
    }

    /// Lends a client handle: see [`ClientProvider::get_client`].
    pub fn get_client(&mut self, now: u64) -> (client: Option<usize>)
        ensures
            final(self).pool() == old(self).pool().get(now),
            match client {
                Some(c) => old(self).pool().lends(now) == Some(c as int),
                None => old(self).pool().lends(now) is None,
            },
    {
        self.clients.get_client(now)
    }

    /// Takes a client handle back: see [`ClientProvider::return_client`].
    pub fn return_client(&mut self, client: usize, now: u64) -> (taken: bool)
        ensures
            taken == old(self).pool().is_lent(client as int),
            final(self).pool() == old(self).pool().give_back(client as int, now),
    {
        self.clients.return_client(client, now)
    }

    /// Until when a caller that got no handle has to wait: see
    /// [`ClientProvider::wake_at`].
    pub fn wake_at(&self) -> (at: Option<u64>)
        ensures
            match at {
                Some(t) => self.pool().earliest_upto(t, self.pool().slots.len() as int),
                None => self.pool().none_cooling_upto(self.pool().slots.len() as int),
            },
    {
        self.clients.wake_at()
    }
}

/// A path in the file system, which the library only carries.
#[verifier::external_type_specification]
#[verifier::external_body]
pub struct ExPathBuf(PathBuf);

} // verus!
