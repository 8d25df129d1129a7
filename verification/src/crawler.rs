//! Fetching feeds: the decisions taken about requests and responses, the
//! decoding of the body to text, and the parsing of the text as a feed. The
//! network requests themselves are made by the caller.
use vstd::prelude::*;
use vstd::string::*;

use crate::db::blake3_digest;
use crate::feed::{mime_parts, opt_view, parse_mime, ParsedFeed};
use crate::xml::{
    atom_feed_view, atom_model, atom_parse, atom_read, atom_read_outcome, rss_channel_view, rss_model, rss_parse, rss_read,
    rss_read_outcome, AtomFeedView, RssChannelView, XmlOutcome, XmlReadError,
};
use crate::text::{is_unicode_whitespace, lemma_str_decodes, str_eq, unicode_whitespace};
use crate::time::{parse_rfc2822, rfc2822_instant, Instant};

verus! {

/// The largest response body accepted: 5 MiB.
pub const MAX_RESPONSE_SIZE: u64 = 5242880;

/// Whether requests are made conditional on the cache keys of the last fetch.
#[derive(Debug, Clone, Copy, PartialEq, Eq, Structural)]
pub enum ConditionalRequest {
    Enabled,
    Disabled,
}

/// The outcome of fetching a feed.
#[derive(Debug)]
pub enum FeedData<T> {
    NotModified,
    Updated(T),
}

/// Why a feed could not be fetched.
#[derive(Debug)]
pub enum FetchError {
    Database(String),
    Request(String),
    Io(String),
    /// Feed response body exceeded the limit
    ResponseTooBig,
    ResponseUnsuccessful(u16),
    UnknownEncoding,
}

/// Why a fetched feed could not be read.
#[derive(Debug)]
pub enum ProcessError {
    Rss(String),
    Atom(String),
    Database(String),
    Json(String),
    /// The feed is in an unknown format
    UnknownFormat,
}

/// Why a feed could not be refreshed.
#[derive(Debug)]
pub enum CrawlError {
    Database(String),
    Fetch(FetchError),
    Process(ProcessError),
}

/// The text of an HTTP status code, as `reqwest::StatusCode` displays it
/// (the code and its reason), or the code alone if it is not a valid status.
pub uninterp spec fn status_display(code: u16) -> Seq<char>;

/// The message of a fetch error.
pub open spec fn spec_fetch_message(e: FetchError) -> Seq<char> {
    "fetch error: "@ + match e {
        FetchError::Database(m) => "database: "@ + m@,
        FetchError::Request(m) => "request: "@ + m@,
        FetchError::Io(m) => "i/o: "@ + m@,
        FetchError::ResponseTooBig => "response too big"@,
        FetchError::ResponseUnsuccessful(code) => status_display(code),
        FetchError::UnknownEncoding => "unknown encoding"@,
    }
}

/// The message of a processing error.
pub open spec fn spec_process_message(e: ProcessError) -> Seq<char> {
    "process error: "@ + match e {
        ProcessError::Rss(m) => m@,
        ProcessError::Atom(m) => m@,
        ProcessError::Json(m) => m@,
        ProcessError::Database(m) => m@,
        ProcessError::UnknownFormat => "unknown feed format"@,
    }
}

/// The message of a crawl error.
pub open spec fn spec_crawl_message(e: CrawlError) -> Seq<char> {
    match e {
        CrawlError::Fetch(f) => spec_fetch_message(f),
        CrawlError::Process(p) => spec_process_message(p),
        CrawlError::Database(m) => m@,
    }
}

impl FetchError {
    /// The message shown for this error.
    pub fn to_display_string(&self) -> (r: String)
        ensures
            r@ == spec_fetch_message(*self),
    {
        let mut s = String::from_str("fetch error: ");
        match self {
            FetchError::Database(m) => {
                s.append("database: ");
                s.append(m.as_str());
            },
            FetchError::Request(m) => {
                s.append("request: ");
                s.append(m.as_str());
            },
            FetchError::Io(m) => {
                s.append("i/o: ");
                s.append(m.as_str());
            },
            FetchError::ResponseTooBig => s.append("response too big"),
            FetchError::ResponseUnsuccessful(code) => s.append(status_text(*code).as_str()),
            FetchError::UnknownEncoding => s.append("unknown encoding"),
        }
        s
    }
}

impl ProcessError {
    /// The message shown for this error.
    pub fn to_display_string(&self) -> (r: String)
        ensures
            r@ == spec_process_message(*self),
    {
        let mut s = String::from_str("process error: ");
        match self {
            ProcessError::Rss(m) => s.append(m.as_str()),
            ProcessError::Atom(m) => s.append(m.as_str()),
            ProcessError::Json(m) => s.append(m.as_str()),
            ProcessError::Database(m) => s.append(m.as_str()),
            ProcessError::UnknownFormat => s.append("unknown feed format"),
        }
        s
    }
}

impl CrawlError {
    /// The message shown for this error.
    pub fn to_display_string(&self) -> (r: String)
        ensures
            r@ == spec_crawl_message(*self),
    {
        match self {
            CrawlError::Fetch(e) => e.to_display_string(),
            CrawlError::Process(e) => e.to_display_string(),
            CrawlError::Database(m) => String::from_str(m.as_str()),
        }
    }
}

/// `reqwest::StatusCode::from_u16(code)` as it displays, or the code alone if
/// it is not a valid status: the text named `status_display`.
#[verifier::external_body]
fn status_text(code: u16) -> (r: String)
    ensures
        r@ == status_display(code),
{
    match reqwest::StatusCode::from_u16(code) {
        Ok(status) => status.to_string(),
        Err(_) => code.to_string(),
    }
}

/// What to do with a response, by its HTTP status.
#[derive(Debug, Clone, Copy, PartialEq, Eq, Structural)]
pub enum StatusDecision {
    /// 304: the feed has not changed.
    NotModified,
    /// 2xx: read the body.
    ReadBody,
    /// Anything else: the fetch failed.
    Unsuccessful,
}

/// What to do with a response of status `status`.
pub fn status_decision(status: u16) -> (r: StatusDecision)
    ensures
        status == 304 ==> r == StatusDecision::NotModified,
        status != 304 && 200 <= status < 300 ==> r == StatusDecision::ReadBody,
        status != 304 && !(200 <= status < 300) ==> r == StatusDecision::Unsuccessful,
{
    if status == 304 {
        StatusDecision::NotModified
    } else if 200 <= status && status < 300 {
        StatusDecision::ReadBody
    } else {
        StatusDecision::Unsuccessful
    }
}

/// The body of a response as it is read, never more than
/// `MAX_RESPONSE_SIZE` bytes.
#[derive(Debug)]
pub struct BodyReader {
    body: Vec<u8>,
}

impl View for BodyReader {
    type V = Seq<u8>;

    closed spec fn view(&self) -> Seq<u8> {
        self.body@
    }
}

impl BodyReader {
    /// The bound that a body keeps.
    pub closed spec fn wf(&self) -> bool {
        self.body@.len() <= MAX_RESPONSE_SIZE
    }

    /// Starts reading a body, given the length that the response announces:
    /// a body announced as longer than the limit is refused.
    pub fn start(content_length: Option<u64>) -> (r: Result<BodyReader, FetchError>)
        ensures
            match content_length {
                Some(n) if n > MAX_RESPONSE_SIZE => r matches Err(FetchError::ResponseTooBig),
                _ => r matches Ok(b) && b.wf() && b@.len() == 0,
            },
    {
        match content_length {
            Some(n) => {
                if n > MAX_RESPONSE_SIZE {
                    return Err(FetchError::ResponseTooBig);
                }
                Ok(BodyReader { body: Vec::with_capacity(n as usize) })
            },
            None => Ok(BodyReader { body: Vec::new() }),
        }
    }

    /// Adds a chunk of the body; a chunk that would take the body past the
    /// limit is refused, and the body is left as it was.
    pub fn push_chunk(&mut self, chunk: &[u8]) -> (r: Result<(), FetchError>)
        requires
            old(self).wf(),
        ensures
            final(self).wf(),
            old(self)@.len() + chunk@.len() > MAX_RESPONSE_SIZE ==> (r matches Err(FetchError::ResponseTooBig)
                && final(self)@ == old(self)@),
            old(self)@.len() + chunk@.len() <= MAX_RESPONSE_SIZE ==> r is Ok && final(self)@ == old(self)@ + chunk@,
    {
        let len = self.body.len();
        if chunk.len() > (MAX_RESPONSE_SIZE as usize) - len {
            return Err(FetchError::ResponseTooBig);
        }
        let n = chunk.len();
        let mut i: usize = 0;
        let ghost start = self.body@;
        while i < n
            invariant
                n == chunk@.len(),
                i <= n,
                self.body@ == start + chunk@.take(i as int),
            decreases n - i,
        {
            self.body.push(chunk[i]);
            assert(chunk@.take(i + 1) =~= chunk@.take(i as int).push(chunk@[i as int]));
            i = i + 1;
        }
        assert(chunk@.take(n as int) =~= chunk@);
        Ok(())
    }

    /// The body read.
    pub fn into_body(self) -> (r: Vec<u8>)
        ensures
            r@ == self@,
    {
        self.body
    }
}

/// A body with its hash.
#[derive(Debug)]
pub struct HashedData {
    pub data: Vec<u8>,
    pub hash: [u8; 32],
}

impl HashedData {
    /// A body and its BLAKE3 hash.
    pub fn new(data: Vec<u8>) -> (r: HashedData)
        ensures
            r.data@ == data@,
            r.hash@ == blake3_digest(data@),
    {
        let hash = crate::db::hash_bytes(data.as_slice());
        HashedData { data, hash }
    }
}

/// Whether a body is the same as the last one fetched, judged by its hash;
/// only when conditional requests are enabled.
pub fn unchanged_by_hash(cond_req: ConditionalRequest, previous: Option<[u8; 32]>, hash: &[u8; 32]) -> (r: bool)
    ensures
        r == (cond_req == ConditionalRequest::Enabled && match previous {
            Some(p) => p@ == hash@,
            None => false,
        }),
{
    if cond_req != ConditionalRequest::Enabled {
        return false;
    }
    match previous {
        None => false,
        Some(p) => {
            let mut i: usize = 0;
            while i < 32
                invariant
                    i <= 32,
                    cond_req == ConditionalRequest::Enabled,
                    previous == Some(p),
                    forall|j: int| 0 <= j < i ==> p@[j] == hash@[j],
                decreases 32 - i,
            {
                if p[i] != hash[i] {
                    assert(p@[i as int] != hash@[i as int]);
                    return false;
                }
                i = i + 1;
            }
            assert(p@ =~= hash@);
            true
        },
    }
}

/// The RFC 2822 text of an instant, as `chrono`'s `to_rfc2822` writes it;
/// `None` if `DateTime::from_timestamp` refuses the instant.
pub uninterp spec fn rfc2822_text(instant: Instant) -> Option<Seq<char>>;

/// The first second of the year 0 (UTC).
pub const RFC2822_FIRST_SECOND: i64 = -62167219200;

/// The last second of the year 9999 (UTC).
pub const RFC2822_LAST_SECOND: i64 = 253402300799;

/// Whether an instant falls in the years 0 to 9999, the only ones that RFC
/// 2822 can write.
pub open spec fn rfc2822_writable(instant: Instant) -> bool {
    RFC2822_FIRST_SECOND <= instant.secs <= RFC2822_LAST_SECOND
}

/// `chrono::DateTime::from_timestamp` then `to_rfc2822()`, which writes only
/// the years 0 to 9999 (it panics on others, so they are left out): the text
/// named `rfc2822_text`.
#[verifier::external_body]
fn chrono_to_rfc2822(instant: Instant) -> (r: Option<String>)
    requires
        rfc2822_writable(instant),
    ensures
        match r {
            Some(t) => rfc2822_text(instant) == Some(t@),
            None => rfc2822_text(instant) is None,
        },
{
    chrono::DateTime::from_timestamp(instant.secs, instant.nanos).map(|d| d.to_rfc2822())
}

/// The conditional headers of a request: `If-Modified-Since` and
/// `If-None-Match`.
pub struct ConditionalHeaders {
    pub if_modified_since: Option<String>,
    pub if_none_match: Option<String>,
}

/// The conditional headers for a request of `feed`: the date (when RFC 2822
/// can write it) and entity tag of the last fetch, when conditional requests
/// are enabled.
pub fn conditional_headers(cond_req: ConditionalRequest, feed: &crate::db::Feed) -> (r: ConditionalHeaders)
    ensures
        cond_req == ConditionalRequest::Disabled ==> r.if_modified_since is None && r.if_none_match is None,
        cond_req == ConditionalRequest::Enabled ==> {
            &&& match r.if_modified_since {
                Some(t) => feed.last_modified matches Some(ts) && rfc2822_writable(ts) && rfc2822_text(ts) == Some(t@),
                None => feed.last_modified matches Some(ts) ==> !rfc2822_writable(ts) || rfc2822_text(ts) is None,
            }
            &&& match r.if_none_match {
                Some(t) => feed.etag matches Some(e) && e@ == t@,
                None => feed.etag is None,
            }
        },
{
    if cond_req == ConditionalRequest::Disabled {
        return ConditionalHeaders { if_modified_since: None, if_none_match: None };
    }
    let if_modified_since = match feed.last_modified {
        Some(ts) => if RFC2822_FIRST_SECOND <= ts.secs && ts.secs <= RFC2822_LAST_SECOND {
            chrono_to_rfc2822(ts)
        } else {
            None
        },
        None => None,
    };
    let if_none_match = match &feed.etag {
        Some(e) => Some(String::from_str(e.as_str())),
        None => None,
    };
    ConditionalHeaders { if_modified_since, if_none_match }
}

/// Records the cache keys of a fetch on `feed`: the entity tag and the
/// modification date (when it reads as RFC 2822) that the response gave, and
/// the hash of the body.
pub fn update_feed_cache_keys(feed: &mut crate::db::Feed, etag: Option<&str>, last_modified: Option<&str>, hash: Option<[u8; 32]>)
    ensures
        final(feed).url == old(feed).url,
        final(feed).had_initial_sync == old(feed).had_initial_sync,
        match final(feed).etag {
            Some(e) => etag matches Some(t) && e@ == t@,
            None => etag is None,
        },
        final(feed).last_modified == match last_modified {
            Some(t) => rfc2822_instant(t@),
            None => None,
        },
        final(feed).last_refresh_hash == hash,
{
    feed.etag = match etag {
        Some(t) => Some(String::from_str(t)),
        None => None,
    };
    feed.last_modified = match last_modified {
        Some(t) => parse_rfc2822(t),
        None => None,
    };
    feed.last_refresh_hash = hash;
}

/// The essence and `charset` parameter of a response's media type, if it
/// has one that parses.
pub fn media_type_parts(content_type: Option<&str>) -> (r: Option<(String, Option<String>)>)
    ensures
        match content_type {
            None => r is None,
            Some(t) => match r {
                Some((e, c)) => mime_parts(t@) == Some((e@, opt_view(c))),
                None => mime_parts(t@) is None,
            },
        },
{
    match content_type {
        Some(t) => parse_mime(t),
        None => None,
    }
}

/// The character sets that `xhtmlchardet::detect` finds for `data`, given
/// the charset that the media type names; `None` if it fails.
pub uninterp spec fn charset_candidates(data: Seq<u8>, hint: Option<Seq<char>>) -> Option<Seq<Seq<char>>>;

/// `xhtmlchardet::detect` on `data` with the hint: the candidates named
/// `charset_candidates`.
#[verifier::external_body]
fn detect_charsets(data: &[u8], hint: Option<&str>) -> (r: Option<Vec<String>>)
    ensures
        match r {
            Some(v) => charset_candidates(data@, crate::text::opt_str_view(hint)) == Some(crate::text::string_views(v@)),
            None => charset_candidates(data@, crate::text::opt_str_view(hint)) is None,
        },
{
    xhtmlchardet::detect(&mut std::io::Cursor::new(data), hint.map(|h| h.to_string())).ok()
}

/// The number of encodings that the `encoding` crate offers.
pub const ENCODING_COUNT: usize = 44;

/// The label (WHATWG name, else name) of the encoding at `index` in
/// `encoding::all::encodings()`.
pub uninterp spec fn encoding_label_at(index: usize) -> Seq<char>;

/// The strict decoding of `data` by the encoding at `index` in
/// `encoding::all::encodings()`; `None` if it fails.
pub uninterp spec fn encoding_decode_strict(index: usize, data: Seq<u8>) -> Option<Seq<char>>;

/// The label of the encoding at `index` of `encoding::all::encodings()`
/// (which holds `ENCODING_COUNT` encodings): `whatwg_name()`, else `name()`;
/// the label named `encoding_label_at`.
#[verifier::external_body]
fn encoding_label(index: usize) -> (r: String)
    requires
        index < ENCODING_COUNT,
    ensures
        r@ == encoding_label_at(index),
{
    let e = encoding::all::encodings()[index];
    e.whatwg_name().unwrap_or_else(|| e.name()).to_string()
}

/// `decode(data, DecoderTrap::Strict)` by the encoding at `index` of
/// `encoding::all::encodings()`: the text named `encoding_decode_strict`.
#[verifier::external_body]
fn encoding_decode(index: usize, data: &[u8]) -> (r: Option<String>)
    requires
        index < ENCODING_COUNT,
    ensures
        match r {
            Some(t) => encoding_decode_strict(index, data@) == Some(t@),
            None => encoding_decode_strict(index, data@) is None,
        },
{
    encoding::all::encodings()[index].decode(data, encoding::types::DecoderTrap::Strict).ok()
}

/// std's `str::from_utf8`: the text that `data` encodes, if it is valid UTF-8.
#[verifier::external_body]
fn utf8_decode(data: &[u8]) -> (r: Option<String>)
    ensures
        r is Some <==> vstd::utf8::valid_utf8(data@),
        r matches Some(t) ==> t@ == vstd::utf8::decode_utf8(data@),
{
    std::str::from_utf8(data).ok().map(|s| s.to_string())
}

/// The text that std's `String::from_utf8_lossy` makes of `data`.
pub uninterp spec fn utf8_lossy(data: Seq<u8>) -> Seq<char>;

/// `String::from_utf8_lossy(data)`: the text named `utf8_lossy`.
#[verifier::external_body]
fn utf8_decode_lossy(data: &[u8]) -> (r: String)
    ensures
        r@ == utf8_lossy(data@),
{
    String::from_utf8_lossy(data).into_owned()
}

/// A detected character set under the name the `encoding` crate knows:
/// `iso-8859-9` is read as `windows-1254`, which is the same.
pub open spec fn normalise_charset(c: Seq<char>) -> Seq<char> {
    if c == "iso-8859-9"@ {
        "windows-1254"@
    } else {
        c
    }
}

/// Whether a character set is read as UTF-8.
pub open spec fn is_utf8_charset(c: Seq<char>) -> bool {
    c == "utf-8"@ || c == "ascii"@
}

/// The first index below `limit` whose encoding has label `label`.
pub open spec fn encoding_index(label: Seq<char>, limit: nat) -> Option<usize>
    decreases limit,
{
    if limit == 0 {
        None
    } else {
        match encoding_index(label, (limit - 1) as nat) {
            Some(i) => Some(i),
            None => if encoding_label_at((limit - 1) as usize) == label {
                Some((limit - 1) as usize)
            } else {
                None
            },
        }
    }
}

/// The text that the first character set that decodes `data` gives: UTF-8
/// for `utf-8` and `ascii`, else the encoding of that label if there is one.
pub open spec fn decode_attempts(data: Seq<u8>, charsets: Seq<Seq<char>>) -> Option<Seq<char>>
    decreases charsets.len(),
{
    if charsets.len() == 0 {
        None
    } else {
        let c = charsets[0];
        let rest = decode_attempts(data, charsets.drop_first());
        if is_utf8_charset(c) {
            if vstd::utf8::valid_utf8(data) {
                Some(vstd::utf8::decode_utf8(data))
            } else {
                rest
            }
        } else {
            match encoding_index(c, ENCODING_COUNT as nat) {
                None => rest,
                Some(i) => match encoding_decode_strict(i, data) {
                    Some(t) => Some(t),
                    None => rest,
                },
            }
        }
    }
}

/// The text of a body: decoded by the first detected character set that
/// decodes it; failing that, read lossily as UTF-8 when a UTF-8 character set
/// was detected; else `None` (also when detection fails).
pub open spec fn spec_to_utf8(data: Seq<u8>, hint: Option<Seq<char>>) -> Option<Seq<char>> {
    match charset_candidates(data, hint) {
        None => None,
        Some(found) => {
            let charsets = found.map_values(|c: Seq<char>| normalise_charset(c));
            match decode_attempts(data, charsets) {
                Some(t) => Some(t),
                None => if exists|i: int| 0 <= i < charsets.len() && is_utf8_charset(#[trigger] charsets[i]) {
                    Some(utf8_lossy(data))
                } else {
                    None
                },
            }
        },
    }
}

/// What one character set makes of `data`: for `utf-8` and `ascii`, the
/// UTF-8 text if `data` is valid UTF-8; for another label, the strict
/// decoding by the encoding of that label, if there is one.
pub open spec fn charset_decoding(data: Seq<u8>, c: Seq<char>) -> Option<Seq<char>> {
    if c == "utf-8"@ || c == "ascii"@ {
        if vstd::utf8::valid_utf8(data) {
            Some(vstd::utf8::decode_utf8(data))
        } else {
            None
        }
    } else {
        match encoding_index(c, ENCODING_COUNT as nat) {
            Some(k) => encoding_decode_strict(k, data),
            None => None,
        }
    }
}

/// The charset at `i` is the first that decodes `data`, so the attempts in
/// order give what it makes of `data`.
proof fn lemma_decode_attempts_first(data: Seq<u8>, charsets: Seq<Seq<char>>, i: int)
    requires
        0 <= i < charsets.len(),
        charset_decoding(data, charsets[i]) is Some,
        forall|j: int| 0 <= j < i ==> (#[trigger] charset_decoding(data, charsets[j])) is None,
    ensures
        decode_attempts(data, charsets) == charset_decoding(data, charsets[i]),
    decreases i,
{
    if i > 0 {
        let rest = charsets.drop_first();
        assert(charset_decoding(data, charsets[0]) is None);
        assert forall|j: int| 0 <= j < i - 1 implies (#[trigger] charset_decoding(data, rest[j])) is None by {
            assert(rest[j] == charsets[j + 1]);
            assert(charset_decoding(data, charsets[j + 1]) is None);
        }
        assert(rest[i - 1] == charsets[i]);
        lemma_decode_attempts_first(data, rest, i - 1);
    }
}

/// When no charset decodes `data`, the attempts give nothing.
proof fn lemma_decode_attempts_none(data: Seq<u8>, charsets: Seq<Seq<char>>)
    requires
        forall|j: int| 0 <= j < charsets.len() ==> (#[trigger] charset_decoding(data, charsets[j])) is None,
    ensures
        decode_attempts(data, charsets) is None,
    decreases charsets.len(),
{
    if charsets.len() > 0 {
        let rest = charsets.drop_first();
        assert(charset_decoding(data, charsets[0]) is None);
        assert forall|j: int| 0 <= j < rest.len() implies (#[trigger] charset_decoding(data, rest[j])) is None by {
            assert(rest[j] == charsets[j + 1]);
            assert(charset_decoding(data, charsets[j + 1]) is None);
        }
        lemma_decode_attempts_none(data, rest);
    }
}

/// A body is decoded by the first detected character set (`iso-8859-9` read
/// as `windows-1254`) that decodes it, whatever later ones would make of it.
/// When none decodes it, it is read lossily as UTF-8 if a UTF-8 character set
/// was detected, and is not decoded otherwise; nor is it when detection
/// fails.
pub proof fn law_to_utf8_first_decoding(data: Seq<u8>, hint: Option<Seq<char>>)
    ensures
        charset_candidates(data, hint) is None ==> spec_to_utf8(data, hint) is None,
        charset_candidates(data, hint) matches Some(found) ==> {
            &&& forall|i: int| 0 <= i < found.len()
                && (#[trigger] charset_decoding(data, normalise_charset(found[i]))) is Some
                && (forall|j: int| 0 <= j < i ==> (#[trigger] charset_decoding(data, normalise_charset(found[j]))) is None)
                ==> spec_to_utf8(data, hint) == charset_decoding(data, normalise_charset(found[i]))
            &&& (forall|i: int| 0 <= i < found.len() ==> (#[trigger] charset_decoding(data, normalise_charset(found[i]))) is None)
                ==> spec_to_utf8(data, hint) == if exists|i: int| 0 <= i < found.len()
                    && ((#[trigger] normalise_charset(found[i])) == "utf-8"@ || normalise_charset(found[i]) == "ascii"@) {
                    Some(utf8_lossy(data))
                } else {
                    None
                }
        },
{
    if let Some(found) = charset_candidates(data, hint) {
        let charsets = found.map_values(|c: Seq<char>| normalise_charset(c));
        assert forall|i: int| 0 <= i < found.len()
            && (#[trigger] charset_decoding(data, normalise_charset(found[i]))) is Some
            && (forall|j: int| 0 <= j < i ==> (#[trigger] charset_decoding(data, normalise_charset(found[j]))) is None)
            implies spec_to_utf8(data, hint) == charset_decoding(data, normalise_charset(found[i])) by {
            assert forall|j: int| 0 <= j < i implies (#[trigger] charset_decoding(data, charsets[j])) is None by {
                assert(charsets[j] == normalise_charset(found[j]));
            }
            assert(charsets[i] == normalise_charset(found[i]));
            lemma_decode_attempts_first(data, charsets, i);
        }
        if forall|i: int| 0 <= i < found.len() ==> (#[trigger] charset_decoding(data, normalise_charset(found[i]))) is None {
            assert forall|j: int| 0 <= j < charsets.len() implies (#[trigger] charset_decoding(data, charsets[j])) is None by {
                assert(charsets[j] == normalise_charset(found[j]));
            }
            lemma_decode_attempts_none(data, charsets);
            if exists|i: int| 0 <= i < found.len()
                && ((#[trigger] normalise_charset(found[i])) == "utf-8"@ || normalise_charset(found[i]) == "ascii"@) {
                let i = choose|i: int| 0 <= i < found.len()
                    && ((#[trigger] normalise_charset(found[i])) == "utf-8"@ || normalise_charset(found[i]) == "ascii"@);
                assert(charsets[i] == normalise_charset(found[i]));
                assert(is_utf8_charset(charsets[i]));
            } else {
                assert forall|i: int| 0 <= i < charsets.len() implies !is_utf8_charset(#[trigger] charsets[i]) by {
                    assert(charsets[i] == normalise_charset(found[i]));
                }
            }
        }
    }
}

/// Finds the encoding with label `label`.
fn find_encoding(label: &str) -> (r: Option<usize>)
    ensures
        r == encoding_index(label@, ENCODING_COUNT as nat),
        r matches Some(i) ==> i < ENCODING_COUNT,
{
    let mut i: usize = 0;
    while i < ENCODING_COUNT
        invariant
            i <= ENCODING_COUNT,
            encoding_index(label@, i as nat) is None,
        decreases ENCODING_COUNT - i,
    {
        let name = encoding_label(i);
        if str_eq(name.as_str(), label) {
            proof {
                lemma_encoding_index_found(label@, i as nat, ENCODING_COUNT as nat);
            }
            return Some(i);
        }
        i = i + 1;
    }
    None
}

/// Once found below one limit, an index is the one found below any higher.
proof fn lemma_encoding_index_found(label: Seq<char>, i: nat, limit: nat)
    requires
        encoding_index(label, i) is None,
        encoding_label_at(i as usize) == label,
        i < limit,
        i < ENCODING_COUNT,
    ensures
        encoding_index(label, limit) == Some(i as usize),
    decreases limit - i,
{
    if limit > i + 1 {
        lemma_encoding_index_found(label, i, (limit - 1) as nat);
    }
}

/// Decodes a body to text, as `spec_to_utf8` says; a body that cannot be
/// decoded is an unknown encoding.
pub fn to_utf8(text: Vec<u8>, charset: Option<&str>) -> (r: Result<String, FetchError>)
    ensures
        match spec_to_utf8(text@, crate::text::opt_str_view(charset)) {
            Some(t) => r matches Ok(s) && s@ == t,
            None => r matches Err(FetchError::UnknownEncoding),
        },
{
    let found = match detect_charsets(text.as_slice(), charset) {
        Some(f) => f,
        None => return Err(FetchError::UnknownEncoding),
    };
    let ghost charsets = crate::text::string_views(found@).map_values(|c: Seq<char>| normalise_charset(c));
    let n = found.len();
    let mut i: usize = 0;
    let mut any_utf8 = false;
    assert(charsets.skip(0) =~= charsets);
    while i < n
        invariant
            n == found@.len(),
            i <= n,
            charsets == crate::text::string_views(found@).map_values(|c: Seq<char>| normalise_charset(c)),
            charset_candidates(text@, crate::text::opt_str_view(charset)) == Some(crate::text::string_views(found@)),
            decode_attempts(text@, charsets) == decode_attempts(text@, charsets.skip(i as int)),
            any_utf8 <==> exists|j: int| 0 <= j < i && is_utf8_charset(#[trigger] charsets[j]),
        decreases n - i,
    {
        let ghost rest = charsets.skip(i as int);
        assert(rest.drop_first() =~= charsets.skip(i + 1));
        assert(rest[0] == charsets[i as int]);
        let raw = found[i].as_str();
        let c: String = if str_eq(raw, "iso-8859-9") {
            String::from_str("windows-1254")
        } else {
            String::from_str(raw)
        };
        assert(c@ == charsets[i as int]);
        let c = c.as_str();
        if str_eq(c, "utf-8") || str_eq(c, "ascii") {
            any_utf8 = true;
            if let Some(s) = utf8_decode(text.as_slice()) {
                return Ok(s);
            }
        } else {
            if let Some(index) = find_encoding(c) {
                if let Some(s) = encoding_decode(index, text.as_slice()) {
                    return Ok(s);
                }
            }
        }
        i = i + 1;
    }
    assert(charsets.skip(n as int).len() == 0);
    if any_utf8 {
        Ok(utf8_decode_lossy(text.as_slice()))
    } else {
        Err(FetchError::UnknownEncoding)
    }
}

/// `s` without white space at its start, as std's `str::trim_start` gives it.
pub open spec fn spec_trim_start(s: Seq<char>) -> Seq<char>
    decreases s.len(),
{
    if s.len() > 0 && is_unicode_whitespace(s[0]) {
        spec_trim_start(s.drop_first())
    } else {
        s
    }
}

/// Whether a text is a JSON Feed: it begins with `{` after white space.
pub open spec fn spec_is_json(data: Seq<char>) -> bool {
    let t = spec_trim_start(data);
    t.len() > 0 && t[0] == '{'
}

/// Whether `data` begins with `{` after white space.
pub fn is_json(data: &str) -> (r: bool)
    ensures
        r == spec_is_json(data@),
{
    let n = data.unicode_len();
    let mut i: usize = 0;
    assert(data@.skip(0) =~= data@);
    while i < n && unicode_whitespace(data.get_char(i))
        invariant
            n == data@.len(),
            i <= n,
            spec_trim_start(data@) == spec_trim_start(data@.skip(i as int)),
        decreases n - i,
    {
        assert(data@.skip(i as int).drop_first() =~= data@.skip(i + 1));
        i = i + 1;
    }
    if i < n {
        assert(data@.skip(i as int)[0] == data@[i as int]);
        data.get_char(i) == '{'
    } else {
        false
    }
}

/// The XML formats a feed may be in.
#[derive(Debug, Clone, Copy, PartialEq, Eq, Structural)]
pub enum FeedType {
    Atom,
    Rss,
}

/// The order in which to try the XML formats: Atom first when the media type
/// says so, RSS first otherwise.
pub open spec fn spec_parse_order(essence: Option<Seq<char>>) -> (FeedType, FeedType) {
    if essence == Some("application/atom+xml"@) {
        (FeedType::Atom, FeedType::Rss)
    } else {
        (FeedType::Rss, FeedType::Atom)
    }
}

/// How reading `data` as `kind` fares.
pub open spec fn spec_read_outcome(kind: FeedType, data: Seq<u8>) -> XmlOutcome {
    match kind {
        FeedType::Atom => atom_read_outcome(data),
        FeedType::Rss => rss_read_outcome(data),
    }
}

/// The message of the error that reading `data` as `kind` gives, when the
/// data begins as that format but is not valid.
pub open spec fn spec_read_message(kind: FeedType, data: Seq<u8>) -> Option<Seq<char>> {
    match kind {
        FeedType::Atom => match atom_parse(data) {
            Err(Some(m)) => Some(m),
            _ => None,
        },
        FeedType::Rss => match rss_parse(data) {
            Err(Some(m)) => Some(m),
            _ => None,
        },
    }
}

/// What parsing a text as a feed comes to, by format: JSON (left to the
/// caller to decode), a feed of an XML format, an error of a format, or an
/// unknown format.
#[derive(Debug, Clone, Copy, PartialEq, Eq, Structural)]
pub enum FeedParseKind {
    Json,
    Parsed(FeedType),
    Invalid(FeedType),
    UnknownFormat,
}

/// What parsing `data` comes to: JSON if it begins with `{`; else the first
/// XML format in the order that reads it or finds it invalid, trying the
/// second only when the first finds no root tag of its own.
pub open spec fn spec_parse_feed(data: Seq<char>, essence: Option<Seq<char>>) -> FeedParseKind {
    if spec_is_json(data) {
        FeedParseKind::Json
    } else {
        let bytes = vstd::utf8::encode_utf8(data);
        let (first, second) = spec_parse_order(essence);
        match spec_read_outcome(first, bytes) {
            XmlOutcome::Parsed => FeedParseKind::Parsed(first),
            XmlOutcome::Invalid => FeedParseKind::Invalid(first),
            XmlOutcome::NotThisFormat => match spec_read_outcome(second, bytes) {
                XmlOutcome::Parsed => FeedParseKind::Parsed(second),
                XmlOutcome::Invalid => FeedParseKind::Invalid(second),
                XmlOutcome::NotThisFormat => FeedParseKind::UnknownFormat,
            },
        }
    }
}

/// The result of parsing a text as a feed.
#[derive(Debug)]
pub enum FeedParse {
    /// The text is JSON; the caller decodes it as a JSON Feed.
    Json,
    /// The text was read as an XML feed, or could not be.
    Xml(Result<ParsedFeed, ProcessError>),
}

/// The kind that a parse result has.
pub open spec fn parse_kind(r: FeedParse) -> FeedParseKind {
    match r {
        FeedParse::Json => FeedParseKind::Json,
        FeedParse::Xml(Ok(ParsedFeed::Atom(_))) => FeedParseKind::Parsed(FeedType::Atom),
        FeedParse::Xml(Ok(ParsedFeed::Rss(_))) => FeedParseKind::Parsed(FeedType::Rss),
        FeedParse::Xml(Ok(ParsedFeed::Json(_))) => FeedParseKind::Json,
        FeedParse::Xml(Err(ProcessError::Atom(_))) => FeedParseKind::Invalid(FeedType::Atom),
        FeedParse::Xml(Err(ProcessError::Rss(_))) => FeedParseKind::Invalid(FeedType::Rss),
        FeedParse::Xml(Err(_)) => FeedParseKind::UnknownFormat,
    }
}

/// Reads `data` as one XML format.
fn read_as(kind: FeedType, data: &str) -> (r: Result<ParsedFeed, XmlReadError>)
    ensures
        match r {
            Ok(ParsedFeed::Atom(f)) => kind == FeedType::Atom
                && atom_parse(data.spec_bytes()) == Ok::<AtomFeedView, Option<Seq<char>>>(atom_feed_view(f)),
            Ok(ParsedFeed::Rss(c)) => kind == FeedType::Rss
                && rss_parse(data.spec_bytes()) == Ok::<RssChannelView, Option<Seq<char>>>(rss_channel_view(c)),
            Ok(ParsedFeed::Json(_)) => false,
            Err(XmlReadError::InvalidStartTag) => spec_read_outcome(kind, data.spec_bytes()) == XmlOutcome::NotThisFormat,
            Err(XmlReadError::Other(m)) => spec_read_message(kind, data.spec_bytes()) == Some(m@),
        },
{
    match kind {
        FeedType::Atom => match atom_read(data.as_bytes()) {
            Ok((title, subtitle, entries)) => Ok(ParsedFeed::Atom(atom_model(title, subtitle, &entries))),
            Err(e) => Err(e),
        },
        FeedType::Rss => match rss_read(data.as_bytes()) {
            Ok(c) => Ok(ParsedFeed::Rss(rss_model(&c))),
            Err(e) => Err(e),
        },
    }
}

/// The error of a format that finds a text invalid.
fn invalid_as(kind: FeedType, message: String) -> (r: ProcessError)
    ensures
        kind == FeedType::Atom ==> (r matches ProcessError::Atom(m) && m@ == message@),
        kind == FeedType::Rss ==> (r matches ProcessError::Rss(m) && m@ == message@),
{
    match kind {
        FeedType::Atom => ProcessError::Atom(message),
        FeedType::Rss => ProcessError::Rss(message),
    }
}

/// What a parse result holds besides its kind: the feed that the parser read
/// from `bytes`, or the parser's message; no other result.
pub open spec fn parse_content_matches(r: FeedParse, bytes: Seq<u8>) -> bool {
    match r {
        FeedParse::Json => true,
        FeedParse::Xml(Ok(ParsedFeed::Atom(f))) => atom_parse(bytes) == Ok::<AtomFeedView, Option<Seq<char>>>(
            atom_feed_view(f),
        ),
        FeedParse::Xml(Ok(ParsedFeed::Rss(c))) => rss_parse(bytes) == Ok::<RssChannelView, Option<Seq<char>>>(
            rss_channel_view(c),
        ),
        FeedParse::Xml(Ok(ParsedFeed::Json(_))) => false,
        FeedParse::Xml(Err(ProcessError::Atom(m))) => atom_parse(bytes) == Err::<AtomFeedView, Option<Seq<char>>>(
            Some(m@),
        ),
        FeedParse::Xml(Err(ProcessError::Rss(m))) => rss_parse(bytes) == Err::<RssChannelView, Option<Seq<char>>>(
            Some(m@),
        ),
        FeedParse::Xml(Err(ProcessError::UnknownFormat)) => true,
        FeedParse::Xml(Err(_)) => false,
    }
}

/// Parses the text of a feed, given the essence of its media type: the kind
/// of result that `spec_parse_feed` says, holding the feed that the parser
/// read or the parser's message.
pub fn parse_feed(data: &str, essence: Option<&str>) -> (r: FeedParse)
    ensures
        parse_kind(r) == spec_parse_feed(
            data@,
            match essence {
                Some(e) => Some(e@),
                None => None,
            },
        ),
        parse_content_matches(r, vstd::utf8::encode_utf8(data@)),
{
    if is_json(data) {
        return FeedParse::Json;
    }
    let atom_first = match essence {
        Some(e) => str_eq(e, "application/atom+xml"),
        None => false,
    };
    let (first, second) = if atom_first {
        (FeedType::Atom, FeedType::Rss)
    } else {
        (FeedType::Rss, FeedType::Atom)
    };
    match read_as(first, data) {
        Ok(feed) => FeedParse::Xml(Ok(feed)),
        Err(XmlReadError::Other(m)) => FeedParse::Xml(Err(invalid_as(first, m))),
        Err(XmlReadError::InvalidStartTag) => match read_as(second, data) {
            Ok(feed) => FeedParse::Xml(Ok(feed)),
            Err(XmlReadError::Other(m)) => FeedParse::Xml(Err(invalid_as(second, m))),
            Err(XmlReadError::InvalidStartTag) => FeedParse::Xml(Err(ProcessError::UnknownFormat)),
        },
    }
}

} // verus!
