//! Finding the mentions (`@user` or `@user@domain`) and links in the text of
//! a post, where they count differently towards its length.
use vstd::prelude::*;
use vstd::string::*;

use crate::text::{byte_slice, contains_char, lemma_str_decodes, push_char, str_get};

verus! {

/// Domains longer than this many characters make a mention invalid.
pub const MAX_DOMAIN_LENGTH: usize = 253;

/// The pattern of a mention: `@`, a user name and an optional `@domain`, not
/// preceded by `=`, `/` or a word character. Group 1 is the user name, group
/// 2 the domain.
pub const MENTION_PATTERN: &'static str = "(?<![=/[\\p{Letter}\\p{Mark}\\p{Number}\\p{Connector_Punctuation}]])@((?i)[a-z0-9_]+(?:[a-z0-9_.-]+[a-z0-9_]+)?)(?:@([\\p{Letter}\\p{Mark}\\p{Number}\\p{Connector_Punctuation}.-]+[\\p{Letter}\\p{Mark}\\p{Number}\\p{Connector_Punctuation}]+))?";

/// The pattern of a link: `http://` or `https://` and the characters up to
/// the next white space, less trailing punctuation.
pub const URL_PATTERN: &'static str = "(?i)\\bhttps?://[^\\s]*[^\\s.,:;!?'\")\\]]";

/// A failure of the regular expression engine: a pattern that does not
/// compile, or a match that exceeded the engine's backtracking limit.
#[derive(Debug, Clone, Copy, PartialEq, Eq, Structural)]
pub enum RegexError {
    Failed,
}

/// The byte spans of the capture groups of each match of the regular
/// expression `pattern` in `text`, left to right, as `fancy_regex`'s
/// `captures_iter` yields them, up to the first failure of the engine; and
/// whether the engine failed (also when the pattern does not compile). Once
/// it fails, the search yields that failure again and again and goes no
/// further.
pub uninterp spec fn regex_capture_spans(pattern: Seq<char>, text: Seq<char>) -> (
    Seq<Seq<Option<(usize, usize)>>>,
    bool,
);

/// A span that lies within `bytes` and begins and ends on character boundaries.
pub open spec fn valid_span(bytes: Seq<u8>, span: Option<(usize, usize)>) -> bool {
    span matches Some((a, b)) ==> byte_slice(bytes, a as int, b as int) is Some
}

/// The spans of a list of capture lists.
pub open spec fn spans_view(caps: Seq<Vec<Option<(usize, usize)>>>) -> Seq<Seq<Option<(usize, usize)>>> {
    caps.map_values(|g: Vec<Option<(usize, usize)>>| g@)
}

/// `fancy_regex::Regex::new(pattern)` followed by `captures_iter(text)`, each
/// capture group reduced to its `(start, end)` byte offsets, taken up to the
/// first error of the engine. The result is the one named
/// `regex_capture_spans`; the spans are byte offsets into `text` that fall on
/// character boundaries, as `fancy_regex` slices `text` by them.
#[verifier::external_body]
pub(crate) fn regex_captures(pattern: &str, text: &str) -> (r: (Vec<Vec<Option<(usize, usize)>>>, bool))
    ensures
        regex_capture_spans(pattern@, text@) == (spans_view(r.0@), r.1),
        forall|i: int, j: int|
            0 <= i < r.0@.len() && 0 <= j < r.0@[i]@.len() ==> valid_span(text.spec_bytes(), #[trigger] r.0@[i]@[j]),
{
    let re = match fancy_regex::Regex::new(pattern) {
        Ok(re) => re,
        Err(_) => return (Vec::new(), true),
    };
    let mut failed = false;
    let caps = re.captures_iter(text).map_while(|c| match c {
        Ok(c) => Some(c.iter().map(|m| m.map(|m| (m.start(), m.end()))).collect()),
        Err(_) => {
            failed = true;
            None
        },
    }).collect();
    (caps, failed)
}

/// A mention found in a text.
#[derive(Debug)]
pub struct Mention {
    start: usize,
    end: usize,
    text: String,
    username: String,
    domain: Option<String>,
}

/// What a mention is: its byte span, its text, its user name and its domain.
pub struct MentionView {
    pub start: usize,
    pub end: usize,
    pub text: Seq<char>,
    pub username: Seq<char>,
    pub domain: Option<Seq<char>>,
}

impl View for Mention {
    type V = MentionView;

    closed spec fn view(&self) -> MentionView {
        MentionView {
            start: self.start,
            end: self.end,
            text: self.text@,
            username: self.username@,
            domain: match self.domain {
                Some(d) => Some(d@),
                None => None,
            },
        }
    }
}

impl Mention {
    /// The byte offset where the mention begins.
    pub fn start(&self) -> (r: usize)
        ensures
            r == self@.start,
    {
        self.start
    }

    /// The byte offset just after the mention.
    pub fn end(&self) -> (r: usize)
        ensures
            r == self@.end,
    {
        self.end
    }

    /// The text of the whole mention.
    pub fn as_str(&self) -> (r: &str)
        ensures
            r@ == self@.text,
    {
        self.text.as_str()
    }

    /// The user name, without `@`.
    pub fn username(&self) -> (r: &str)
        ensures
            r@ == self@.username,
    {
        self.username.as_str()
    }

    /// The domain, if the mention names one.
    pub fn domain(&self) -> (r: Option<&str>)
        ensures
            match r {
                Some(d) => self@.domain == Some(d@),
                None => self@.domain is None,
            },
    {
        match &self.domain {
            Some(d) => Some(d.as_str()),
            None => None,
        }
    }
}

/// The mention that the capture groups of one match describe, if group 0 (the
/// match) and group 1 (the user name) are set.
pub open spec fn mention_of_groups(bytes: Seq<u8>, groups: Seq<Option<(usize, usize)>>) -> Option<MentionView> {
    if groups.len() < 2 {
        None
    } else {
        match (groups[0], groups[1]) {
            (Some((s, e)), Some((us, ue))) => match (
                byte_slice(bytes, s as int, e as int),
                byte_slice(bytes, us as int, ue as int),
            ) {
                (Some(whole), Some(user)) => Some(
                    MentionView {
                        start: s,
                        end: e,
                        text: whole,
                        username: user,
                        domain: if groups.len() >= 3 {
                            match groups[2] {
                                Some((ds, de)) => byte_slice(bytes, ds as int, de as int),
                                None => None,
                            }
                        } else {
                            None
                        },
                    },
                ),
                _ => None,
            },
            _ => None,
        }
    }
}

/// Whether a domain is longer than `MAX_DOMAIN_LENGTH` characters.
pub open spec fn spec_domain_too_long(domain: Option<Seq<char>>) -> bool {
    domain matches Some(d) && d.len() > MAX_DOMAIN_LENGTH
}

/// The characters of the accented Latin letters that may not follow a mention,
/// as ranges of the form `start-end` (or `start` alone).
pub open spec fn latin_accent_ranges() -> Seq<(char, char)> {
    seq![
        ('\u{00c0}', '\u{00d6}'),
        ('\u{00d8}', '\u{00f6}'),
        ('\u{00f8}', '\u{00ff}'),
        ('\u{0100}', '\u{024f}'),
        ('\u{0253}', '\u{0254}'),
        ('\u{0256}', '\u{0257}'),
        ('\u{0259}', '\u{0259}'),
        ('\u{025b}', '\u{025b}'),
        ('\u{0263}', '\u{0263}'),
        ('\u{0268}', '\u{0268}'),
        ('\u{026f}', '\u{026f}'),
        ('\u{0272}', '\u{0272}'),
        ('\u{0289}', '\u{0289}'),
        ('\u{028b}', '\u{028b}'),
        ('\u{02bb}', '\u{02bb}'),
        ('\u{0300}', '\u{036f}'),
        ('\u{1e00}', '\u{1eff}'),
    ]
}

/// The body of a character class for a list of ranges.
pub open spec fn class_of_ranges(ranges: Seq<(char, char)>) -> Seq<char>
    decreases ranges.len(),
{
    if ranges.len() == 0 {
        seq![]
    } else {
        let (start, end) = ranges.last();
        class_of_ranges(ranges.drop_last()) + if start != end {
            seq![start, '-', end]
        } else {
            seq![start]
        }
    }
}

/// The pattern of what may not directly follow a mention: an at sign, an
/// accented Latin letter, or `://`.
pub open spec fn end_mention_pattern() -> Seq<char> {
    "(?i)\\A(?:[@\u{ff20}]|["@ + class_of_ranges(latin_accent_ranges()) + "]+|://)"@
}

/// Builds the character class of the accented Latin letters.
fn latin_accent_class() -> (r: String)
    ensures
        r@ == class_of_ranges(latin_accent_ranges()),
{
    let ranges: Vec<(char, char)> = vec![
        ('\u{00c0}', '\u{00d6}'),
        ('\u{00d8}', '\u{00f6}'),
        ('\u{00f8}', '\u{00ff}'),
        ('\u{0100}', '\u{024f}'),
        ('\u{0253}', '\u{0254}'),
        ('\u{0256}', '\u{0257}'),
        ('\u{0259}', '\u{0259}'),
        ('\u{025b}', '\u{025b}'),
        ('\u{0263}', '\u{0263}'),
        ('\u{0268}', '\u{0268}'),
        ('\u{026f}', '\u{026f}'),
        ('\u{0272}', '\u{0272}'),
        ('\u{0289}', '\u{0289}'),
        ('\u{028b}', '\u{028b}'),
        ('\u{02bb}', '\u{02bb}'),
        ('\u{0300}', '\u{036f}'),
        ('\u{1e00}', '\u{1eff}'),
    ];
    assert(ranges@ =~= latin_accent_ranges());
    let mut out = String::new();
    let n = ranges.len();
    let mut i: usize = 0;
    while i < n
        invariant
            n == ranges@.len(),
            i <= n,
            out@ == class_of_ranges(ranges@.take(i as int)),
        decreases n - i,
    {
        assert(ranges@.take(i + 1).drop_last() =~= ranges@.take(i as int));
        let (start, end) = ranges[i];
        push_char(&mut out, start);
        if start != end {
            push_char(&mut out, '-');
            push_char(&mut out, end);
        }
        i = i + 1;
    }
    assert(ranges@.take(n as int) =~= ranges@);
    out
}

/// Builds `end_mention_pattern`.
fn end_mention_pattern_string() -> (r: String)
    ensures
        r@ == end_mention_pattern(),
{
    let mut p = String::from_str("(?i)\\A(?:[@\u{ff20}]|[");
    let class = latin_accent_class();
    p.append(class.as_str());
    p.append("]+|://)");
    p
}

/// The mentions that a list of matches gives, in order: each match that is
/// not followed by what `end_mention_pattern` matches and whose domain is not
/// too long, and a failure in place of a match where the engine fails to
/// look at what follows it.
pub open spec fn mentions_of_captures(bytes: Seq<u8>, caps: Seq<Seq<Option<(usize, usize)>>>) -> Seq<
    Result<MentionView, RegexError>,
>
    decreases caps.len(),
{
    if caps.len() == 0 {
        seq![]
    } else {
        let rest = mentions_of_captures(bytes, caps.drop_first());
        match mention_of_groups(bytes, caps[0]) {
            None => rest,
            Some(m) => {
                let (follow, failed) = regex_capture_spans(
                    end_mention_pattern(),
                    byte_slice(bytes, m.end as int, bytes.len() as int)->0,
                );
                if follow.len() > 0 {
                    rest
                } else if failed {
                    seq![Err(RegexError::Failed)] + rest
                } else if spec_domain_too_long(m.domain) {
                    rest
                } else {
                    seq![Ok(m)] + rest
                }
            },
        }
    }
}

/// The mentions in `text`: `None` if it holds no `@`; else, in order, the
/// matches of `MENTION_PATTERN` that are not followed by what
/// `end_mention_pattern` matches and whose domain is not too long, each
/// failure of the engine in place, and a last failure where the search itself
/// fails.
pub open spec fn spec_detect_mentions(text: Seq<char>) -> Option<Seq<Result<MentionView, RegexError>>> {
    if !text.contains('@') {
        None
    } else {
        let (caps, failed) = regex_capture_spans(MENTION_PATTERN@, text);
        let found = mentions_of_captures(vstd::utf8::encode_utf8(text), caps);
        Some(
            if failed {
                found.push(Err(RegexError::Failed))
            } else {
                found
            },
        )
    }
}

/// The view of a mention or failure.
pub open spec fn result_view(r: Result<Mention, RegexError>) -> Result<MentionView, RegexError> {
    match r {
        Ok(m) => Ok(m@),
        Err(e) => Err(e),
    }
}

/// The views of a list of mentions or failures.
pub open spec fn result_views(rs: Seq<Result<Mention, RegexError>>) -> Seq<Result<MentionView, RegexError>> {
    rs.map_values(|r: Result<Mention, RegexError>| result_view(r))
}

/// The views of a list of mentions.
pub open spec fn mention_views(ms: Seq<Mention>) -> Seq<MentionView> {
    ms.map_values(|m: Mention| m@)
}

/// Reads the mention that one match describes.
fn mention_from_groups(text: &str, groups: &Vec<Option<(usize, usize)>>) -> (r: Option<Mention>)
    ensures
        match r {
            Some(m) => mention_of_groups(text.spec_bytes(), groups@) == Some(m@),
            None => mention_of_groups(text.spec_bytes(), groups@) is None,
        },
{
    if groups.len() < 2 {
        return None;
    }
    let (s, e) = match groups[0] {
        Some(span) => span,
        None => return None,
    };
    let (us, ue) = match groups[1] {
        Some(span) => span,
        None => return None,
    };
    let whole = match str_get(text, s, e) {
        Some(t) => t,
        None => return None,
    };
    let user = match str_get(text, us, ue) {
        Some(t) => t,
        None => return None,
    };
    let domain = if groups.len() >= 3 {
        match groups[2] {
            Some((ds, de)) => match str_get(text, ds, de) {
                Some(d) => Some(String::from_str(d)),
                None => None,
            },
            None => None,
        }
    } else {
        None
    };
    Some(Mention {
        start: s,
        end: e,
        text: String::from_str(whole),
        username: String::from_str(user),
        domain,
    })
}

/// Whether a mention's domain is longer than `MAX_DOMAIN_LENGTH` characters.
pub fn domain_too_long(domain: Option<&str>) -> (r: bool)
    ensures
        r == spec_domain_too_long(
            match domain {
                Some(d) => Some(d@),
                None => None,
            },
        ),
{
    match domain {
        Some(d) => d.unicode_len() > MAX_DOMAIN_LENGTH,
        None => false,
    }
}

/// Finds the mentions in `text`, as `spec_detect_mentions` says.
pub fn detect_mentions(text: &str) -> (r: Option<Vec<Result<Mention, RegexError>>>)
    ensures
        match r {
            None => spec_detect_mentions(text@) is None,
            Some(v) => spec_detect_mentions(text@) == Some(result_views(v@)),
        },
{
    if !contains_char(text, '@') {
        return None;
    }
    let (caps, failed) = regex_captures(MENTION_PATTERN, text);
    let ghost bytes = text.spec_bytes();
    let ghost all = spans_view(caps@);
    let end_pattern = end_mention_pattern_string();
    let mut found: Vec<Result<Mention, RegexError>> = Vec::new();
    let n = caps.len();
    let mut i: usize = 0;
    proof {
        lemma_str_decodes(text);
        assert(all.skip(0) =~= all);
        assert(result_views(found@) + mentions_of_captures(bytes, all) =~= mentions_of_captures(bytes, all));
    }
    while i < n
        invariant
            n == caps@.len(),
            i <= n,
            bytes == text.spec_bytes(),
            vstd::utf8::valid_utf8(bytes),
            all == spans_view(caps@),
            end_pattern@ == end_mention_pattern(),
            forall|a: int, b: int|
                0 <= a < caps@.len() && 0 <= b < caps@[a]@.len() ==> valid_span(bytes, #[trigger] caps@[a]@[b]),
            result_views(found@) + mentions_of_captures(bytes, all.skip(i as int)) == mentions_of_captures(bytes, all),
        decreases n - i,
    {
        let ghost rest = all.skip(i as int);
        assert(rest.drop_first() =~= all.skip(i + 1));
        assert(rest[0] == caps@[i as int]@);
        let ghost before = found@;
        match mention_from_groups(text, &caps[i]) {
            None => {},
            Some(m) => {
                proof {
                    assert(valid_span(bytes, caps@[i as int]@[0]));
                    vstd::utf8::is_char_boundary_start_end_of_seq(bytes);
                }
                let after = match str_get(text, m.end, text.as_bytes().len()) {
                    Some(a) => a,
                    None => {
                        assert(false);
                        return None;
                    },
                };
                assert(after@ == byte_slice(bytes, m@.end as int, bytes.len() as int)->0);
                let (follow, follow_failed) = regex_captures(end_pattern.as_str(), after);
                if follow.len() > 0 {
                } else if follow_failed {
                    found.push(Err(RegexError::Failed));
                    assert(result_views(found@) =~= result_views(before).push(Err(RegexError::Failed)));
                } else if !domain_too_long(m.domain()) {
                    let ghost mv = m@;
                    found.push(Ok(m));
                    assert(result_views(found@) =~= result_views(before).push(Ok(mv)));
                }
            },
        }
        proof {
            let r2 = mentions_of_captures(bytes, all.skip(i + 1));
            assert(result_views(before) + mentions_of_captures(bytes, rest) == mentions_of_captures(bytes, all));
            if result_views(found@) == result_views(before) {
                assert(result_views(found@) + r2 =~= result_views(before) + mentions_of_captures(bytes, rest));
            } else {
                let x = result_views(found@).last();
                assert(result_views(found@) =~= result_views(before).push(x));
                assert(mentions_of_captures(bytes, rest) == seq![x] + r2);
                assert(result_views(found@) + r2 =~= result_views(before) + (seq![x] + r2));
            }
        }
        i = i + 1;
    }
    assert(all.skip(n as int) =~= Seq::<Seq<Option<(usize, usize)>>>::empty());
    assert(result_views(found@) + Seq::<Result<MentionView, RegexError>>::empty() =~= result_views(found@));
    if failed {
        let ghost before = found@;
        found.push(Err(RegexError::Failed));
        assert(result_views(found@) =~= result_views(before).push(Err(RegexError::Failed)));
    }
    Some(found)
}

/// A part of a text that counts towards its length in a fixed way.
#[derive(Debug)]
pub enum Entity {
    /// A link, by its byte span.
    Url { start: usize, end: usize },
    /// A mention.
    Mention(Mention),
}

/// What an entity is.
pub enum EntityView {
    Url { start: usize, end: usize },
    Mention(MentionView),
}

impl EntityView {
    /// The byte offset where the entity begins.
    pub open spec fn start(self) -> usize {
        match self {
            EntityView::Url { start, .. } => start,
            EntityView::Mention(m) => m.start,
        }
    }

    /// The byte offset just after the entity.
    pub open spec fn end(self) -> usize {
        match self {
            EntityView::Url { end, .. } => end,
            EntityView::Mention(m) => m.end,
        }
    }
}

impl View for Entity {
    type V = EntityView;

    open spec fn view(&self) -> EntityView {
        match self {
            Entity::Url { start, end } => EntityView::Url { start: *start, end: *end },
            Entity::Mention(m) => EntityView::Mention(m@),
        }
    }
}

impl Entity {
    /// The byte offset where the entity begins.
    pub fn start(&self) -> (r: usize)
        ensures
            r == self@.start(),
    {
        match self {
            Entity::Url { start, .. } => *start,
            Entity::Mention(m) => m.start(),
        }
    }

    /// The byte offset just after the entity.
    pub fn end(&self) -> (r: usize)
        ensures
            r == self@.end(),
    {
        match self {
            Entity::Url { end, .. } => *end,
            Entity::Mention(m) => m.end(),
        }
    }
}

/// The links that the matches of `URL_PATTERN` give, by their group 0.
pub open spec fn url_entities(caps: Seq<Seq<Option<(usize, usize)>>>) -> Seq<EntityView>
    decreases caps.len(),
{
    if caps.len() == 0 {
        seq![]
    } else {
        let rest = url_entities(caps.drop_first());
        if caps[0].len() > 0 {
            match caps[0][0] {
                Some((s, e)) => seq![EntityView::Url { start: s, end: e }] + rest,
                None => rest,
            }
        } else {
            rest
        }
    }
}

/// Two lists merged by the start of their entities, those of `a` first on a tie.
pub open spec fn merge_by_start(a: Seq<EntityView>, b: Seq<EntityView>) -> Seq<EntityView>
    decreases a.len() + b.len(),
{
    if a.len() == 0 {
        b
    } else if b.len() == 0 {
        a
    } else if a[0].start() <= b[0].start() {
        seq![a[0]] + merge_by_start(a.drop_first(), b)
    } else {
        seq![b[0]] + merge_by_start(a, b.drop_first())
    }
}

/// Whether a list of mentions holds no failure.
pub open spec fn all_found(ms: Seq<Result<MentionView, RegexError>>) -> bool {
    forall|i: int| 0 <= i < ms.len() ==> #[trigger] ms[i] is Ok
}

/// The mentions of a list that holds no failure, as entities.
pub open spec fn found_entities(ms: Seq<Result<MentionView, RegexError>>) -> Seq<EntityView> {
    ms.map_values(|r: Result<MentionView, RegexError>| EntityView::Mention(r->Ok_0))
}

/// The entities of a text: its links and its mentions, by their start; `None`
/// if the regular expression engine fails anywhere.
pub open spec fn spec_detect_entities(text: Seq<char>) -> Option<Seq<EntityView>> {
    let (caps, failed) = regex_capture_spans(URL_PATTERN@, text);
    if failed {
        None
    } else {
        match spec_detect_mentions(text) {
            None => Some(url_entities(caps)),
            Some(ms) => if all_found(ms) {
                Some(merge_by_start(url_entities(caps), found_entities(ms)))
            } else {
                None
            },
        }
    }
}

/// The views of a list of entities.
pub open spec fn entity_views(es: Seq<Entity>) -> Seq<EntityView> {
    es.map_values(|e: Entity| e@)
}

/// Reads the links out of the matches of `URL_PATTERN`.
fn urls_from_captures(caps: &Vec<Vec<Option<(usize, usize)>>>) -> (r: Vec<Entity>)
    ensures
        entity_views(r@) == url_entities(spans_view(caps@)),
{
    let ghost all = spans_view(caps@);
    let mut out: Vec<Entity> = Vec::new();
    let n = caps.len();
    let mut k = n;
    while k > 0
        invariant
            n == caps@.len(),
            k <= n,
            all == spans_view(caps@),
            entity_views(out@) == url_entities(all.skip(k as int)),
        decreases k,
    {
        k = k - 1;
        let ghost rest = all.skip(k as int);
        assert(rest.drop_first() =~= all.skip(k + 1));
        assert(rest[0] == caps@[k as int]@);
        if caps[k].len() > 0 {
            if let Some((s, e)) = caps[k][0] {
                let ghost before = out@;
                out.insert(0, Entity::Url { start: s, end: e });
                assert(entity_views(out@) =~= seq![EntityView::Url { start: s, end: e }] + entity_views(before));
            }
        }
    }
    assert(all.skip(0) =~= all);
    out
}

/// Merges two lists of entities by start.
fn merge_entities(a: Vec<Entity>, b: Vec<Entity>) -> (r: Vec<Entity>)
    ensures
        entity_views(r@) == merge_by_start(entity_views(a@), entity_views(b@)),
{
    let ghost goal = merge_by_start(entity_views(a@), entity_views(b@));
    let mut a = a;
    let mut b = b;
    let mut out: Vec<Entity> = Vec::new();
    assert(entity_views(out@) + goal =~= goal);
    while a.len() > 0 && b.len() > 0
        invariant
            entity_views(out@) + merge_by_start(entity_views(a@), entity_views(b@)) == goal,
        decreases a@.len() + b@.len(),
    {
        let ghost before = out@;
        let ghost av = entity_views(a@);
        let ghost bv = entity_views(b@);
        if a[0].start() <= b[0].start() {
            let e = a.remove(0);
            out.push(e);
            assert(entity_views(a@) =~= av.drop_first());
            assert(entity_views(out@) =~= entity_views(before).push(av[0]));
            assert(entity_views(out@) + merge_by_start(entity_views(a@), bv) =~= entity_views(before) + (seq![av[0]] + merge_by_start(av.drop_first(), bv)));
        } else {
            let e = b.remove(0);
            out.push(e);
            assert(entity_views(b@) =~= bv.drop_first());
            assert(entity_views(out@) =~= entity_views(before).push(bv[0]));
            assert(entity_views(out@) + merge_by_start(av, entity_views(b@)) =~= entity_views(before) + (seq![bv[0]] + merge_by_start(av, bv.drop_first())));
        }
    }
    let ghost before = out@;
    let ghost av = entity_views(a@);
    let ghost bv = entity_views(b@);
    let mut rest = if a.len() > 0 { a } else { b };
    assert(entity_views(rest@) == merge_by_start(av, bv));
    out.append(&mut rest);
    assert(entity_views(out@) =~= entity_views(before) + merge_by_start(av, bv));
    out
}

/// Finds the links and mentions of `text`, ordered by where they begin.
pub fn detect_entities(text: &str) -> (r: Result<Vec<Entity>, RegexError>)
    ensures
        match r {
            Ok(es) => spec_detect_entities(text@) == Some(entity_views(es@)),
            Err(_) => spec_detect_entities(text@) is None,
        },
{
    let (caps, failed) = regex_captures(URL_PATTERN, text);
    if failed {
        return Err(RegexError::Failed);
    }
    let urls = urls_from_captures(&caps);
    match detect_mentions(text) {
        None => Ok(urls),
        Some(ms) => {
            let ghost mv = result_views(ms@);
            let mut mentions: Vec<Entity> = Vec::new();
            let mut ms = ms;
            while ms.len() > 0
                invariant
                    spec_detect_mentions(text@) == Some(mv),
                    regex_capture_spans(URL_PATTERN@, text@) == (spans_view(caps@), false),
                    entity_views(urls@) == url_entities(spans_view(caps@)),
                    mv.len() == mentions@.len() + ms@.len(),
                    forall|k: int| 0 <= k < mentions@.len() ==> #[trigger] mv[k] is Ok,
                    entity_views(mentions@) =~= found_entities(mv.take(mentions@.len() as int)),
                    result_views(ms@) =~= mv.skip(mentions@.len() as int),
                decreases ms@.len(),
            {
                let ghost k = mentions@.len();
                let ghost before = mentions@;
                let ghost msv = result_views(ms@);
                let item = ms.remove(0);
                assert(result_view(item) == msv[0]);
                assert(msv[0] == mv[k as int]);
                assert(result_views(ms@) =~= msv.drop_first());
                match item {
                    Err(e) => {
                        assert(!all_found(mv));
                        return Err(e);
                    },
                    Ok(m) => {
                        mentions.push(Entity::Mention(m));
                        assert(entity_views(mentions@) =~= entity_views(before).push(EntityView::Mention(mv[k as int]->Ok_0)));
                        assert(found_entities(mv.take(k + 1 as int)) =~= found_entities(mv.take(k as int)).push(
                            EntityView::Mention(mv[k as int]->Ok_0),
                        ));
                    },
                }
            }
            assert(mv.take(mv.len() as int) =~= mv);
            Ok(merge_entities(urls, mentions))
        },
    }
}

} // verus!
