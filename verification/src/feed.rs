//! Feeds (RSS, Atom and JSON Feed) and the items read from them.
use vstd::prelude::*;
use vstd::string::*;

use crate::json_feed::{self, JsonFeed};
use crate::text::{
    is_unicode_whitespace, join_strings, push_char, push_int, seq_join, spec_int_text, str_debug, str_debug_text, str_eq,
    string_views, unicode_whitespace,
};
use crate::time::{parse_rfc2822, rfc2822_instant, utc_debug, utc_debug_text, Instant};

verus! {

/// An item of a feed, in the form shared by all feed formats. Dates are
/// instants (Unix timestamp and nanoseconds, UTC).
#[derive(Debug)]
pub struct NewFeedItem {
    pub guid: String,
    pub url: Option<String>,
    pub title: Option<String>,
    pub author: Option<String>,
    pub summary: Option<String>,
    pub content: Option<String>,
    pub tags: Vec<String>,
    pub date_published: Option<Instant>,
    pub date_modified: Option<Instant>,
}

/// How `Debug` writes an optional string.
pub open spec fn debug_opt_str(o: Option<Seq<char>>) -> Seq<char> {
    match o {
        Some(t) => "Some("@ + str_debug_text(t) + ")"@,
        None => "None"@,
    }
}

/// How a date is written in debug form: as the `DateTime<Utc>` it stands
/// for; an instant that chrono cannot hold (no date read from a feed is one)
/// is written as its two numbers.
pub open spec fn debug_instant(d: Instant) -> Seq<char> {
    match utc_debug_text(d) {
        Some(t) => t,
        None => "Instant { secs: "@ + spec_int_text(d.secs as int) + ", nanos: "@ + spec_int_text(d.nanos as int) + " }"@,
    }
}

/// How `Debug` writes an optional date.
pub open spec fn debug_opt_date(o: Option<Instant>) -> Seq<char> {
    match o {
        Some(d) => "Some("@ + debug_instant(d) + ")"@,
        None => "None"@,
    }
}

/// How `Debug` writes a list of strings.
pub open spec fn debug_strings(list: Seq<Seq<char>>) -> Seq<char> {
    "["@ + seq_join(list.map_values(|t: Seq<char>| str_debug_text(t)), ", "@) + "]"@
}

/// How the derived `Debug` writes an item: its name and each field in order.
pub open spec fn spec_item_debug(item: NewFeedItemView) -> Seq<char> {
    "NewFeedItem { guid: "@ + str_debug_text(item.guid)
        + ", url: "@ + debug_opt_str(item.url)
        + ", title: "@ + debug_opt_str(item.title)
        + ", author: "@ + debug_opt_str(item.author)
        + ", summary: "@ + debug_opt_str(item.summary)
        + ", content: "@ + debug_opt_str(item.content)
        + ", tags: "@ + debug_strings(item.tags)
        + ", date_published: "@ + debug_opt_date(item.date_published)
        + ", date_modified: "@ + debug_opt_date(item.date_modified)
        + " }"@
}

/// Appends an optional string in debug form.
fn push_debug_opt_str(out: &mut String, o: &Option<String>)
    ensures
        final(out)@ == old(out)@ + debug_opt_str(opt_view(*o)),
{
    match o {
        Some(t) => {
            out.append("Some(");
            out.append(str_debug(t.as_str()).as_str());
            out.append(")");
        },
        None => out.append("None"),
    }
}

/// Appends an optional date in debug form.
fn push_debug_opt_date(out: &mut String, o: Option<Instant>)
    ensures
        final(out)@ == old(out)@ + debug_opt_date(o),
{
    match o {
        Some(d) => {
            out.append("Some(");
            match utc_debug(d) {
                Some(t) => out.append(t.as_str()),
                None => {
                    out.append("Instant { secs: ");
                    push_int(d.secs, out);
                    out.append(", nanos: ");
                    push_int(d.nanos as i64, out);
                    out.append(" }");
                },
            }
            out.append(")");
        },
        None => out.append("None"),
    }
}

/// Appends a list of strings in debug form.
fn push_debug_strings(out: &mut String, list: &Vec<String>)
    ensures
        final(out)@ == old(out)@ + debug_strings(string_views(list@)),
{
    let mut quoted: Vec<String> = Vec::new();
    let n = list.len();
    let mut i: usize = 0;
    while i < n
        invariant
            n == list@.len(),
            i <= n,
            string_views(quoted@) =~= string_views(list@).map_values(|t: Seq<char>| str_debug_text(t)).take(i as int),
        decreases n - i,
    {
        let ghost before = quoted@;
        quoted.push(str_debug(list[i].as_str()));
        assert(string_views(quoted@) =~= string_views(before).push(str_debug_text(list@[i as int]@)));
        i = i + 1;
    }
    assert(string_views(list@).map_values(|t: Seq<char>| str_debug_text(t)).take(n as int)
        =~= string_views(list@).map_values(|t: Seq<char>| str_debug_text(t)));
    out.append("[");
    out.append(join_strings(&quoted, ", ").as_str());
    out.append("]");
}

/// An image that goes with a post, by its URL.
#[derive(Debug, Clone)]
pub struct Image {
    pub url: String,
}

/// The view of an optional string.
pub open spec fn opt_view(o: Option<String>) -> Option<Seq<char>> {
    match o {
        Some(s) => Some(s@),
        None => None,
    }
}

/// The identifier of a feed item, by which a post is known to be made.
#[derive(Debug)]
pub struct PostGuid(String);

impl View for PostGuid {
    type V = Seq<char>;

    closed spec fn view(&self) -> Seq<char> {
        self.0@
    }
}

impl PostGuid {
    /// The identifier as a string.
    pub fn as_str(&self) -> (r: &str)
        ensures
            r@ == self@,
    {
        self.0.as_str()
    }
}

impl NewFeedItem {
    /// This item written as its derived `Debug` writes it.
    pub fn debug_text(&self) -> (r: String)
        ensures
            r@ == spec_item_debug(self@),
    {
        let mut out = String::from_str("NewFeedItem { guid: ");
        out.append(str_debug(self.guid.as_str()).as_str());
        out.append(", url: ");
        push_debug_opt_str(&mut out, &self.url);
        out.append(", title: ");
        push_debug_opt_str(&mut out, &self.title);
        out.append(", author: ");
        push_debug_opt_str(&mut out, &self.author);
        out.append(", summary: ");
        push_debug_opt_str(&mut out, &self.summary);
        out.append(", content: ");
        push_debug_opt_str(&mut out, &self.content);
        out.append(", tags: ");
        push_debug_strings(&mut out, &self.tags);
        out.append(", date_published: ");
        push_debug_opt_date(&mut out, self.date_published);
        out.append(", date_modified: ");
        push_debug_opt_date(&mut out, self.date_modified);
        out.append(" }");
        out
    }

    /// The identifier of this item.
    pub fn guid(&self) -> (g: PostGuid)
        ensures
            g@ == self.guid@,
    {
        PostGuid(self.guid.clone())
    }
}

/// What an item of a feed is.
pub struct NewFeedItemView {
    pub guid: Seq<char>,
    pub url: Option<Seq<char>>,
    pub title: Option<Seq<char>>,
    pub author: Option<Seq<char>>,
    pub summary: Option<Seq<char>>,
    pub content: Option<Seq<char>>,
    pub tags: Seq<Seq<char>>,
    pub date_published: Option<Instant>,
    pub date_modified: Option<Instant>,
}

impl View for NewFeedItem {
    type V = NewFeedItemView;

    open spec fn view(&self) -> NewFeedItemView {
        NewFeedItemView {
            guid: self.guid@,
            url: opt_view(self.url),
            title: opt_view(self.title),
            author: opt_view(self.author),
            summary: opt_view(self.summary),
            content: opt_view(self.content),
            tags: string_views(self.tags@),
            date_published: self.date_published,
            date_modified: self.date_modified,
        }
    }
}

/// A link of an Atom entry.
#[derive(Debug, Clone)]
pub struct AtomLink {
    pub href: String,
    /// The link relation; `alternate` where the feed gives none.
    pub rel: String,
    pub mime_type: Option<String>,
}

/// A category of an Atom entry.
#[derive(Debug, Clone)]
pub struct AtomCategory {
    pub term: String,
    pub scheme: Option<String>,
}

/// An entry of an Atom feed; dates are instants.
#[derive(Debug, Clone)]
pub struct AtomEntry {
    pub id: String,
    pub title: String,
    /// The names of the authors.
    pub authors: Vec<String>,
    pub links: Vec<AtomLink>,
    pub summary: Option<String>,
    pub content: Option<String>,
    pub categories: Vec<AtomCategory>,
    pub published: Option<Instant>,
    pub updated: Instant,
}

/// An Atom feed.
#[derive(Debug, Clone)]
pub struct AtomFeed {
    pub title: String,
    pub subtitle: Option<String>,
    pub entries: Vec<AtomEntry>,
}

/// The identifier of an RSS item.
#[derive(Debug, Clone)]
pub struct RssGuid {
    pub value: String,
    pub permalink: bool,
}

/// A category of an RSS item.
#[derive(Debug, Clone)]
pub struct RssCategory {
    pub name: String,
    pub domain: Option<String>,
}

/// An item of an RSS channel; `pub_date` as the feed writes it.
#[derive(Debug, Clone)]
pub struct RssItem {
    pub guid: Option<RssGuid>,
    pub link: Option<String>,
    pub title: Option<String>,
    pub author: Option<String>,
    pub description: Option<String>,
    pub content: Option<String>,
    pub categories: Vec<RssCategory>,
    pub pub_date: Option<String>,
}

/// An RSS channel.
#[derive(Debug, Clone)]
pub struct RssChannel {
    pub title: String,
    pub description: String,
    pub items: Vec<RssItem>,
}

/// A feed in one of the formats read.
#[derive(Debug)]
pub enum ParsedFeed {
    Rss(RssChannel),
    Atom(AtomFeed),
    Json(JsonFeed),
}

/// Why an RSS item gives no feed item.
#[derive(Debug, Clone, Copy, PartialEq, Eq, Structural)]
pub enum TryFromRssItemError {
    /// The item has no identifier.
    NoGuid,
}

/// The essence (`type/subtype`, in lower case) and the `charset` parameter of
/// a media type, as `mime::Mime::from_str`, `essence_str` and `get_param`
/// read them; `None` if it is not a valid media type.
pub uninterp spec fn mime_parts(text: Seq<char>) -> Option<(Seq<char>, Option<Seq<char>>)>;

/// `text.parse::<mime::Mime>()`, then its essence and its `charset`
/// parameter: the result named `mime_parts`.
#[verifier::external_body]
pub(crate) fn parse_mime(text: &str) -> (r: Option<(String, Option<String>)>)
    ensures
        match r {
            Some((e, c)) => mime_parts(text@) == Some((e@, opt_view(c))),
            None => mime_parts(text@) is None,
        },
{
    let m = text.parse::<mime::Mime>().ok()?;
    Some((m.essence_str().to_string(), m.get_param(mime::CHARSET).map(|v| v.as_str().to_string())))
}

/// The link to post for an Atom entry: the first link whose relation is
/// `alternate` and whose media type is absent or is `text/html` in essence;
/// links with a media type that does not parse are passed over.
pub open spec fn spec_choose_atom_link(links: Seq<AtomLink>) -> Option<Seq<char>>
    decreases links.len(),
{
    if links.len() == 0 {
        None
    } else {
        let link = links[0];
        let rest = spec_choose_atom_link(links.drop_first());
        if link.rel@ != "alternate"@ {
            rest
        } else {
            match link.mime_type {
                None => Some(link.href@),
                Some(t) => match mime_parts(t@) {
                    None => rest,
                    Some((essence, _)) => if essence == "text/html"@ {
                        Some(link.href@)
                    } else {
                        rest
                    },
                },
            }
        }
    }
}

/// Whether a link may be posted for an entry: its relation is `alternate`,
/// and it has no media type or one whose essence is `text/html`.
pub open spec fn atom_link_postable(l: AtomLink) -> bool {
    &&& l.rel@ == "alternate"@
    &&& match l.mime_type {
        None => true,
        Some(t) => mime_parts(t@) matches Some((essence, _)) && essence == "text/html"@,
    }
}

/// The link chosen for an Atom entry is the first link that may be posted:
/// its `href`, with no link before it that may be posted; and no link is
/// chosen only when none may be posted.
pub proof fn law_atom_link_first_postable(links: Seq<AtomLink>)
    ensures
        spec_choose_atom_link(links) matches Some(h) ==> exists|i: int|
            0 <= i < links.len() && #[trigger] links[i].href@ == h && atom_link_postable(links[i])
                && forall|j: int| 0 <= j < i ==> !atom_link_postable(#[trigger] links[j]),
        spec_choose_atom_link(links) is None ==> forall|i: int|
            0 <= i < links.len() ==> !atom_link_postable(#[trigger] links[i]),
    decreases links.len(),
{
    if links.len() > 0 {
        let rest = links.drop_first();
        law_atom_link_first_postable(rest);
        if !atom_link_postable(links[0]) {
            match spec_choose_atom_link(links) {
                Some(h) => {
                    assert(spec_choose_atom_link(rest) == Some(h));
                    let i = choose|i: int|
                        0 <= i < rest.len() && #[trigger] rest[i].href@ == h && atom_link_postable(rest[i])
                            && forall|j: int| 0 <= j < i ==> !atom_link_postable(#[trigger] rest[j]);
                    assert(links[i + 1] == rest[i]);
                    assert forall|j: int| 0 <= j < i + 1 implies !atom_link_postable(#[trigger] links[j]) by {
                        if j > 0 {
                            assert(links[j] == rest[j - 1]);
                        }
                    }
                },
                None => {
                    assert forall|i: int| 0 <= i < links.len() implies !atom_link_postable(#[trigger] links[i]) by {
                        if i > 0 {
                            assert(links[i] == rest[i - 1]);
                        }
                    }
                },
            }
        } else {
            assert(spec_choose_atom_link(links) == Some(links[0].href@));
        }
    }
}

/// Chooses the link to post for an Atom entry.
pub fn choose_atom_link(links: &[AtomLink]) -> (r: Option<String>)
    ensures
        opt_view(r) == spec_choose_atom_link(links@),
{
    let n = links.len();
    let mut i: usize = 0;
    assert(links@.skip(0) =~= links@);
    while i < n
        invariant
            n == links@.len(),
            i <= n,
            spec_choose_atom_link(links@) == spec_choose_atom_link(links@.skip(i as int)),
        decreases n - i,
    {
        let ghost rest = links@.skip(i as int);
        assert(rest.drop_first() =~= links@.skip(i + 1));
        assert(rest[0] == links@[i as int]);
        let link = &links[i];
        if str_eq(link.rel.as_str(), "alternate") {
            match &link.mime_type {
                None => return Some(link.href.clone()),
                Some(t) => {
                    if let Some((essence, _)) = parse_mime(t.as_str()) {
                        if str_eq(essence.as_str(), "text/html") {
                            return Some(link.href.clone());
                        }
                    }
                },
            }
        }
        i = i + 1;
    }
    None
}

/// The names of the authors joined by `,`, or `None` when that is empty.
pub open spec fn spec_atom_author(authors: Seq<String>) -> Option<Seq<char>> {
    let joined = seq_join(string_views(authors), seq![',']);
    if joined.len() > 0 {
        Some(joined)
    } else {
        None
    }
}

/// The terms of the categories that have no scheme, in order.
pub open spec fn spec_atom_tags(categories: Seq<AtomCategory>) -> Seq<Seq<char>>
    decreases categories.len(),
{
    if categories.len() == 0 {
        seq![]
    } else {
        let rest = spec_atom_tags(categories.drop_first());
        if categories[0].scheme is None {
            seq![categories[0].term@] + rest
        } else {
            rest
        }
    }
}

/// The names of the categories that have no domain, in order.
pub open spec fn spec_rss_tags(categories: Seq<RssCategory>) -> Seq<Seq<char>>
    decreases categories.len(),
{
    if categories.len() == 0 {
        seq![]
    } else {
        let rest = spec_rss_tags(categories.drop_first());
        if categories[0].domain is None {
            seq![categories[0].name@] + rest
        } else {
            rest
        }
    }
}

/// The feed item of an Atom entry.
pub open spec fn spec_item_from_atom(entry: AtomEntry) -> NewFeedItemView {
    NewFeedItemView {
        guid: entry.id@,
        url: spec_choose_atom_link(entry.links@),
        title: Some(entry.title@),
        author: spec_atom_author(entry.authors@),
        summary: opt_view(entry.summary),
        content: opt_view(entry.content),
        tags: spec_atom_tags(entry.categories@),
        date_published: entry.published,
        date_modified: Some(entry.updated),
    }
}

/// The date of an optional RFC 2822 date string.
pub open spec fn spec_opt_rfc2822(date: Option<String>) -> Option<Instant> {
    match date {
        Some(d) => rfc2822_instant(d@),
        None => None,
    }
}

/// The feed item of an RSS item: none without an identifier.
pub open spec fn spec_item_from_rss(item: RssItem) -> Result<NewFeedItemView, TryFromRssItemError> {
    match item.guid {
        None => Err(TryFromRssItemError::NoGuid),
        Some(guid) => Ok(
            NewFeedItemView {
                guid: guid.value@,
                url: opt_view(item.link),
                title: opt_view(item.title),
                author: opt_view(item.author),
                summary: opt_view(item.description),
                content: opt_view(item.content),
                tags: spec_rss_tags(item.categories@),
                date_published: spec_opt_rfc2822(item.pub_date),
                date_modified: None,
            },
        ),
    }
}

/// The feed item of a JSON Feed item.
pub open spec fn spec_item_from_json(item: json_feed::Item) -> NewFeedItemView {
    NewFeedItemView {
        guid: item.id@,
        url: opt_view(item.url),
        title: opt_view(item.title),
        author: match item.author {
            Some(a) => opt_view(a.name),
            None => None,
        },
        summary: opt_view(item.summary),
        content: opt_view(item.content_html),
        tags: string_views(item.tags@),
        date_published: spec_opt_rfc2822(item.date_published),
        date_modified: spec_opt_rfc2822(item.date_modified),
    }
}

/// Whether `t` is the name of one of the categories that have no domain.
pub open spec fn rss_tag_of(categories: Seq<RssCategory>, t: Seq<char>) -> bool {
    exists|i: int| 0 <= i < categories.len() && categories[i].domain is None && categories[i].name@ == t
}

/// Whether `t` is the term of one of the categories that have no scheme.
pub open spec fn atom_tag_of(categories: Seq<AtomCategory>, t: Seq<char>) -> bool {
    exists|i: int| 0 <= i < categories.len() && categories[i].scheme is None && categories[i].term@ == t
}

/// The tags of a list of RSS categories are the names of the categories
/// without a domain.
proof fn lemma_rss_tags(categories: Seq<RssCategory>)
    ensures
        forall|t: Seq<char>| #[trigger] spec_rss_tags(categories).contains(t) <==> rss_tag_of(categories, t),
    decreases categories.len(),
{
    if categories.len() > 0 {
        let rest = categories.drop_first();
        lemma_rss_tags(rest);
        let tags = spec_rss_tags(categories);
        let rtags = spec_rss_tags(rest);
        let off: int = if categories[0].domain is None { 1 } else { 0 };
        if off == 1 {
            assert(tags == seq![categories[0].name@] + rtags);
        } else {
            assert(tags == rtags);
        }
        assert forall|t: Seq<char>| #[trigger] tags.contains(t) <==> rss_tag_of(categories, t) by {
            if tags.contains(t) {
                let k = choose|k: int| 0 <= k < tags.len() && tags[k] == t;
                if off == 1 && k == 0 {
                    assert(categories[0].domain is None && categories[0].name@ == t);
                } else {
                    assert(tags[k] == rtags[k - off]);
                    assert(rtags.contains(t));
                    let i = choose|i: int| 0 <= i < rest.len() && rest[i].domain is None && rest[i].name@ == t;
                    assert(categories[i + 1] == rest[i]);
                }
            }
            if rss_tag_of(categories, t) {
                let i = choose|i: int| 0 <= i < categories.len() && categories[i].domain is None && categories[i].name@ == t;
                if i == 0 {
                    assert(tags[0] == t);
                } else {
                    assert(categories[i] == rest[i - 1]);
                    assert(rss_tag_of(rest, t));
                    assert(rtags.contains(t));
                    let k = choose|k: int| 0 <= k < rtags.len() && rtags[k] == t;
                    assert(tags[k + off] == rtags[k]);
                }
            }
        }
    }
}

/// The tags of a list of Atom categories are the terms of the categories
/// without a scheme.
proof fn lemma_atom_tags(categories: Seq<AtomCategory>)
    ensures
        forall|t: Seq<char>| #[trigger] spec_atom_tags(categories).contains(t) <==> atom_tag_of(categories, t),
    decreases categories.len(),
{
    if categories.len() > 0 {
        let rest = categories.drop_first();
        lemma_atom_tags(rest);
        let tags = spec_atom_tags(categories);
        let rtags = spec_atom_tags(rest);
        let off: int = if categories[0].scheme is None { 1 } else { 0 };
        if off == 1 {
            assert(tags == seq![categories[0].term@] + rtags);
        } else {
            assert(tags == rtags);
        }
        assert forall|t: Seq<char>| #[trigger] tags.contains(t) <==> atom_tag_of(categories, t) by {
            if tags.contains(t) {
                let k = choose|k: int| 0 <= k < tags.len() && tags[k] == t;
                if off == 1 && k == 0 {
                    assert(categories[0].scheme is None && categories[0].term@ == t);
                } else {
                    assert(tags[k] == rtags[k - off]);
                    assert(rtags.contains(t));
                    let i = choose|i: int| 0 <= i < rest.len() && rest[i].scheme is None && rest[i].term@ == t;
                    assert(categories[i + 1] == rest[i]);
                }
            }
            if atom_tag_of(categories, t) {
                let i = choose|i: int| 0 <= i < categories.len() && categories[i].scheme is None && categories[i].term@ == t;
                if i == 0 {
                    assert(tags[0] == t);
                } else {
                    assert(categories[i] == rest[i - 1]);
                    assert(atom_tag_of(rest, t));
                    assert(rtags.contains(t));
                    let k = choose|k: int| 0 <= k < rtags.len() && rtags[k] == t;
                    assert(tags[k + off] == rtags[k]);
                }
            }
        }
    }
}

/// An RSS item gives a feed item exactly when it has a guid. The feed item
/// is identified by the guid's value and links to the item's `<link>`; its
/// title, author, summary (the description) and content are the item's; it
/// is published at the item's RFC 2822 date and has no modification date;
/// its tags are the names of the categories without a domain.
pub proof fn law_rss_item_fields(item: RssItem)
    ensures
        spec_item_from_rss(item) is Ok <==> item.guid is Some,
        spec_item_from_rss(item) matches Ok(v) ==> {
            &&& v.guid == item.guid->0.value@
            &&& v.url == opt_view(item.link)
            &&& v.title == opt_view(item.title)
            &&& v.author == opt_view(item.author)
            &&& v.summary == opt_view(item.description)
            &&& v.content == opt_view(item.content)
            &&& v.date_published == match item.pub_date {
                Some(d) => rfc2822_instant(d@),
                None => None,
            }
            &&& v.date_modified is None
            &&& forall|t: Seq<char>| #[trigger] v.tags.contains(t) <==> rss_tag_of(item.categories@, t)
        },
{
    lemma_rss_tags(item.categories@);
    if let Ok(v) = spec_item_from_rss(item) {
        assert(v.tags == spec_rss_tags(item.categories@));
    }
}

/// The feed item of an Atom entry: identified by the entry's id, linking to
/// the link chosen for it, titled by its title, with its summary and content,
/// published and modified at its dates; its tags are the terms of the
/// categories without a scheme.
pub proof fn law_atom_entry_fields(entry: AtomEntry)
    ensures
        ({
            let v = spec_item_from_atom(entry);
            &&& v.guid == entry.id@
            &&& v.url == spec_choose_atom_link(entry.links@)
            &&& v.title == Some(entry.title@)
            &&& v.summary == opt_view(entry.summary)
            &&& v.content == opt_view(entry.content)
            &&& v.date_published == entry.published
            &&& v.date_modified == Some(entry.updated)
            &&& forall|t: Seq<char>| #[trigger] v.tags.contains(t) <==> atom_tag_of(entry.categories@, t)
        }),
{
    lemma_atom_tags(entry.categories@);
    assert(spec_item_from_atom(entry).tags == spec_atom_tags(entry.categories@));
}

/// The feed item of a JSON Feed item: identified by its id, linking to its
/// URL, with its title, its author's name, its summary, its HTML content
/// and its tags, published and modified at its RFC 2822 dates.
pub proof fn law_json_item_fields(item: json_feed::Item)
    ensures
        ({
            let v = spec_item_from_json(item);
            &&& v.guid == item.id@
            &&& v.url == opt_view(item.url)
            &&& v.title == opt_view(item.title)
            &&& v.author == match item.author {
                Some(a) => opt_view(a.name),
                None => None,
            }
            &&& v.summary == opt_view(item.summary)
            &&& v.content == opt_view(item.content_html)
            &&& v.tags == item.tags@.map_values(|t: String| t@)
            &&& v.date_published == match item.date_published {
                Some(d) => rfc2822_instant(d@),
                None => None,
            }
            &&& v.date_modified == match item.date_modified {
                Some(d) => rfc2822_instant(d@),
                None => None,
            }
        }),
{
}

/// A copy of an optional string.
fn clone_opt(o: &Option<String>) -> (r: Option<String>)
    ensures
        opt_view(r) == opt_view(*o),
{
    match o {
        Some(s) => Some(String::from_str(s.as_str())),
        None => None,
    }
}

/// A copy of a list of strings.
fn clone_strings(list: &Vec<String>) -> (r: Vec<String>)
    ensures
        string_views(r@) == string_views(list@),
{
    let mut out: Vec<String> = Vec::new();
    let n = list.len();
    let mut i: usize = 0;
    while i < n
        invariant
            n == list@.len(),
            i <= n,
            string_views(out@) =~= string_views(list@).take(i as int),
        decreases n - i,
    {
        let ghost before = out@;
        out.push(String::from_str(list[i].as_str()));
        assert(string_views(out@) =~= string_views(before).push(list@[i as int]@));
        i = i + 1;
    }
    assert(string_views(list@).take(n as int) =~= string_views(list@));
    out
}

/// Reads an optional RFC 2822 date.
fn opt_rfc2822(date: &Option<String>) -> (r: Option<Instant>)
    ensures
        r == spec_opt_rfc2822(*date),
{
    match date {
        Some(d) => parse_rfc2822(d.as_str()),
        None => None,
    }
}

impl NewFeedItem {
    /// The feed item of an Atom entry.
    pub fn from_atom_entry(entry: &AtomEntry) -> (r: NewFeedItem)
        ensures
            r@ == spec_item_from_atom(*entry),
    {
        let author = join_strings(&entry.authors, ",");
        proof {
            reveal_strlit(",");
            assert(","@ =~= seq![',']);
        }
        let url = choose_atom_link(entry.links.as_slice());
        let mut tags: Vec<String> = Vec::new();
        let n = entry.categories.len();
        let mut k = n;
        let ghost cats = entry.categories@;
        assert(cats.skip(n as int) =~= Seq::<AtomCategory>::empty());
        while k > 0
            invariant
                n == cats.len(),
                cats == entry.categories@,
                k <= n,
                string_views(tags@) == spec_atom_tags(cats.skip(k as int)),
            decreases k,
        {
            k = k - 1;
            let ghost rest = cats.skip(k as int);
            assert(rest.drop_first() =~= cats.skip(k + 1));
            let cat = &entry.categories[k];
            if cat.scheme.is_none() {
                let ghost before = tags@;
                tags.insert(0, String::from_str(cat.term.as_str()));
                assert(string_views(tags@) =~= seq![cat.term@] + string_views(before));
            }
        }
        assert(cats.skip(0) =~= cats);
        let has_author = author.as_str().unicode_len() != 0;
        NewFeedItem {
            guid: String::from_str(entry.id.as_str()),
            url,
            title: Some(String::from_str(entry.title.as_str())),
            author: if has_author { Some(author) } else { None },
            summary: clone_opt(&entry.summary),
            content: clone_opt(&entry.content),
            tags,
            date_published: entry.published,
            date_modified: Some(entry.updated),
        }
    }

    /// The feed item of an RSS item; an item without identifier gives none.
    pub fn try_from_rss_item(item: &RssItem) -> (r: Result<NewFeedItem, TryFromRssItemError>)
        ensures
            match spec_item_from_rss(*item) {
                Ok(v) => r matches Ok(i) && i@ == v,
                Err(e) => r == Err::<NewFeedItem, TryFromRssItemError>(e),
            },
    {
        let date_published = opt_rfc2822(&item.pub_date);
        let guid = match &item.guid {
            Some(g) => String::from_str(g.value.as_str()),
            None => return Err(TryFromRssItemError::NoGuid),
        };
        let mut tags: Vec<String> = Vec::new();
        let n = item.categories.len();
        let mut k = n;
        let ghost cats = item.categories@;
        assert(cats.skip(n as int) =~= Seq::<RssCategory>::empty());
        while k > 0
            invariant
                n == cats.len(),
                cats == item.categories@,
                k <= n,
                string_views(tags@) == spec_rss_tags(cats.skip(k as int)),
            decreases k,
        {
            k = k - 1;
            let ghost rest = cats.skip(k as int);
            assert(rest.drop_first() =~= cats.skip(k + 1));
            let cat = &item.categories[k];
            if cat.domain.is_none() {
                let ghost before = tags@;
                tags.insert(0, String::from_str(cat.name.as_str()));
                assert(string_views(tags@) =~= seq![cat.name@] + string_views(before));
            }
        }
        assert(cats.skip(0) =~= cats);
        Ok(NewFeedItem {
            guid,
            url: clone_opt(&item.link),
            title: clone_opt(&item.title),
            author: clone_opt(&item.author),
            summary: clone_opt(&item.description),
            content: clone_opt(&item.content),
            tags,
            date_published,
            date_modified: None,
        })
    }

    /// The feed item of a JSON Feed item.
    pub fn from_json_item(item: &json_feed::Item) -> (r: NewFeedItem)
        ensures
            r@ == spec_item_from_json(*item),
    {
        let author = match &item.author {
            Some(a) => clone_opt(&a.name),
            None => None,
        };
        NewFeedItem {
            guid: String::from_str(item.id.as_str()),
            url: clone_opt(&item.url),
            title: clone_opt(&item.title),
            author,
            summary: clone_opt(&item.summary),
            content: clone_opt(&item.content_html),
            tags: clone_strings(&item.tags),
            date_published: opt_rfc2822(&item.date_published),
            date_modified: opt_rfc2822(&item.date_modified),
        }
    }
}

/// The feed items of the RSS items that have an identifier, in order.
pub open spec fn spec_rss_items(items: Seq<RssItem>) -> Seq<NewFeedItemView>
    decreases items.len(),
{
    if items.len() == 0 {
        seq![]
    } else {
        let rest = spec_rss_items(items.drop_first());
        match spec_item_from_rss(items[0]) {
            Ok(v) => seq![v] + rest,
            Err(_) => rest,
        }
    }
}

/// The items of a feed, in order: every Atom entry and JSON Feed item, and
/// the RSS items that have an identifier (the others cannot be told apart).
pub open spec fn spec_feed_items(feed: ParsedFeed) -> Seq<NewFeedItemView> {
    match feed {
        ParsedFeed::Rss(c) => spec_rss_items(c.items@),
        ParsedFeed::Atom(f) => f.entries@.map_values(|e: AtomEntry| spec_item_from_atom(e)),
        ParsedFeed::Json(f) => f.items@.map_values(|i: json_feed::Item| spec_item_from_json(i)),
    }
}

/// The views of a list of feed items.
pub open spec fn item_views(items: Seq<NewFeedItem>) -> Seq<NewFeedItemView> {
    items.map_values(|i: NewFeedItem| i@)
}

/// The number of raw items of a feed.
pub open spec fn spec_item_count(feed: ParsedFeed) -> nat {
    match feed {
        ParsedFeed::Rss(c) => c.items@.len(),
        ParsedFeed::Atom(f) => f.entries@.len(),
        ParsedFeed::Json(f) => f.items@.len(),
    }
}

/// `s` without the white space at either end, as std's `str::trim` gives it.
pub open spec fn spec_trim(s: Seq<char>) -> Seq<char>
    decreases s.len(),
{
    if s.len() == 0 {
        s
    } else if is_unicode_whitespace(s[0]) {
        spec_trim(s.drop_first())
    } else if is_unicode_whitespace(s.last()) {
        spec_trim(s.drop_last())
    } else {
        s
    }
}

/// Removes the white space at either end of `s`.
pub fn trim(s: &str) -> (r: String)
    ensures
        r@ == spec_trim(s@),
{
    let n = s.unicode_len();
    let mut start: usize = 0;
    let mut end: usize = n;
    assert(s@.subrange(0, n as int) =~= s@);
    while start < end && unicode_whitespace(s.get_char(start))
        invariant
            n == s@.len(),
            start <= end == n,
            spec_trim(s@) == spec_trim(s@.subrange(start as int, end as int)),
        decreases end - start,
    {
        let ghost cur = s@.subrange(start as int, end as int);
        assert(cur.drop_first() =~= s@.subrange(start + 1, end as int));
        start = start + 1;
    }
    while start < end && unicode_whitespace(s.get_char(end - 1))
        invariant
            n == s@.len(),
            start <= end <= n,
            start < end ==> !is_unicode_whitespace(s@[start as int]),
            spec_trim(s@) == spec_trim(s@.subrange(start as int, end as int)),
        decreases end - start,
    {
        let ghost cur = s@.subrange(start as int, end as int);
        assert(cur.drop_last() =~= s@.subrange(start as int, end - 1));
        assert(cur[0] == s@[start as int]);
        end = end - 1;
    }
    let t = s.substring_char(start, end);
    proof {
        let cur = s@.subrange(start as int, end as int);
        if start < end {
            assert(cur[0] == s@[start as int]);
            assert(cur.last() == s@[end - 1]);
        }
    }
    String::from_str(t)
}

impl ParsedFeed {
    /// The items of this feed, as `spec_feed_items` says.
    pub fn items(&self) -> (r: Vec<NewFeedItem>)
        ensures
            item_views(r@) == spec_feed_items(*self),
    {
        let mut out: Vec<NewFeedItem> = Vec::new();
        match self {
            ParsedFeed::Rss(c) => {
                let ghost all = c.items@;
                let n = c.items.len();
                let mut k = n;
                assert(all.skip(n as int) =~= Seq::<RssItem>::empty());
                while k > 0
                    invariant
                        n == all.len(),
                        all == c.items@,
                        k <= n,
                        item_views(out@) == spec_rss_items(all.skip(k as int)),
                    decreases k,
                {
                    k = k - 1;
                    let ghost rest = all.skip(k as int);
                    assert(rest.drop_first() =~= all.skip(k + 1));
                    if let Ok(item) = NewFeedItem::try_from_rss_item(&c.items[k]) {
                        let ghost before = out@;
                        out.insert(0, item);
                        assert(item_views(out@) =~= seq![item@] + item_views(before));
                    }
                }
                assert(all.skip(0) =~= all);
            },
            ParsedFeed::Atom(f) => {
                let n = f.entries.len();
                let mut i: usize = 0;
                while i < n
                    invariant
                        n == f.entries@.len(),
                        i <= n,
                        item_views(out@) =~= f.entries@.map_values(|e: AtomEntry| spec_item_from_atom(e)).take(i as int),
                    decreases n - i,
                {
                    let ghost before = out@;
                    out.push(NewFeedItem::from_atom_entry(&f.entries[i]));
                    assert(item_views(out@) =~= item_views(before).push(spec_item_from_atom(f.entries@[i as int])));
                    i = i + 1;
                }
                assert(f.entries@.map_values(|e: AtomEntry| spec_item_from_atom(e)).take(n as int)
                    =~= f.entries@.map_values(|e: AtomEntry| spec_item_from_atom(e)));
            },
            ParsedFeed::Json(f) => {
                let n = f.items.len();
                let mut i: usize = 0;
                while i < n
                    invariant
                        n == f.items@.len(),
                        i <= n,
                        item_views(out@) =~= f.items@.map_values(|e: json_feed::Item| spec_item_from_json(e)).take(i as int),
                    decreases n - i,
                {
                    let ghost before = out@;
                    out.push(NewFeedItem::from_json_item(&f.items[i]));
                    assert(item_views(out@) =~= item_views(before).push(spec_item_from_json(f.items@[i as int])));
                    i = i + 1;
                }
                assert(f.items@.map_values(|e: json_feed::Item| spec_item_from_json(e)).take(n as int)
                    =~= f.items@.map_values(|e: json_feed::Item| spec_item_from_json(e)));
            },
        }
        out
    }

    /// The number of raw items of this feed.
    pub fn item_count(&self) -> (r: usize)
        ensures
            r == spec_item_count(*self),
    {
        match self {
            ParsedFeed::Rss(c) => c.items.len(),
            ParsedFeed::Atom(f) => f.entries.len(),
            ParsedFeed::Json(f) => f.items.len(),
        }
    }

    /// The title of this feed, without surrounding white space.
    pub fn title(&self) -> (r: String)
        ensures
            r@ == spec_trim(
                match *self {
                    ParsedFeed::Rss(c) => c.title@,
                    ParsedFeed::Atom(f) => f.title@,
                    ParsedFeed::Json(f) => f.title@,
                },
            ),
    {
        match self {
            ParsedFeed::Rss(c) => trim(c.title.as_str()),
            ParsedFeed::Atom(f) => trim(f.title.as_str()),
            ParsedFeed::Json(f) => trim(f.title.as_str()),
        }
    }

    /// The description of this feed: the RSS description, the Atom subtitle
    /// or the JSON Feed description.
    pub fn description(&self) -> (r: Option<&str>)
        ensures
            match r {
                Some(d) => Some(d@) == match *self {
                    ParsedFeed::Rss(c) => Some(c.description@),
                    ParsedFeed::Atom(f) => opt_view(f.subtitle),
                    ParsedFeed::Json(f) => opt_view(f.description),
                },
                None => match *self {
                    ParsedFeed::Rss(c) => false,
                    ParsedFeed::Atom(f) => f.subtitle is None,
                    ParsedFeed::Json(f) => f.description is None,
                },
            },
    {
        match self {
            ParsedFeed::Rss(c) => Some(c.description.as_str()),
            ParsedFeed::Atom(f) => match &f.subtitle {
                Some(s) => Some(s.as_str()),
                None => None,
            },
            ParsedFeed::Json(f) => match &f.description {
                Some(s) => Some(s.as_str()),
                None => None,
            },
        }
    }
}

} // verus!
