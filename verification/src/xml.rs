//! Reading the XML feed formats, Atom and RSS, into the library's own model.
use vstd::prelude::*;

use crate::feed::{opt_view, AtomCategory, AtomEntry, AtomFeed, AtomLink, RssCategory, RssChannel, RssGuid, RssItem};
use crate::text::string_views;
use crate::time::Instant;

verus! {

/// The outcome of reading bytes as one XML feed format.
#[derive(Debug, Clone, Copy, PartialEq, Eq, Structural)]
pub enum XmlOutcome {
    /// The bytes are a feed of that format.
    Parsed,
    /// The bytes do not begin with that format's root tag.
    NotThisFormat,
    /// The bytes begin as that format but are not valid.
    Invalid,
}

/// Why reading bytes as an XML feed failed.
#[derive(Debug)]
pub enum XmlReadError {
    InvalidStartTag,
    Other(String),
}

/// What an Atom entry holds: its identifier, title, author names, summary,
/// content, publication and update dates; its links (`href`, `rel`,
/// `mime_type`); its categories (`term`, `scheme`).
pub struct AtomEntryView {
    pub fields: (Seq<char>, Seq<char>, Seq<Seq<char>>, Option<Seq<char>>, Option<Seq<char>>, Option<Instant>, Instant),
    pub links: Seq<(Seq<char>, Seq<char>, Option<Seq<char>>)>,
    pub categories: Seq<(Seq<char>, Option<Seq<char>>)>,
}

/// What an Atom feed holds: its title, subtitle and entries.
pub struct AtomFeedView {
    pub title: Seq<char>,
    pub subtitle: Option<Seq<char>>,
    pub entries: Seq<AtomEntryView>,
}

/// What an RSS item holds: its guid (value and permalink flag), link, title,
/// author, description, content and publication date, if it is there; its
/// categories (`name`, `domain`).
pub struct RssItemView {
    pub fields: Option<
        (
            Option<(Seq<char>, bool)>,
            Option<Seq<char>>,
            Option<Seq<char>>,
            Option<Seq<char>>,
            Option<Seq<char>>,
            Option<Seq<char>>,
            Option<Seq<char>>,
        ),
    >,
    pub categories: Seq<(Seq<char>, Option<Seq<char>>)>,
}

/// What an RSS channel holds: its title, description and items.
pub struct RssChannelView {
    pub title: Seq<char>,
    pub description: Seq<char>,
    pub items: Seq<RssItemView>,
}

/// What `atom_syndication::Feed::read_from` reads from `data`: the feed, or
/// `None` when the data does not begin with a feed tag, or the message of
/// any other error.
pub uninterp spec fn atom_parse(data: Seq<u8>) -> Result<AtomFeedView, Option<Seq<char>>>;

/// What `rss::Channel::read_from` reads from `data`: the channel, or `None`
/// when the data does not begin with an `rss` tag, or the message of any
/// other error.
pub uninterp spec fn rss_parse(data: Seq<u8>) -> Result<RssChannelView, Option<Seq<char>>>;

/// How reading `data` as Atom fares.
pub open spec fn atom_read_outcome(data: Seq<u8>) -> XmlOutcome {
    match atom_parse(data) {
        Ok(_) => XmlOutcome::Parsed,
        Err(None) => XmlOutcome::NotThisFormat,
        Err(Some(_)) => XmlOutcome::Invalid,
    }
}

/// How reading `data` as RSS fares.
pub open spec fn rss_read_outcome(data: Seq<u8>) -> XmlOutcome {
    match rss_parse(data) {
        Ok(_) => XmlOutcome::Parsed,
        Err(None) => XmlOutcome::NotThisFormat,
        Err(Some(_)) => XmlOutcome::Invalid,
    }
}

#[verifier::external_type_specification]
#[verifier::external_body]
pub struct ExAtomEntry(atom_syndication::Entry);

#[verifier::external_type_specification]
#[verifier::external_body]
pub struct ExRssChannel(rss::Channel);

/// `atom_syndication::Feed::read_from(data)`, the feed taken apart into its
/// title, subtitle and entries, its error told apart as `InvalidStartTag` or
/// another (by its message): the result named `atom_parse`.
#[verifier::external_body]
pub(crate) fn atom_read(data: &[u8]) -> (r: Result<(String, Option<String>, Vec<atom_syndication::Entry>), XmlReadError>)
    ensures
        match r {
            Ok((t, s, es)) => atom_parse(data@) == Ok::<AtomFeedView, Option<Seq<char>>>(
                AtomFeedView {
                    title: t@,
                    subtitle: opt_view(s),
                    entries: es@.map_values(|e: atom_syndication::Entry| atom_entry_content(e)),
                },
            ),
            Err(XmlReadError::InvalidStartTag) => atom_parse(data@) == Err::<AtomFeedView, Option<Seq<char>>>(None),
            Err(XmlReadError::Other(m)) => atom_parse(data@) == Err::<AtomFeedView, Option<Seq<char>>>(Some(m@)),
        },
{
    match atom_syndication::Feed::read_from(data) {
        Ok(f) => Ok((f.title.value, f.subtitle.map(|t| t.value), f.entries)),
        Err(atom_syndication::Error::InvalidStartTag) => Err(XmlReadError::InvalidStartTag),
        Err(other) => Err(XmlReadError::Other(other.to_string())),
    }
}

/// `rss::Channel::read_from(data)`, its error told apart as
/// `InvalidStartTag` or another (by its message): the result named
/// `rss_parse`.
#[verifier::external_body]
pub(crate) fn rss_read(data: &[u8]) -> (r: Result<rss::Channel, XmlReadError>)
    ensures
        match r {
            Ok(c) => rss_parse(data@) == Ok::<RssChannelView, Option<Seq<char>>>(rss_channel_content(c)),
            Err(XmlReadError::InvalidStartTag) => rss_parse(data@) == Err::<RssChannelView, Option<Seq<char>>>(None),
            Err(XmlReadError::Other(m)) => rss_parse(data@) == Err::<RssChannelView, Option<Seq<char>>>(Some(m@)),
        },
{
    rss::Channel::read_from(data).map_err(|e| match e {
        rss::Error::InvalidStartTag => XmlReadError::InvalidStartTag,
        other => XmlReadError::Other(other.to_string()),
    })
}

/// The identifier, title, author names, summary, content, publication date
/// and update date (instants) of an Atom entry, as its fields hold
/// them.
pub uninterp spec fn atom_entry_fields(e: atom_syndication::Entry) -> (
    Seq<char>,
    Seq<char>,
    Seq<Seq<char>>,
    Option<Seq<char>>,
    Option<Seq<char>>,
    Option<Instant>,
    Instant,
);

/// The links of an Atom entry, in order: each its `href`, `rel` and
/// `mime_type`.
pub uninterp spec fn atom_entry_link_fields(e: atom_syndication::Entry) -> Seq<(Seq<char>, Seq<char>, Option<Seq<char>>)>;

/// The categories of an Atom entry, in order: each its `term` and `scheme`.
pub uninterp spec fn atom_entry_category_fields(e: atom_syndication::Entry) -> Seq<(Seq<char>, Option<Seq<char>>)>;

/// The title and description of an RSS channel.
pub uninterp spec fn rss_channel_text(c: rss::Channel) -> (Seq<char>, Seq<char>);

/// The number of items of an RSS channel.
pub uninterp spec fn rss_channel_len(c: rss::Channel) -> nat;

/// The guid (value and permalink flag), link, title, author, description,
/// content and publication date of the item at `index` of an RSS channel;
/// `None` if there is no such item.
pub uninterp spec fn rss_item_fields(c: rss::Channel, index: int) -> Option<
    (
        Option<(Seq<char>, bool)>,
        Option<Seq<char>>,
        Option<Seq<char>>,
        Option<Seq<char>>,
        Option<Seq<char>>,
        Option<Seq<char>>,
        Option<Seq<char>>,
    ),
>;

/// The categories of the item at `index` of an RSS channel, in order: each
/// its `name` and `domain`; empty if there is no such item.
pub uninterp spec fn rss_item_category_fields(c: rss::Channel, index: int) -> Seq<(Seq<char>, Option<Seq<char>>)>;

/// What a link of the library holds.
pub open spec fn link_view(l: AtomLink) -> (Seq<char>, Seq<char>, Option<Seq<char>>) {
    (l.href@, l.rel@, opt_view(l.mime_type))
}

/// What an Atom category of the library holds.
pub open spec fn category_view(c: AtomCategory) -> (Seq<char>, Option<Seq<char>>) {
    (c.term@, opt_view(c.scheme))
}

/// What an RSS category of the library holds.
pub open spec fn rss_category_view(c: RssCategory) -> (Seq<char>, Option<Seq<char>>) {
    (c.name@, opt_view(c.domain))
}

/// What an RSS guid of the library holds.
pub open spec fn guid_view(g: Option<RssGuid>) -> Option<(Seq<char>, bool)> {
    match g {
        Some(g) => Some((g.value@, g.permalink)),
        None => None,
    }
}

/// What an Atom entry holds, by the names of its fields.
pub open spec fn atom_entry_content(e: atom_syndication::Entry) -> AtomEntryView {
    AtomEntryView {
        fields: atom_entry_fields(e),
        links: atom_entry_link_fields(e),
        categories: atom_entry_category_fields(e),
    }
}

/// What an entry of the library holds.
pub open spec fn atom_entry_view(a: AtomEntry) -> AtomEntryView {
    AtomEntryView {
        fields: (a.id@, a.title@, string_views(a.authors@), opt_view(a.summary), opt_view(a.content), a.published, a.updated),
        links: a.links@.map_values(|l: AtomLink| link_view(l)),
        categories: a.categories@.map_values(|c: AtomCategory| category_view(c)),
    }
}

/// What an Atom feed of the library holds.
pub open spec fn atom_feed_view(f: AtomFeed) -> AtomFeedView {
    AtomFeedView {
        title: f.title@,
        subtitle: opt_view(f.subtitle),
        entries: f.entries@.map_values(|a: AtomEntry| atom_entry_view(a)),
    }
}

/// What an RSS channel holds, by the names of its fields.
pub open spec fn rss_channel_content(c: rss::Channel) -> RssChannelView {
    RssChannelView {
        title: rss_channel_text(c).0,
        description: rss_channel_text(c).1,
        items: Seq::new(
            rss_channel_len(c),
            |i: int| RssItemView { fields: rss_item_fields(c, i), categories: rss_item_category_fields(c, i) },
        ),
    }
}

/// What an RSS channel of the library holds.
pub open spec fn rss_channel_view(c: RssChannel) -> RssChannelView {
    RssChannelView {
        title: c.title@,
        description: c.description@,
        items: c.items@.map_values(
            |i: RssItem| RssItemView {
                fields: Some(rss_item_view(i)),
                categories: i.categories@.map_values(|x: RssCategory| rss_category_view(x)),
            },
        ),
    }
}

/// What the fields of an RSS item of the library hold, but its categories.
pub open spec fn rss_item_view(i: RssItem) -> (
    Option<(Seq<char>, bool)>,
    Option<Seq<char>>,
    Option<Seq<char>>,
    Option<Seq<char>>,
    Option<Seq<char>>,
    Option<Seq<char>>,
    Option<Seq<char>>,
) {
    (
        guid_view(i.guid),
        opt_view(i.link),
        opt_view(i.title),
        opt_view(i.author),
        opt_view(i.description),
        opt_view(i.content),
        opt_view(i.pub_date),
    )
}

/// The identifier, title, author names, summary, content and dates of an Atom
/// entry, read from its fields (dates as instants): those named
/// `atom_entry_fields`.
#[verifier::external_body]
fn atom_entry_parts(e: &atom_syndication::Entry) -> (r: (String, String, Vec<String>, Option<String>, Option<String>, Option<Instant>, Instant))
    ensures
        atom_entry_fields(*e) == (r.0@, r.1@, string_views(r.2@), opt_view(r.3), opt_view(r.4), r.5, r.6),
{
    (
        e.id.clone(),
        e.title.value.clone(),
        e.authors.iter().map(|p| p.name.clone()).collect(),
        e.summary.as_ref().map(|t| t.value.clone()),
        e.content.as_ref().and_then(|c| c.value.clone()),
        e.published.map(|d| Instant { secs: d.timestamp(), nanos: d.timestamp_subsec_nanos() }),
        Instant { secs: e.updated.timestamp(), nanos: e.updated.timestamp_subsec_nanos() },
    )
}

/// The links of an Atom entry, read from their fields: those named
/// `atom_entry_link_fields`.
#[verifier::external_body]
fn atom_entry_links(e: &atom_syndication::Entry) -> (r: Vec<AtomLink>)
    ensures
        atom_entry_link_fields(*e) == r@.map_values(|l: AtomLink| link_view(l)),
{
    e.links.iter().map(|l| AtomLink { href: l.href.clone(), rel: l.rel.clone(), mime_type: l.mime_type.clone() }).collect()
}

/// The categories of an Atom entry, read from their fields: those named
/// `atom_entry_category_fields`.
#[verifier::external_body]
fn atom_entry_categories(e: &atom_syndication::Entry) -> (r: Vec<AtomCategory>)
    ensures
        atom_entry_category_fields(*e) == r@.map_values(|c: AtomCategory| category_view(c)),
{
    e.categories.iter().map(|c| AtomCategory { term: c.term.clone(), scheme: c.scheme.clone() }).collect()
}

/// The title and description of an RSS channel, read from its fields: those
/// named `rss_channel_text`.
#[verifier::external_body]
fn rss_channel_parts(c: &rss::Channel) -> (r: (String, String))
    ensures
        rss_channel_text(*c) == (r.0@, r.1@),
{
    (c.title.clone(), c.description.clone())
}

/// The number of items of an RSS channel: the one named `rss_channel_len`.
#[verifier::external_body]
fn rss_item_count(c: &rss::Channel) -> (r: usize)
    ensures
        r as nat == rss_channel_len(*c),
{
    c.items.len()
}

/// The identifier, link, title, author, description, content and date of the
/// item at `index` of an RSS channel, read from its fields: those named
/// `rss_item_fields`. There is an item exactly when `index` is below the
/// number of items.
#[verifier::external_body]
fn rss_item_parts(c: &rss::Channel, index: usize) -> (r: Option<(Option<RssGuid>, Option<String>, Option<String>, Option<String>, Option<String>, Option<String>, Option<String>)>)
    ensures
        r is Some <==> index < rss_channel_len(*c),
        match r {
            Some(t) => rss_item_fields(*c, index as int) == Some(
                (guid_view(t.0), opt_view(t.1), opt_view(t.2), opt_view(t.3), opt_view(t.4), opt_view(t.5), opt_view(t.6)),
            ),
            None => rss_item_fields(*c, index as int) is None,
        },
{
    c.items.get(index).map(|i| (
        i.guid.as_ref().map(|g| RssGuid { value: g.value.clone(), permalink: g.permalink }),
        i.link.clone(),
        i.title.clone(),
        i.author.clone(),
        i.description.clone(),
        i.content.clone(),
        i.pub_date.clone(),
    ))
}

/// The categories of the item at `index` of an RSS channel, read from their
/// fields: those named `rss_item_category_fields`.
#[verifier::external_body]
fn rss_item_categories(c: &rss::Channel, index: usize) -> (r: Vec<RssCategory>)
    ensures
        rss_item_category_fields(*c, index as int) == r@.map_values(|x: RssCategory| rss_category_view(x)),
{
    c.items.get(index).map(|i| i.categories.iter().map(|c| RssCategory { name: c.name.clone(), domain: c.domain.clone() }).collect()).unwrap_or_default()
}

/// An Atom feed as the library holds it: the title and subtitle given, and
/// one entry for each Atom entry, in order, holding what it holds.
pub(crate) fn atom_model(title: String, subtitle: Option<String>, entries: &Vec<atom_syndication::Entry>) -> (r: AtomFeed)
    ensures
        atom_feed_view(r) == (AtomFeedView {
            title: title@,
            subtitle: opt_view(subtitle),
            entries: entries@.map_values(|e: atom_syndication::Entry| atom_entry_content(e)),
        }),
{
    let mut out: Vec<AtomEntry> = Vec::new();
    let n = entries.len();
    let mut i: usize = 0;
    while i < n
        invariant
            n == entries@.len(),
            i <= n,
            out@.len() == i,
            forall|k: int| 0 <= k < i ==> atom_entry_view(#[trigger] out@[k]) == atom_entry_content(entries@[k]),
        decreases n - i,
    {
        let e = &entries[i];
        let (id, entry_title, authors, summary, content, published, updated) = atom_entry_parts(e);
        let entry = AtomEntry {
            id,
            title: entry_title,
            authors,
            links: atom_entry_links(e),
            summary,
            content,
            categories: atom_entry_categories(e),
            published,
            updated,
        };
        assert(atom_entry_view(entry) == atom_entry_content(entries@[i as int]));
        out.push(entry);
        i = i + 1;
    }
    let r = AtomFeed { title, subtitle, entries: out };
    assert(atom_feed_view(r).entries =~= entries@.map_values(|e: atom_syndication::Entry| atom_entry_content(e)));
    r
}

/// An RSS channel as the library holds it: its title and description, and
/// one item for each of its items, in order, holding what it holds.
pub(crate) fn rss_model(c: &rss::Channel) -> (r: RssChannel)
    ensures
        rss_channel_view(r) == rss_channel_content(*c),
{
    let (title, description) = rss_channel_parts(c);
    let mut out: Vec<RssItem> = Vec::new();
    let n = rss_item_count(c);
    let mut i: usize = 0;
    while i < n
        invariant
            n as nat == rss_channel_len(*c),
            i <= n,
            out@.len() == i,
            forall|k: int| 0 <= k < i ==> {
                &&& rss_item_fields(*c, k) == Some(rss_item_view(#[trigger] out@[k]))
                &&& rss_item_category_fields(*c, k) == out@[k].categories@.map_values(|x: RssCategory| rss_category_view(x))
            },
        decreases n - i,
    {
        if let Some((guid, link, item_title, author, item_description, content, pub_date)) = rss_item_parts(c, i) {
            let item = RssItem {
                guid,
                link,
                title: item_title,
                author,
                description: item_description,
                content,
                categories: rss_item_categories(c, i),
                pub_date,
            };
            out.push(item);
        }
        i = i + 1;
    }
    let r = RssChannel { title, description, items: out };
    assert(rss_channel_view(r).items =~= rss_channel_content(*c).items);
    r
}

} // verus!
