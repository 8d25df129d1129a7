//! The records that Mastodon's API exchanges, and the state kept for an
//! account.
use vstd::prelude::*;
use vstd::string::*;

use crate::delay::{parse_u64, spec_parse_u64};
use crate::delay::ErrorMessage;
use crate::text::str_eq;
use crate::time::{parse_rfc3339, rfc3339_instant, Instant};

verus! {

/// What is kept to post to a Mastodon account.
#[derive(Debug, Clone)]
pub struct MastodonState {
    pub client_id: String,
    pub client_secret: String,
    pub instance: String,
    pub access_token: String,
}

/// Who may see a status.
#[derive(Debug, Clone, Copy, PartialEq, Eq, Structural)]
pub enum Visibility {
    Public,
    Unlisted,
    Private,
    Direct,
}

/// The visibility that a name given by the user denotes (Mastodon's names).
pub open spec fn spec_visibility_of_name(name: Seq<char>) -> Option<Visibility> {
    if name == "public"@ {
        Some(Visibility::Public)
    } else if name == "unlisted"@ {
        Some(Visibility::Unlisted)
    } else if name == "private"@ {
        Some(Visibility::Private)
    } else if name == "direct"@ {
        Some(Visibility::Direct)
    } else {
        None
    }
}

impl Visibility {
    /// The visibility that a name given by the user denotes.
    pub fn from_str(s: &str) -> (r: Result<Visibility, ErrorMessage>)
        ensures
            match spec_visibility_of_name(s@) {
                Some(v) => r == Ok::<Visibility, ErrorMessage>(v),
                None => r matches Err(e) && e.0@ == "'"@ + s@ + "' is not a known visibility"@,
            },
    {
        if str_eq(s, "public") {
            Ok(Visibility::Public)
        } else if str_eq(s, "unlisted") {
            Ok(Visibility::Unlisted)
        } else if str_eq(s, "private") {
            Ok(Visibility::Private)
        } else if str_eq(s, "direct") {
            Ok(Visibility::Direct)
        } else {
            let mut msg = String::from_str("'");
            msg.append(s);
            msg.append("' is not a known visibility");
            Err(ErrorMessage(msg))
        }
    }
}

impl std::str::FromStr for Visibility {
    type Err = ErrorMessage;

    fn from_str(s: &str) -> (r: Result<Visibility, ErrorMessage>)
        ensures
            match spec_visibility_of_name(s@) {
                Some(v) => r == Ok::<Visibility, ErrorMessage>(v),
                None => r matches Err(e) && e.0@ == "'"@ + s@ + "' is not a known visibility"@,
            },
    {
        Visibility::from_str(s)
    }
}

/// A status to post.
#[derive(Debug)]
pub struct NewStatus {
    /// The text content of the status.
    pub status: String,
    /// The attachments, by their identifiers.
    pub media_ids: Vec<String>,
    /// The status this one replies to.
    pub in_reply_to_id: Option<String>,
    /// Whether the status and its media are sensitive.
    pub sensitive: bool,
    /// Text shown as a warning before the content.
    pub spoiler_text: Option<String>,
    /// Who may see the status.
    pub visibility: Visibility,
    /// ISO 639 language code of the status.
    pub language: Option<String>,
}

/// A media file attached to a status.
#[derive(Debug)]
pub struct MediaAttachment {
    pub description: Option<String>,
}

/// The status that a status boosts.
#[derive(Debug)]
pub struct Reblog {
    pub content: String,
}

/// The account that posted a status.
#[derive(Debug)]
pub struct Account {
    pub acct: String,
}

/// A status as Mastodon returns it; `created_at` is an instant.
#[derive(Debug)]
pub struct Status {
    pub id: u64,
    pub content: String,
    pub account: Account,
    pub media_attachments: Vec<MediaAttachment>,
    pub reblog: Option<Reblog>,
    pub created_at: Instant,
}

/// The account of the credentials in use.
#[derive(Debug)]
pub struct CredentialAccount {
    pub id: String,
    pub username: String,
    pub acct: String,
    pub display_name: String,
    pub locked: bool,
    pub bot: bool,
    pub created_at: String,
    pub note: String,
    pub url: String,
    pub avatar: String,
    pub avatar_static: String,
    pub header: String,
    pub header_static: String,
    pub followers_count: i64,
    pub following_count: i64,
    pub statuses_count: i64,
    pub last_status_at: Option<String>,
}

/// The descriptions of the attachments that have one, in order.
pub open spec fn spec_media_descriptions(attachments: Seq<MediaAttachment>) -> Seq<Seq<char>>
    decreases attachments.len(),
{
    if attachments.len() == 0 {
        seq![]
    } else {
        let rest = spec_media_descriptions(attachments.drop_first());
        match attachments[0].description {
            Some(d) => seq![d@] + rest,
            None => rest,
        }
    }
}

impl Status {
    /// The content shown: that of the boosted status, if this is a boost.
    pub fn content(&self) -> (r: &str)
        ensures
            r@ == match self.reblog {
                Some(b) => b.content@,
                None => self.content@,
            },
    {
        match &self.reblog {
            Some(b) => b.content.as_str(),
            None => self.content.as_str(),
        }
    }

    /// The descriptions of the attachments that have one.
    pub fn media_descriptions(&self) -> (r: Vec<&str>)
        ensures
            r@.map_values(|d: &str| d@) == spec_media_descriptions(self.media_attachments@),
    {
        let ghost all = self.media_attachments@;
        let mut out: Vec<&str> = Vec::new();
        let n = self.media_attachments.len();
        let mut k = n;
        assert(all.skip(n as int) =~= Seq::<MediaAttachment>::empty());
        while k > 0
            invariant
                n == all.len(),
                all == self.media_attachments@,
                k <= n,
                out@.map_values(|d: &str| d@) == spec_media_descriptions(all.skip(k as int)),
            decreases k,
        {
            k = k - 1;
            let ghost rest = all.skip(k as int);
            assert(rest.drop_first() =~= all.skip(k + 1));
            let ghost before = out@;
            match &self.media_attachments[k].description {
                Some(d) => {
                    out.insert(0, d.as_str());
                    assert(out@.map_values(|d: &str| d@) =~= seq![d@] + before.map_values(|d: &str| d@));
                },
                None => {},
            }
        }
        assert(all.skip(0) =~= all);
        out
    }
}

/// Reads the identifier of a status, written as a decimal string.
pub fn parse_status_id(text: &str) -> (r: Option<u64>)
    ensures
        r == spec_parse_u64(text.spec_bytes()),
{
    parse_u64(text)
}

/// Reads the creation date of a status, written in RFC 3339.
pub fn parse_created_at(text: &str) -> (r: Option<Instant>)
    ensures
        r == rfc3339_instant(text@),
{
    parse_rfc3339(text)
}

} // verus!
