//! The services that posts go to, and the records kept of posts.
use vstd::prelude::*;
use vstd::string::*;

use crate::delay::ErrorMessage;
use crate::text::str_eq;
use crate::time::Instant;

verus! {

/// A post as recorded; dates are instants.
#[derive(Debug)]
pub struct Post {
    pub id: i64,
    pub title: String,
    pub url: String,
    pub twitter_url: Option<String>,
    pub mastodon_url: Option<String>,
    pub author: String,
    pub summary: String,
    pub tweeted_at: Option<Instant>,
    pub tooted_at: Option<Instant>,
    pub created_at: Instant,
    pub updated_at: Instant,
}

/// The category of a post.
#[derive(Debug, Clone, Copy)]
pub struct PostCategory {
    pub id: i64,
    pub post_id: i64,
    pub category_id: i16,
}

/// A social network that posts can go to.
#[derive(Debug, Clone, Copy, PartialEq, Eq, Structural)]
pub enum Service {
    Mastodon,
    Twitter,
}

/// The services that an action applies to.
#[derive(Debug)]
pub enum Services {
    /// Every configured service.
    All,
    /// The services listed.
    Specific(Vec<Service>),
}

/// The number by which a service is stored.
pub open spec fn spec_service_number(s: Service) -> u8 {
    match s {
        Service::Mastodon => 1,
        Service::Twitter => 2,
    }
}

/// The service that a stored number denotes.
pub open spec fn spec_service_of_number(n: u8) -> Option<Service> {
    if n == 1 {
        Some(Service::Mastodon)
    } else if n == 2 {
        Some(Service::Twitter)
    } else {
        None
    }
}

/// The service that a name given by the user denotes.
pub open spec fn spec_service_of_name(name: Seq<char>) -> Option<Service> {
    if name == "mastodon"@ {
        Some(Service::Mastodon)
    } else if name == "twitter"@ {
        Some(Service::Twitter)
    } else {
        None
    }
}

/// The name under which a service is shown.
pub open spec fn spec_service_display(s: Service) -> Seq<char> {
    match s {
        Service::Mastodon => "Mastodon"@,
        Service::Twitter => "Twitter"@,
    }
}

impl Service {
    /// The number by which this service is stored.
    pub fn number(self) -> (n: u8)
        ensures
            n == spec_service_number(self),
    {
        match self {
            Service::Mastodon => 1,
            Service::Twitter => 2,
        }
    }

    /// The service that a stored number denotes.
    pub fn try_from(value: u8) -> (r: Result<Service, ErrorMessage>)
        ensures
            match spec_service_of_number(value) {
                Some(s) => r == Ok::<Service, ErrorMessage>(s),
                None => r matches Err(e) && e.0@ == "invalid service number"@,
            },
    {
        if value == 1 {
            Ok(Service::Mastodon)
        } else if value == 2 {
            Ok(Service::Twitter)
        } else {
            Err(ErrorMessage(String::from_str("invalid service number")))
        }
    }

    /// The service that a name given by the user denotes.
    pub fn from_str(s: &str) -> (r: Result<Service, ErrorMessage>)
        ensures
            match spec_service_of_name(s@) {
                Some(svc) => r == Ok::<Service, ErrorMessage>(svc),
                None => r matches Err(e) && e.0@ == "'"@ + s@ + "' is not a known service"@,
            },
    {
        if str_eq(s, "mastodon") {
            Ok(Service::Mastodon)
        } else if str_eq(s, "twitter") {
            Ok(Service::Twitter)
        } else {
            let mut msg = String::from_str("'");
            msg.append(s);
            msg.append("' is not a known service");
            Err(ErrorMessage(msg))
        }
    }

    /// The name under which this service is shown.
    pub fn to_display_string(self) -> (r: String)
        ensures
            r@ == spec_service_display(self),
    {
        match self {
            Service::Mastodon => String::from_str("Mastodon"),
            Service::Twitter => String::from_str("Twitter"),
        }
    }
}

impl std::str::FromStr for Service {
    type Err = ErrorMessage;

    fn from_str(s: &str) -> (r: Result<Service, ErrorMessage>)
        ensures
            match spec_service_of_name(s@) {
                Some(svc) => r == Ok::<Service, ErrorMessage>(svc),
                None => r matches Err(e) && e.0@ == "'"@ + s@ + "' is not a known service"@,
            },
    {
        Service::from_str(s)
    }
}

/// A service is found again from the number by which it is stored.
pub proof fn law_service_number_round_trip(s: Service)
    ensures
        spec_service_of_number(spec_service_number(s)) == Some(s),
{
}

/// Only the numbers of services denote services.
pub proof fn law_service_numbers_exact(n: u8)
    ensures
        spec_service_of_number(n) matches Some(s) ==> spec_service_number(s) == n,
{
}

} // verus!
