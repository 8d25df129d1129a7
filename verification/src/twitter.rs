//! The Twitter network: its support is not built, so it posts nothing and
//! refuses what is asked of it.
use vstd::prelude::*;
use vstd::string::*;

use crate::delay::ErrorMessage;
use crate::feed::NewFeedItem;
use crate::models::Service;
use crate::social_network::PotentialPost;

verus! {

/// The Twitter network, without support.
#[derive(Debug, Clone, Copy)]
pub struct Twitter;

/// What Twitter answers every request with.
pub open spec fn spec_twitter_disabled() -> Seq<char> {
    "Twitter support is not enabled"@
}

impl Twitter {
    /// The service this network is.
    pub fn service(&self) -> (r: Service)
        ensures
            r == Service::Twitter,
    {
        Service::Twitter
    }

    /// Twitter is never written to.
    pub fn is_writeable(&self) -> (r: bool)
        ensures
            !r,
    {
        false
    }

    /// Registering is refused.
    pub fn register() -> (r: Result<(), ErrorMessage>)
        ensures
            r matches Err(e) && e.0@ == spec_twitter_disabled(),
    {
        Err(ErrorMessage(String::from_str("Twitter support is not enabled")))
    }

    /// No post can be prepared.
    pub fn prepare_post(&self, item: &NewFeedItem) -> (r: Result<PotentialPost, ErrorMessage>)
        ensures
            r matches Err(e) && e.0@ == spec_twitter_disabled(),
    {
        Err(ErrorMessage(String::from_str("Twitter support is not enabled")))
    }
}

} // verus!
