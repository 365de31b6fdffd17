//! Domain models around tweets that this core exposes.

use vstd::prelude::*;

verus! {

/// A user listed as contributor of a tweet.  Two contributors are the
/// same exactly when their ids are equal.
#[derive(Clone, Debug, Eq)]
pub struct Contributor {
    pub id: i64,
    pub screen_name: String,
}

impl PartialEq for Contributor {
    fn eq(&self, other: &Contributor) -> (r: bool) {
        self.id == other.id
    }
}

impl vstd::std_specs::cmp::PartialEqSpecImpl for Contributor {
    open spec fn obeys_eq_spec() -> bool {
        true
    }

    open spec fn eq_spec(&self, other: &Contributor) -> bool {
        self.id == other.id
    }
}

/// The current user's own retweet of a tweet, reported by id.
#[derive(Clone, Copy, Debug, PartialEq, Eq, Structural)]
pub struct CurrentUserRetweet {
    pub id: i64,
}

/// The oEmbed rendering of a tweet.
#[derive(Clone, Debug)]
pub struct OEmbed {
    pub cache_age: String,
    pub url: String,
    pub provider_url: String,
    pub provider_name: String,
    pub author_name: String,
    pub version: String,
    pub author_url: String,
    pub type_: String,
    pub html: String,
    pub height: Option<i32>,
    pub width: Option<i32>,
}

} // verus!
