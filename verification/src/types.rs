//! Data model of the feed: one upcoming launch with its metadata and optional
//! scheduled instant, and the error taxonomy of the core.
//!
//! Instants are carried as plain Unix timestamps in seconds; the boundary code
//! that talks to the feed converts its datetime strings to and from these.

use vstd::prelude::*;

verus! {

#[derive(Debug, Clone)]
pub struct Provider {
    pub id: u64,
    pub name: String,
    pub slug: String,
}

#[derive(Debug, Clone)]
pub struct Vehicle {
    pub id: u64,
    pub name: String,
    pub company_id: u64,
    pub slug: String,
}

#[derive(Debug, Clone)]
pub struct Location {
    pub id: u64,
    pub name: String,
    pub state: Option<String>,
    pub state_name: Option<String>,
    pub country: String,
    pub slug: String,
}

#[derive(Debug, Clone)]
pub struct Pad {
    pub id: u64,
    pub name: String,
    pub location: Location,
}

/// Relies on `String::push_str` of std: it appends the characters of `other`.
pub assume_specification[ String::push_str ](s: &mut String, other: &str)
    ensures
        final (s)@ == old(s)@ + other@,
;

impl Pad {
    /// The human-readable place of the pad: location, pad name, the state name
    /// when there is one, and the country.
    pub fn describe(&self) -> (r: String)
        ensures
            r@ == spec_pad_text(self),
    {
        let mut out = self.location.name.clone();
        out.push_str(", ");
        out.push_str(self.name.as_str());
        if let Some(state_name) = &self.location.state_name {
            out.push_str(", ");
            out.push_str(state_name.as_str());
        }
        out.push_str(", ");
        out.push_str(self.location.country.as_str());
        out
    }
}

/// The text `describe` builds for a pad.
pub open spec fn spec_pad_text(p: &Pad) -> Seq<char> {
    let head = p.location.name@ + ", "@ + p.name@;
    let with_state = match p.location.state_name {
        Some(s) => head + ", "@ + s@,
        None => head,
    };
    with_state + ", "@ + p.location.country@
}

#[derive(Debug, Clone)]
pub struct Mission {
    pub id: u64,
    pub name: String,
    pub description: Option<String>,
}

#[derive(Debug, Clone)]
pub struct EstimatedDate {
    pub month: Option<i32>,
    pub day: Option<i32>,
    pub year: Option<i32>,
    pub quarter: Option<i32>,
}

#[derive(Debug, Clone)]
pub struct Tag {
    pub id: u64,
    pub text: String,
}

/// One upcoming launch from the feed. `t0`, `win_open`, `win_close` are the
/// scheduled instant and window as Unix seconds, absent when not yet known;
/// `sort_date` and `modified` are Unix seconds as well.
#[derive(Debug, Clone)]
pub struct Launch {
    pub id: u64,
    pub sort_date: i64,
    pub name: String,
    pub provider: Provider,
    pub vehicle: Vehicle,
    pub pad: Pad,
    pub missions: Vec<Mission>,
    pub mission_description: Option<String>,
    pub launch_description: String,
    pub t0: Option<i64>,
    pub est_date: EstimatedDate,
    pub date_str: String,
    pub tags: Vec<Tag>,
    pub slug: String,
    pub quicktext: String,
    pub suborbital: bool,
    pub win_open: Option<i64>,
    pub win_close: Option<i64>,
    pub modified: i64,
}

/// The batch of launches one fetch returns.
#[derive(Debug, Clone)]
pub struct Launches {
    pub launches: Vec<Launch>,
}

/// How a delivery attempt ended, as classified at the transport boundary.
#[derive(Debug, Clone, PartialEq, Eq, Structural)]
pub enum DeliveryStatus {
    /// Delivery acknowledged.
    Success,
    /// The recipient is structurally unreachable; it is unsubscribed.
    Permanent,
    /// The recipient's chat identifier changed; progress is migrated.
    Migrated(i64),
    /// Rate limiting or a transient network failure; nothing is mutated and
    /// the rest of the notify phase is abandoned for this cycle.
    Transient,
}

/// The error taxonomy of the core.
#[derive(Debug, Clone, PartialEq, Eq, Structural)]
pub enum RLError {
    /// Network or HTTP failure fetching the feed.
    Transport,
    /// Malformed or unexpected feed payload.
    Format,
    /// Store open, read or write failure.
    Storage,
    /// A delivery failed with the given classification.
    Delivery(DeliveryStatus),
}

} // verus!
