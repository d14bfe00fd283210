//! Service records: state display, filtering and search.
//!
//! Listing the services themselves is the caller's job (it runs the
//! service manager's query commands); the records it builds are filtered
//! and searched here by fully specified computations.

use vstd::prelude::*;
use vstd::string::StringExecFns;

use crate::strutil::{contains_seq, str_contains};

verus! {

/// The running state of a service.
#[derive(Debug, Clone, Copy, PartialEq, Eq, Structural)]
pub enum ServiceState {
    Active,
    Inactive,
    Failed,
    Unknown,
}

impl ServiceState {
    /// The state's display name.
    pub open spec fn spec_as_str(self) -> Seq<char> {
        match self {
            ServiceState::Active => "Active"@,
            ServiceState::Inactive => "Inactive"@,
            ServiceState::Failed => "Failed"@,
            ServiceState::Unknown => "Unknown"@,
        }
    }

    /// Returns the display name, exactly as `spec_as_str` describes.
    pub fn as_str(&self) -> (r: &'static str)
        ensures
            r@ == self.spec_as_str(),
    {
        match self {
            ServiceState::Active => "Active",
            ServiceState::Inactive => "Inactive",
            ServiceState::Failed => "Failed",
            ServiceState::Unknown => "Unknown",
        }
    }

    /// The state's icon name.
    pub open spec fn spec_icon(self) -> Seq<char> {
        match self {
            ServiceState::Active => "emblem-ok-symbolic"@,
            ServiceState::Inactive => "media-playback-pause-symbolic"@,
            ServiceState::Failed => "dialog-error-symbolic"@,
            ServiceState::Unknown => "dialog-question-symbolic"@,
        }
    }

    /// Returns the icon name, exactly as `spec_icon` describes.
    pub fn icon(&self) -> (r: &'static str)
        ensures
            r@ == self.spec_icon(),
    {
        match self {
            ServiceState::Active => "emblem-ok-symbolic",
            ServiceState::Inactive => "media-playback-pause-symbolic",
            ServiceState::Failed => "dialog-error-symbolic",
            ServiceState::Unknown => "dialog-question-symbolic",
        }
    }
}

/// One service record as the caller's listing builds it.
#[derive(Debug, Clone)]
pub struct ServiceInfo {
    pub name: String,
    pub description: String,
    pub state: ServiceState,
    pub enabled: bool,
}

/// A field-for-field copy of a record, equal to the original.
fn clone_service(s: &ServiceInfo) -> (r: ServiceInfo)
    ensures
        r == *s,
{
    ServiceInfo {
        name: s.name.clone(),
        description: s.description.clone(),
        state: s.state,
        enabled: s.enabled,
    }
}

/// The records whose state equals `state`, in input order.
pub open spec fn matching_services(s: Seq<ServiceInfo>, state: ServiceState) -> Seq<ServiceInfo>
    decreases s.len(),
{
    if s.len() == 0 {
        seq![]
    } else {
        let rest = matching_services(s.drop_last(), state);
        if s.last().state == state {
            rest.push(s.last())
        } else {
            rest
        }
    }
}

/// Filters the records by state, exactly as `matching_services` describes.
pub fn filter_services_by_state(services: &[ServiceInfo], state: &ServiceState) -> (r: Vec<
    ServiceInfo,
>)
    ensures
        r@ == matching_services(services@, *state),
{
    let mut r: Vec<ServiceInfo> = Vec::new();
    let mut i: usize = 0;
    proof {
        assert(services@.take(0) =~= Seq::<ServiceInfo>::empty());
    }
    while i < services.len()
        invariant
            0 <= i <= services@.len(),
            r@ == matching_services(services@.take(i as int), *state),
        decreases services@.len() - i,
    {
        proof {
            assert(services@.take(i + 1).drop_last() =~= services@.take(i as int));
            assert(services@.take(i + 1).last() == services@[i as int]);
        }
        if services[i].state == *state {
            r.push(clone_service(&services[i]));
        }
        i += 1;
    }
    proof {
        assert(services@.take(services@.len() as int) =~= services@);
    }
    r
}

/// What lowercasing yields; the result depends on the characters alone.
pub uninterp spec fn lower_of(s: Seq<char>) -> Seq<char>;

/// Relies on `str::to_lowercase`: the lowercase mapping of exactly the
/// given characters, depending on the characters alone.
#[verifier::external_body]
fn to_lowercase(s: &str) -> (r: String)
    ensures
        r@ == lower_of(s@),
{
    s.to_lowercase()
}

/// Whether a record's lowercased name contains the lowercased query.
pub open spec fn search_matches(s: ServiceInfo, lowered_query: Seq<char>) -> bool {
    contains_seq(lower_of(s.name@), lowered_query)
}

/// The records whose lowercased name contains the lowercased query, in
/// input order.
pub open spec fn matching_search(s: Seq<ServiceInfo>, lowered_query: Seq<char>) -> Seq<
    ServiceInfo,
>
    decreases s.len(),
{
    if s.len() == 0 {
        seq![]
    } else {
        let rest = matching_search(s.drop_last(), lowered_query);
        if search_matches(s.last(), lowered_query) {
            rest.push(s.last())
        } else {
            rest
        }
    }
}

/// Searches the records by name, case-insensitively: a record is kept
/// exactly when its lowercased name contains the lowercased query.
pub fn search_services(services: &[ServiceInfo], query: &str) -> (r: Vec<ServiceInfo>)
    ensures
        r@ == matching_search(services@, lower_of(query@)),
{
    let lowered_query = to_lowercase(query);
    let mut r: Vec<ServiceInfo> = Vec::new();
    let mut i: usize = 0;
    proof {
        assert(services@.take(0) =~= Seq::<ServiceInfo>::empty());
    }
    while i < services.len()
        invariant
            0 <= i <= services@.len(),
            lowered_query@ == lower_of(query@),
            r@ == matching_search(services@.take(i as int), lower_of(query@)),
        decreases services@.len() - i,
    {
        proof {
            assert(services@.take(i + 1).drop_last() =~= services@.take(i as int));
            assert(services@.take(i + 1).last() == services@[i as int]);
        }
        let lowered_name = to_lowercase(services[i].name.as_str());
        if str_contains(lowered_name.as_str(), lowered_query.as_str()) {
            r.push(clone_service(&services[i]));
        }
        i += 1;
    }
    proof {
        assert(services@.take(services@.len() as int) =~= services@);
    }
    r
}

} // verus!
