use syshealth::services::{
    filter_services_by_state, search_services, ServiceInfo, ServiceState,
};

fn service(name: &str, state: ServiceState, enabled: bool) -> ServiceInfo {
    ServiceInfo {
        name: String::from(name),
        description: String::from("desc"),
        state,
        enabled,
    }
}

#[test]
fn state_display_names() {
    assert_eq!(ServiceState::Active.as_str(), "Active");
    assert_eq!(ServiceState::Inactive.as_str(), "Inactive");
    assert_eq!(ServiceState::Failed.as_str(), "Failed");
    assert_eq!(ServiceState::Unknown.as_str(), "Unknown");
}

#[test]
fn state_icons() {
    assert_eq!(ServiceState::Active.icon(), "emblem-ok-symbolic");
    assert_eq!(ServiceState::Inactive.icon(), "media-playback-pause-symbolic");
    assert_eq!(ServiceState::Failed.icon(), "dialog-error-symbolic");
    assert_eq!(ServiceState::Unknown.icon(), "dialog-question-symbolic");
}

#[test]
fn filtering_by_state() {
    let services = vec![
        service("a", ServiceState::Active, true),
        service("b", ServiceState::Inactive, false),
        service("c", ServiceState::Active, false),
        service("d", ServiceState::Failed, true),
    ];
    let active = filter_services_by_state(&services, &ServiceState::Active);
    assert_eq!(active.len(), 2);
    assert_eq!(active[0].name, "a");
    assert_eq!(active[1].name, "c");
    let failed = filter_services_by_state(&services, &ServiceState::Failed);
    assert_eq!(failed.len(), 1);
    assert_eq!(failed[0].name, "d");
    let unknown = filter_services_by_state(&services, &ServiceState::Unknown);
    assert_eq!(unknown.len(), 0);
}

#[test]
fn search_is_case_insensitive() {
    let services = vec![
        service("NetworkManager", ServiceState::Active, true),
        service("ssh", ServiceState::Active, true),
        service("cron", ServiceState::Inactive, true),
    ];
    // An uppercase query must still match a lowercase name: this fails if
    // lowercasing ever returns its input unchanged.
    let hits = search_services(&services, "SSH");
    assert_eq!(hits.len(), 1);
    assert_eq!(hits[0].name, "ssh");
    let hits = search_services(&services, "network");
    assert_eq!(hits.len(), 1);
    assert_eq!(hits[0].name, "NetworkManager");
    let hits = search_services(&services, "");
    assert_eq!(hits.len(), 3);
    let hits = search_services(&services, "nope");
    assert_eq!(hits.len(), 0);
}
