//! Tests of the site directory, the event dispatcher, the topic, and the
//! site-name choice.

use site_announce::crypto::Identity;
use site_announce::dispatch::{
    announce_site, get_site_name, handle_network_event, DispatchError, NetworkEvent,
};
use site_announce::messages::{Message, Payload};
use site_announce::site_messages::SiteNotification;
use site_announce::sites::{SiteRecord, Sites};
use site_announce::topic::ChatTopic;

fn snapshot(sites: &Sites) -> Vec<(String, u64)> {
    sites
        .list()
        .iter()
        .map(|r: &SiteRecord| (r.site_name.clone(), r.last_seen))
        .collect()
}

#[test]
fn register_is_idempotent() {
    let mut sites = Sites::build();
    sites.register("alpha".to_owned());
    sites.register("alpha".to_owned());
    let listed = snapshot(&sites);
    assert_eq!(listed.len(), 1);
    assert_eq!(listed[0].0, "alpha");
    // the second registration refreshed the stamp
    assert_eq!(listed[0].1, 1);
}

#[test]
fn list_counts_distinct_names() {
    let mut sites = Sites::build();
    for name in ["alpha", "beta", "alpha", "gamma", "beta", "alpha"] {
        sites.register(name.to_owned());
    }
    assert_eq!(snapshot(&sites).len(), 3);
}

#[test]
fn list_is_sorted_regardless_of_arrival() {
    let mut forward = Sites::build();
    let mut backward = Sites::build();
    for name in ["alpha", "bravo", "charlie"] {
        forward.register(name.to_owned());
    }
    for name in ["charlie", "bravo", "alpha"] {
        backward.register(name.to_owned());
    }
    let names: Vec<String> = snapshot(&forward).into_iter().map(|p| p.0).collect();
    let names_b: Vec<String> = snapshot(&backward).into_iter().map(|p| p.0).collect();
    assert_eq!(names, vec!["alpha", "bravo", "charlie"]);
    assert_eq!(names_b, names);
}

#[test]
fn stamps_follow_registration_order() {
    let mut sites = Sites::build();
    sites.register("zulu".to_owned());
    sites.register("alpha".to_owned());
    let listed = snapshot(&sites);
    assert_eq!(listed, vec![("alpha".to_owned(), 1), ("zulu".to_owned(), 0)]);
}

#[test]
fn happy_path_registers_rosa() {
    let identity = Identity::generate();
    let bytes = announce_site(&identity, "rosa");
    let mut sites = Sites::build();
    let result = handle_network_event(NetworkEvent::GossipMessage { bytes }, &mut sites);
    let message = result.expect("a well-signed registration must be accepted");
    match &message.payload {
        Payload::SiteRegistration(r) => assert_eq!(r.site_name, "rosa"),
        _ => panic!("wrong payload variant"),
    }
    assert_eq!(snapshot(&sites), vec![("rosa".to_owned(), 0)]);
}

#[test]
fn notification_is_inert() {
    let identity = Identity::generate();
    let mut sites = Sites::build();
    sites.register("resident".to_owned());
    let before = snapshot(&sites);
    let bytes = Message::sign_and_encode(
        &identity,
        Payload::SiteNotification(SiteNotification {
            notification: "hello".to_owned(),
        }),
    );
    let result = handle_network_event(NetworkEvent::GossipMessage { bytes }, &mut sites);
    assert!(result.is_ok());
    assert_eq!(snapshot(&sites), before);
}

#[test]
fn corrupted_broadcast_is_survivable() {
    let mut sites = Sites::build();
    sites.register("resident".to_owned());
    let before = snapshot(&sites);
    let garbage = vec![0xDEu8, 0xAD, 0xBE, 0xEF];
    let result = handle_network_event(NetworkEvent::GossipMessage { bytes: garbage }, &mut sites);
    assert_eq!(result.unwrap_err(), DispatchError::DecodeError);
    assert_eq!(snapshot(&sites), before);
    // the dispatcher keeps going: the next, valid event still lands
    let identity = Identity::generate();
    let bytes = announce_site(&identity, "rosa");
    assert!(handle_network_event(NetworkEvent::GossipMessage { bytes }, &mut sites).is_ok());
    assert_eq!(snapshot(&sites).len(), 2);
}

#[test]
fn sync_event_is_survivable() {
    let mut sites = Sites::build();
    sites.register("resident".to_owned());
    let before = snapshot(&sites);
    let result = handle_network_event(NetworkEvent::SyncMessage, &mut sites);
    assert_eq!(result.unwrap_err(), DispatchError::TransportCategoryError);
    assert_eq!(snapshot(&sites), before);
}

#[test]
fn tampered_broadcast_is_rejected_and_inert() {
    let identity = Identity::generate();
    let mut bytes = announce_site(&identity, "rosa");
    let last = bytes.len() - 1;
    bytes[last] ^= 0x02;
    let mut sites = Sites::build();
    let result = handle_network_event(NetworkEvent::GossipMessage { bytes }, &mut sites);
    assert_eq!(result.unwrap_err(), DispatchError::SignatureError);
    assert_eq!(snapshot(&sites).len(), 0);
}

#[test]
fn site_name_prefers_argument() {
    let chosen = get_site_name(Some("rosa".to_owned()), "machine-7".to_owned());
    assert_eq!(chosen, "rosa");
    let fallback = get_site_name(None, "machine-7".to_owned());
    assert_eq!(fallback, "machine-7");
}

#[test]
fn topic_id_is_a_digest_of_the_name() {
    let a = ChatTopic::new("site_management");
    let b = ChatTopic::new("site_management");
    let c = ChatTopic::new("something_else");
    assert_eq!(a.name(), "site_management");
    assert_eq!(a.id().len(), 32);
    assert_eq!(a.id(), b.id());
    assert_ne!(a.id(), c.id());
    assert_ne!(&a.id()[..], "site_management".as_bytes());
}
