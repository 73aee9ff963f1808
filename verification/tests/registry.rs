use modality_ctf::attrs::{EventAttrKey, TimelineAttrKey};
use modality_ctf::client::{
    normalize_event_key, normalize_timeline_key, Client, InternedAttrKey, KeyLookup,
};
use modality_ctf::config::AttrKeyRename;

#[test]
fn normalize_keys_add_missing_namespace_prefixes() {
    assert_eq!(normalize_timeline_key("foo".to_string()), "timeline.foo");
    assert_eq!(
        normalize_timeline_key("timeline.foo".to_string()),
        "timeline.foo"
    );
    assert_eq!(normalize_event_key("bar".to_string()), "event.bar");
    assert_eq!(normalize_event_key("event.bar".to_string()), "event.bar");
}

#[test]
fn canonical_key_strings() {
    assert_eq!(TimelineAttrKey::Name.canonical_string(), "timeline.name");
    assert_eq!(
        TimelineAttrKey::TraceEnv("hostname".to_string()).canonical_string(),
        "timeline.internal.ctf.trace.env.hostname"
    );
    assert_eq!(
        TimelineAttrKey::Custom("ci_run".to_string()).canonical_string(),
        "timeline.ci_run"
    );
    assert_eq!(
        EventAttrKey::CommonContext("cpu_id".to_string()).canonical_string(),
        "event.internal.ctf.common_context.cpu_id"
    );
    assert_eq!(
        EventAttrKey::Field("payload_field".to_string()).canonical_string(),
        "event.payload_field"
    );
}

#[test]
fn interning_declares_each_final_key_once() {
    let client = Client::new(vec![], vec![]);
    let mut client = client;
    let key = EventAttrKey::Field("speed".to_string());

    // First lookup asks for one declaration of the final string.
    let mut declares = 0;
    let s = match client.interned_event_key(&key) {
        KeyLookup::Declare(s) => {
            declares += 1;
            s
        }
        KeyLookup::Interned(_) => panic!("nothing was declared yet"),
    };
    assert_eq!(s, "event.speed");
    client.insert_event_key(&key, InternedAttrKey { id: 7 });

    // The second lookup of the same logical key is a cache hit.
    match client.interned_event_key(&key) {
        KeyLookup::Interned(h) => assert_eq!(h.id, 7),
        KeyLookup::Declare(_) => declares += 1,
    }
    assert_eq!(declares, 1);
}

#[test]
fn rename_applies_before_cache_lookup() {
    let renames = vec![AttrKeyRename {
        original: "old_name".to_string(),
        new: "new_name".to_string(),
    }];
    let mut client = Client::new(vec![], renames);

    // The renamed-from spelling resolves to the renamed-to final string.
    let old_key = EventAttrKey::Field("old_name".to_string());
    let s = match client.interned_event_key(&old_key) {
        KeyLookup::Declare(s) => s,
        KeyLookup::Interned(_) => panic!("nothing was declared yet"),
    };
    assert_eq!(s, "event.new_name");
    client.insert_event_key(&old_key, InternedAttrKey { id: 3 });

    // Both spellings now hit the same single cache entry.
    match client.interned_event_key(&old_key) {
        KeyLookup::Interned(h) => assert_eq!(h.id, 3),
        KeyLookup::Declare(_) => panic!("must not re-declare a renamed key"),
    }
    let new_key = EventAttrKey::Field("new_name".to_string());
    match client.interned_event_key(&new_key) {
        KeyLookup::Interned(h) => assert_eq!(h.id, 3),
        KeyLookup::Declare(_) => panic!("renamed-to spelling must share the cache entry"),
    }
    assert_eq!(client.event_keys.len(), 1);
}

#[test]
fn timeline_keys_cache_separately_from_event_keys() {
    let mut client = Client::new(vec![], vec![]);
    let key = TimelineAttrKey::RunId;
    match client.interned_timeline_key(&key) {
        KeyLookup::Declare(s) => assert_eq!(s, "timeline.run_id"),
        KeyLookup::Interned(_) => panic!("nothing was declared yet"),
    }
    client.insert_timeline_key(&key, InternedAttrKey { id: 1 });
    match client.interned_timeline_key(&key) {
        KeyLookup::Interned(h) => assert_eq!(h.id, 1),
        KeyLookup::Declare(_) => panic!("must not re-declare"),
    }
    assert_eq!(client.event_keys.len(), 0);
}
