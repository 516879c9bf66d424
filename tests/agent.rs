use sysmonitor::{
    fan_out, plan_tick, settle, AgentIdentity, Delivery, LinkDefinition, SubscriberRegistry,
    SysmonitorBasicProvider, SystemMetrics, TickAction, TICK_INTERVAL_SECS,
};

fn link(actor: &str, link_name: &str) -> LinkDefinition {
    LinkDefinition {
        actor_id: actor.to_string(),
        provider_id: "VSYSMON".to_string(),
        link_name: link_name.to_string(),
        contract_id: "wasmcloud:sysmonitor".to_string(),
        values: vec![("interval".to_string(), "10".to_string())],
    }
}

fn stub_metrics() -> SystemMetrics {
    SystemMetrics {
        num_cpu: Some(4),
        cpu_usage_percentage_bits: Some(12.5f32.to_bits()),
        memory: Some(16_000),
        free_memory: Some(6_000),
        used_memory: Some(10_000),
        swap: None,
        used_swap: None,
    }
}

fn identity() -> AgentIdentity {
    AgentIdentity::new("instance-1".to_string(), Some("host-a".to_string()))
}

/// The deliveries a tick of `provider` produces with `metrics`, or none when
/// the tick is skipped.
fn run_tick(provider: &SysmonitorBasicProvider, metrics: SystemMetrics) -> Vec<Delivery> {
    match provider.tick() {
        TickAction::Skip => Vec::new(),
        TickAction::Sample(snapshot) => fan_out(&snapshot, provider.identity(), metrics),
    }
}

fn subscribers_of(round: &[Delivery]) -> Vec<String> {
    let mut ids: Vec<String> = round.iter().map(|d| d.subscriber.clone()).collect();
    ids.sort();
    ids
}

#[test]
fn empty_then_add_then_swap_scenario() {
    let mut provider =
        SysmonitorBasicProvider::new("instance-1".to_string(), Some("host-a".to_string()));
    assert!(run_tick(&provider, stub_metrics()).is_empty());

    assert!(provider.put_link(link("A", "default")));
    let round = run_tick(&provider, stub_metrics());
    assert_eq!(round.len(), 1);
    assert_eq!(round[0].subscriber, "A");
    assert_eq!(round[0].event.system.unwrap().num_cpu, Some(4));

    assert!(provider.put_link(link("B", "default")));
    provider.delete_link("A");
    let round = run_tick(&provider, stub_metrics());
    assert_eq!(subscribers_of(&round), vec!["B".to_string()]);
    assert_eq!(round[0].link.actor_id, "B");
}

#[test]
fn empty_registry_skips_the_tick() {
    let registry = SubscriberRegistry::new();
    assert!(registry.is_empty());
    assert!(matches!(plan_tick(&registry), TickAction::Skip));
}

#[test]
fn one_delivery_per_subscriber_with_the_same_event() {
    let mut registry = SubscriberRegistry::new();
    for name in ["a", "b", "c"] {
        registry.insert(name.to_string(), link(name, "default"));
    }
    let snapshot = match plan_tick(&registry) {
        TickAction::Sample(s) => s,
        TickAction::Skip => panic!("a registry with three links was skipped"),
    };
    assert_eq!(snapshot.len(), 3);
    let round = fan_out(&snapshot, &identity(), stub_metrics());
    assert_eq!(subscribers_of(&round), vec!["a".to_string(), "b".to_string(), "c".to_string()]);
    for d in &round {
        assert_eq!(d.event.uuid, "instance-1");
        assert_eq!(d.event.hostname, "host-a");
        assert_eq!(d.event.system, Some(stub_metrics()));
        assert!(d.event.extra_data.is_none());
        assert_eq!(d.link.actor_id, d.subscriber);
    }
}

#[test]
fn reinsert_replaces_the_link() {
    let mut registry = SubscriberRegistry::new();
    registry.insert("a".to_string(), link("a", "old"));
    registry.insert("a".to_string(), link("a", "new"));
    let snapshot = registry.snapshot();
    assert_eq!(snapshot.len(), 1);
    let round = fan_out(&snapshot, &identity(), stub_metrics());
    assert_eq!(round.len(), 1);
    assert_eq!(round[0].link.link_name, "new");
}

#[test]
fn snapshot_ignores_later_changes() {
    let mut registry = SubscriberRegistry::new();
    registry.insert("a".to_string(), link("a", "default"));
    let snapshot = registry.snapshot();
    registry.remove("a");
    registry.insert("b".to_string(), link("b", "default"));
    assert_eq!(snapshot.len(), 1);
    let (id, l) = snapshot.entry(0);
    assert_eq!(id, "a");
    assert_eq!(l.values, vec![("interval".to_string(), "10".to_string())]);
    let now = registry.snapshot();
    assert_eq!(now.len(), 1);
    assert_eq!(now.entry(0).0, "b");
}

#[test]
fn snapshot_reflects_net_effect_of_changes() {
    let mut registry = SubscriberRegistry::new();
    registry.insert("a".to_string(), link("a", "1"));
    registry.insert("b".to_string(), link("b", "1"));
    registry.remove("a");
    registry.insert("c".to_string(), link("c", "1"));
    registry.insert("b".to_string(), link("b", "2"));
    registry.remove("c");
    registry.insert("a".to_string(), link("a", "3"));
    let snapshot = registry.snapshot();
    let mut entries: Vec<(String, String)> = (0..snapshot.len())
        .map(|i| {
            let (id, l) = snapshot.entry(i);
            (id.clone(), l.link_name.clone())
        })
        .collect();
    entries.sort();
    assert_eq!(
        entries,
        vec![("a".to_string(), "3".to_string()), ("b".to_string(), "2".to_string())]
    );
}

#[test]
fn removing_an_absent_id_changes_nothing() {
    let mut registry = SubscriberRegistry::new();
    registry.remove("ghost");
    assert!(registry.is_empty());
    registry.insert("a".to_string(), link("a", "default"));
    registry.remove("ghost");
    assert!(!registry.is_empty());
    assert_eq!(registry.snapshot().len(), 1);
}

#[test]
fn a_failed_publish_is_reported_with_its_subscriber() {
    let mut registry = SubscriberRegistry::new();
    registry.insert("a".to_string(), link("a", "default"));
    registry.insert("b".to_string(), link("b", "default"));
    let round = fan_out(&registry.snapshot(), &identity(), stub_metrics());
    let failed = round.iter().position(|d| d.subscriber == "a").unwrap();
    let reports: Vec<_> = round
        .iter()
        .enumerate()
        .map(|(i, d)| {
            let outcome = if i == failed { Err("timed out".to_string()) } else { Ok(()) };
            settle(d, outcome)
        })
        .collect();
    let report = reports[failed].as_ref().unwrap();
    assert_eq!(report.subscriber, "a");
    assert_eq!(report.error, "timed out");
    assert!(reports[1 - failed].is_none());
    assert_eq!(round[1 - failed].subscriber, "b");
    assert_eq!(round[1 - failed].event.system, Some(stub_metrics()));
}

#[test]
fn missing_fields_pass_through() {
    let mut registry = SubscriberRegistry::new();
    registry.insert("a".to_string(), link("a", "default"));
    let partial = SystemMetrics {
        num_cpu: None,
        cpu_usage_percentage_bits: None,
        memory: Some(1),
        free_memory: None,
        used_memory: None,
        swap: None,
        used_swap: None,
    };
    let round = fan_out(&registry.snapshot(), &identity(), partial);
    assert_eq!(round[0].event.system, Some(partial));
}

#[test]
fn hostname_falls_back_to_a_fresh_uuid() {
    let named = AgentIdentity::new("id".to_string(), Some("box".to_string()));
    assert_eq!(named.hostname, "box");
    assert_eq!(named.instance_id, "id");
    let first = AgentIdentity::new("id".to_string(), None);
    let second = AgentIdentity::new("id".to_string(), None);
    for h in [&first.hostname, &second.hostname] {
        assert_eq!(h.len(), 36);
        for (i, c) in h.chars().enumerate() {
            if [8, 13, 18, 23].contains(&i) {
                assert_eq!(c, '-');
            } else {
                assert!(c.is_ascii_digit() || ('a'..='f').contains(&c));
            }
        }
    }
    assert_ne!(first.hostname, second.hostname);
}

#[test]
fn put_link_approves_and_keys_by_actor() {
    let mut provider = SysmonitorBasicProvider::new("i".to_string(), None);
    assert!(provider.put_link(link("actor", "default")));
    assert!(provider.put_link(link("actor", "other")));
    let round = run_tick(&provider, stub_metrics());
    assert_eq!(round.len(), 1);
    assert_eq!(round[0].link.link_name, "other");
    provider.delete_link("actor");
    assert!(run_tick(&provider, stub_metrics()).is_empty());
}

#[test]
fn duplicate_copies_every_field() {
    let l = link("a", "default");
    let d = l.duplicate();
    assert_eq!(d.actor_id, l.actor_id);
    assert_eq!(d.provider_id, l.provider_id);
    assert_eq!(d.link_name, l.link_name);
    assert_eq!(d.contract_id, l.contract_id);
    assert_eq!(d.values, l.values);
}

#[test]
fn ticks_every_ten_seconds() {
    assert_eq!(TICK_INTERVAL_SECS, 10);
}
