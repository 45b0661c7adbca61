use dayz_community_hub_core::api::{Endpoint, Server};
use dayz_community_hub_core::config::{Favorite, History};
use dayz_community_hub_core::ping::{
    manual_timeout, ping_order, ping_outcome, ping_targets, scan_limits, PingScan,
};

#[test]
fn scan_limit_defaults_and_clamps() {
    assert_eq!(scan_limits(PingScan::Background, None, None), (64, 2000));
    assert_eq!(scan_limits(PingScan::Visible, None, None), (10, 5000));
    assert_eq!(scan_limits(PingScan::Background, Some(1), Some(99_999)), (5, 5000));
    assert_eq!(scan_limits(PingScan::Visible, Some(500), Some(10)), (100, 1000));
    assert_eq!(scan_limits(PingScan::Background, Some(150), Some(3000)), (150, 3000));
    assert_eq!(manual_timeout(None), 10_000);
    assert_eq!(manual_timeout(Some(42)), 42);
}

#[test]
fn scan_target_parsing() {
    let t: Vec<String> = ["1.2.3.4:2302", "bad", "::1:27016", "x:y"].iter().map(|s| s.to_string()).collect();
    let r = ping_targets(&t);
    assert_eq!(
        r,
        vec![
            ("1.2.3.4".to_string(), 2302, "1.2.3.4:2302".to_string()),
            ("::1".to_string(), 27016, "::1:27016".to_string()),
        ]
    );
}

#[test]
fn ping_outcomes() {
    let ok = ping_outcome(Some((35, 10, 60)));
    assert_eq!((ok.ms, ok.players, ok.max_players, ok.failed), (35, Some(10), Some(60), false));
    let failed = ping_outcome(None);
    assert_eq!((failed.ms, failed.players, failed.max_players, failed.failed), (9999, None, None, true));
}

#[test]
fn known_servers_pinged_first() {
    let s = |ip: &str, port: i64| Server { endpoint: Endpoint { ip: ip.into(), port }, ..Default::default() };
    let servers = vec![s("1.1.1.1", 27016), s("2.2.2.2", 27016), s("3.3.3.3", 27016), s("4.4.4.4", 27016)];
    let favs = vec![Favorite { name: "F".into(), ip: "3.3.3.3".into(), port: 27016, password: None }];
    let hist = vec![
        History { name: "H".into(), ip: "2.2.2.2".into(), port: 27016, ts: 0, extra: None },
        History { name: "G".into(), ip: "4.4.4.4".into(), port: 2302, ts: 0, extra: None },
    ];
    let order = ping_order(&servers, &favs, &hist);
    assert_eq!(order, vec![1, 2, 0, 3]);
    let mut sorted = order.clone();
    sorted.sort();
    assert_eq!(sorted, vec![0, 1, 2, 3]);
}
