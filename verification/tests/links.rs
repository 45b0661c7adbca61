use dayz_community_hub_core::dzch::{DzchConfig, DzchMod, DZCH_VERSION};
use dayz_community_hub_core::error::Error;

fn sample() -> DzchConfig {
    DzchConfig {
        version: DZCH_VERSION,
        ip: "203.0.113.5".to_string(),
        port: 2402,
        query_port: Some(27016),
        name: "My Server & Friends".to_string(),
        password: Some("p@ss word".to_string()),
        mods: vec![
            DzchMod { id: 1559212036, name: "CF".to_string() },
            DzchMod { id: 1564026768, name: String::new() },
        ],
    }
}

#[test]
fn to_url_encodes_every_field() {
    assert_eq!(
        sample().to_url(),
        "dzch://203.0.113.5:2402?qport=27016&name=My%20Server%20%26%20Friends&password=p%40ss%20word&mods=1559212036,1564026768"
    );
}

#[test]
fn to_url_of_bare_server() {
    let c = DzchConfig {
        version: 1,
        ip: "host.example".to_string(),
        port: 2302,
        query_port: None,
        name: String::new(),
        password: Some(String::new()),
        mods: vec![],
    };
    assert_eq!(c.to_url(), "dzch://host.example:2302");
}

#[test]
fn link_round_trip() {
    let c = sample();
    let back = DzchConfig::from_url(&c.to_url()).unwrap();
    assert_eq!(back.version, DZCH_VERSION);
    assert_eq!(back.ip, c.ip);
    assert_eq!(back.port, c.port);
    assert_eq!(back.query_port, c.query_port);
    assert_eq!(back.name, c.name);
    assert_eq!(back.password, c.password);
    let ids: Vec<i64> = back.mods.iter().map(|m| m.id).collect();
    assert_eq!(ids, [1559212036, 1564026768]);
    assert!(back.mods.iter().all(|m| m.name.is_empty()));
}

#[test]
fn from_url_defaults_port_and_ignores_unknown() {
    let c = DzchConfig::from_url("dzch://1.2.3.4/?foo=bar&pw=x&&mods=5, 6,z").unwrap();
    assert_eq!(c.ip, "1.2.3.4");
    assert_eq!(c.port, 2302);
    assert_eq!(c.password.as_deref(), Some("x"));
    assert_eq!(c.query_port, None);
    let ids: Vec<i64> = c.mods.iter().map(|m| m.id).collect();
    assert_eq!(ids, [5, 6]);
}

#[test]
fn from_url_bad_query_port_is_dropped() {
    let c = DzchConfig::from_url("dzch://h:1?query_port=99999").unwrap();
    assert_eq!(c.query_port, None);
    let c = DzchConfig::from_url("dzch://h:1?query_port=7").unwrap();
    assert_eq!(c.query_port, Some(7));
}

#[test]
fn from_url_rejects_other_schemes() {
    match DzchConfig::from_url("http://1.2.3.4:2302") {
        Err(Error::Other(m)) => assert_eq!(m, "not a dzch:// URL"),
        other => panic!("unexpected {:?}", other),
    }
}

#[test]
fn from_url_rejects_bad_port() {
    match DzchConfig::from_url("dzch://1.2.3.4:70000") {
        Err(Error::Other(m)) => assert_eq!(m, "invalid port in dzch URL: 70000"),
        other => panic!("unexpected {:?}", other),
    }
}

#[test]
fn from_url_decodes_percent_escapes() {
    let c = DzchConfig::from_url("dzch://h:1?name=a%20b%26c%3Dd%2F%C3%A9&password=%40").unwrap();
    assert_eq!(c.name, "a b&c=d/\u{e9}");
    assert_eq!(c.password.as_deref(), Some("@"));
}

#[test]
fn from_url_keeps_undecodable_value() {
    let c = DzchConfig::from_url("dzch://h:1?name=%FF").unwrap();
    assert_eq!(c.name, "%FF");
}
