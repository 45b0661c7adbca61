use dayz_community_hub_core::battlemetrics::{
    best_ip_match, bm_cache_key, choose_candidate, find_on_ip, history_url, ip_search_url,
    lookup_query, lookup_search, match_score, name_search_url, names_match, server_page_url,
    BmCandidate, BmNext, MAX_SCORE,
};

fn cand(ip: &str, port: i64, query_port: i64, name: &str) -> BmCandidate {
    BmCandidate { ip: ip.to_string(), port, query_port, name: name.to_string() }
}

#[test]
fn scores_by_port_agreement() {
    assert_eq!(match_score(&cand("1.1.1.1", 2302, 27016, ""), 2302, 1), MAX_SCORE);
    assert_eq!(match_score(&cand("1.1.1.1", 1, 27016, ""), 2302, 27016), 3);
    assert_eq!(match_score(&cand("1.1.1.1", 27016, 5, ""), 2302, 27016), 2);
    assert_eq!(match_score(&cand("1.1.1.1", 9, 9, ""), 2302, 27016), 1);
}

#[test]
fn best_match_takes_first_highest_on_ip() {
    let cands = vec![
        cand("2.2.2.2", 2302, 27016, "other ip"),
        cand("1.1.1.1", 9, 9, "weak"),
        cand("1.1.1.1", 9, 27016, "query"),
        cand("1.1.1.1", 9, 27016, "query again"),
        cand("1.1.1.1", 2302, 0, "exact"),
        cand("1.1.1.1", 2302, 0, "exact later"),
    ];
    assert_eq!(best_ip_match(&cands, "1.1.1.1", 2302, 27016), Some((4, MAX_SCORE)));
    let first_four: Vec<BmCandidate> =
        cands[..4].iter().map(|c| cand(&c.ip, c.port, c.query_port, &c.name)).collect();
    assert_eq!(best_ip_match(&first_four, "1.1.1.1", 2302, 27016), Some((2, 3)));
    assert_eq!(best_ip_match(&cands, "3.3.3.3", 2302, 27016), None);
}

#[test]
fn names_agree_case_insensitively() {
    assert!(names_match("[EU] My DayZ Server | PvE", "my dayz server"));
    assert!(names_match("Alpha", "ALPHA one"));
    assert!(names_match("Alpha one", "alpha two"));
    assert!(!names_match("Alpha one", "Beta one"));
    assert!(names_match("", ""));
}

#[test]
fn chooses_candidate_or_name_search() {
    let cands = vec![cand("1.1.1.1", 2302, 27016, "Alpha Server")];
    assert_eq!(choose_candidate(&cands, "1.1.1.1", 2302, 27016, "alpha"), BmNext::UseCandidate(0));
    assert_eq!(choose_candidate(&cands, "1.1.1.1", 2302, 27016, "Beta"), BmNext::SearchByName);
    assert_eq!(choose_candidate(&cands, "1.1.1.1", 2302, 27016, ""), BmNext::UseCandidate(0));
    assert_eq!(choose_candidate(&cands, "9.9.9.9", 2302, 27016, "Beta"), BmNext::SearchByName);
    assert_eq!(choose_candidate(&cands, "9.9.9.9", 2302, 27016, ""), BmNext::NotFound);
}

#[test]
fn finds_first_on_ip() {
    let cands = vec![cand("2.2.2.2", 1, 1, "a"), cand("1.1.1.1", 1, 1, "b"), cand("1.1.1.1", 2, 2, "c")];
    assert_eq!(find_on_ip(&cands, "1.1.1.1"), Some(1));
    assert_eq!(find_on_ip(&cands, "3.3.3.3"), None);
}

#[test]
fn cache_key_joins_with_colons() {
    assert_eq!(bm_cache_key("1.2.3.4", 2302, -1), "1.2.3.4:2302:-1");
}

#[test]
fn request_urls() {
    assert_eq!(
        ip_search_url("1.2.3.4"),
        "https://api.battlemetrics.com/servers?filter[game]=dayz&filter[search]=1.2.3.4&page[size]=50"
    );
    assert_eq!(
        name_search_url("My Server #1"),
        "https://api.battlemetrics.com/servers?filter[game]=dayz&filter[search]=My%20Server%20%231&page[size]=10"
    );
    assert_eq!(
        history_url("42", 1705322096),
        "https://api.battlemetrics.com/servers/42/player-count-history?start=2024-01-14T12:34:56Z&stop=2024-01-15T12:34:56Z&resolution=60"
    );
    assert_eq!(
        history_url("42", 10),
        "https://api.battlemetrics.com/servers/42/player-count-history?start=1970-01-01T00:00:00Z&stop=1970-01-01T00:00:10Z&resolution=60"
    );
    assert_eq!(lookup_search("1.2.3.4", Some("Alpha")), "1.2.3.4 Alpha");
    assert_eq!(lookup_search("1.2.3.4", None), "1.2.3.4");
    let q = lookup_query("x");
    assert_eq!(q[2], ("filter[search]".to_string(), "x".to_string()));
    assert_eq!(server_page_url("99"), "https://www.battlemetrics.com/servers/dayz/99");
}
