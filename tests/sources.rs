use kooix_host::commands::ApiResponse;
use kooix_host::config::AppConfig;
use kooix_host::fetcher::{
    aggregate_hosts, classify_probe, extract_test_domains, get_default_sources, probe_url,
    HostSource, ProbeOutcome,
};

fn src(name: &str, url: &str, enabled: bool) -> HostSource {
    HostSource::new(name, url, enabled)
}

#[test]
fn aggregation_keeps_order_and_skips_disabled() {
    let sources = vec![
        src("A", "https://a.test/hosts", true),
        src("B", "https://b.test/hosts", false),
        src("C", "https://c.test/hosts", true),
    ];
    let fetched = vec![
        Some("1.1.1.1 a.test".to_string()),
        Some("2.2.2.2 b.test".to_string()),
        Some("3.3.3.3 c.test".to_string()),
    ];
    let out = aggregate_hosts(&sources, &fetched);
    assert_eq!(
        out,
        "\n# === A ===\n1.1.1.1 a.test\n\n# === C ===\n3.3.3.3 c.test\n"
    );
    let a = out.find("# === A ===").unwrap();
    let c = out.find("# === C ===").unwrap();
    assert!(a < c);
    assert!(!out.contains("B"));
    assert!(!out.contains("b.test"));
}

#[test]
fn aggregation_tolerates_failed_source() {
    let sources = vec![
        src("A", "https://a.test/hosts", true),
        src("C", "https://c.test/hosts", true),
    ];
    let fetched = vec![None, Some("3.3.3.3 c.test".to_string())];
    let out = aggregate_hosts(&sources, &fetched);
    assert_eq!(out, "\n# === C ===\n3.3.3.3 c.test\n");
}

#[test]
fn aggregation_of_nothing_is_empty() {
    assert_eq!(aggregate_hosts(&vec![], &vec![]), "");
    let sources = vec![src("A", "u", false), src("B", "v", true)];
    assert_eq!(aggregate_hosts(&sources, &vec![Some("x".to_string()), None]), "");
}

#[test]
fn aggregation_keeps_empty_body() {
    let sources = vec![src("E", "u", true)];
    assert_eq!(
        aggregate_hosts(&sources, &vec![Some(String::new())]),
        "\n# === E ===\n\n"
    );
}

#[test]
fn probe_404_is_reachable() {
    let r = classify_probe("github.com", ProbeOutcome::Responded { status: 404, elapsed_ms: 120 });
    assert_eq!(r.domain, "github.com");
    assert!(r.success);
    assert_eq!(r.status_code, Some(404));
    assert_eq!(r.response_time_ms, Some(120));
    assert_eq!(r.error, None);
}

#[test]
fn probe_503_is_unreachable() {
    let r = classify_probe("github.com", ProbeOutcome::Responded { status: 503, elapsed_ms: 7 });
    assert!(!r.success);
    assert_eq!(r.status_code, Some(503));
}

#[test]
fn probe_status_boundary() {
    assert!(classify_probe("d", ProbeOutcome::Responded { status: 499, elapsed_ms: 0 }).success);
    assert!(!classify_probe("d", ProbeOutcome::Responded { status: 500, elapsed_ms: 0 }).success);
    assert!(classify_probe("d", ProbeOutcome::Responded { status: 200, elapsed_ms: 0 }).success);
}

#[test]
fn probe_transport_failure() {
    let r = classify_probe(
        "steamcommunity.com",
        ProbeOutcome::Failed { waited_ms: Some(10000), error: "timed out".to_string() },
    );
    assert!(!r.success);
    assert_eq!(r.status_code, None);
    assert_eq!(r.response_time_ms, Some(10000));
    assert_eq!(r.error, Some("timed out".to_string()));
    let r = classify_probe(
        "x.test",
        ProbeOutcome::Failed { waited_ms: None, error: "no client".to_string() },
    );
    assert!(!r.success);
    assert_eq!(r.status_code, None);
    assert_eq!(r.response_time_ms, None);
}

#[test]
fn probe_url_adds_scheme() {
    assert_eq!(probe_url("github.com"), "https://github.com");
    assert_eq!(probe_url("http://a.test"), "http://a.test");
    assert_eq!(probe_url("https://a.test"), "https://a.test");
    assert_eq!(probe_url("htt"), "https://htt");
    assert_eq!(probe_url(""), "https://");
}

#[test]
fn extract_domains_in_fixed_order() {
    let h = "1.1.1.1 store.steampowered.com\n2.2.2.2 api.github.com\n";
    assert_eq!(
        extract_test_domains(h),
        vec![
            "github.com".to_string(),
            "api.github.com".to_string(),
            "store.steampowered.com".to_string()
        ]
    );
    assert!(extract_test_domains("127.0.0.1 localhost").is_empty());
    assert_eq!(
        extract_test_domains("raw.githubusercontent.com steamcommunity.com"),
        vec![
            "raw.githubusercontent.com".to_string(),
            "steamcommunity.com".to_string()
        ]
    );
}

#[test]
fn default_sources_list() {
    let s = get_default_sources();
    assert_eq!(s.len(), 9);
    assert_eq!(s[0].name, "GitHub520 (HelloGitHub)");
    assert_eq!(s[0].url, "https://raw.hellogithub.com/hosts");
    assert!(s[0].enabled);
    assert!(s[1..].iter().all(|x| !x.enabled));
    assert_eq!(s[8].name, "Steam 社区 (镜像加速)");
    assert_eq!(s[8].url, "https://raw.sevencdn.com/Clov614/SteamHostSync/main/Hosts_steam");
}

#[test]
fn default_host_source() {
    let s = HostSource::default();
    assert_eq!(s.name, "GitHub520");
    assert_eq!(s.url, "https://raw.hellogithub.com/hosts");
    assert!(s.enabled);
    let d = s.duplicate();
    assert_eq!(d.name, s.name);
    assert_eq!(d.url, s.url);
}

#[test]
fn default_config_and_update_record() {
    let mut c = AppConfig::default();
    assert!(!c.auto_update);
    assert_eq!(c.update_interval_hours, 24);
    assert_eq!(c.last_update, None);
    assert_eq!(c.sources.len(), 9);
    c.record_update("2024-01-01T00:00:00+08:00".to_string());
    assert_eq!(c.last_update, Some("2024-01-01T00:00:00+08:00".to_string()));
    assert_eq!(c.update_interval_hours, 24);
    let snap = c.sources_snapshot();
    assert_eq!(snap.len(), 9);
    assert_eq!(snap[3].name, c.sources[3].name);
    assert_eq!(snap[3].url, c.sources[3].url);
}

#[test]
fn api_response_envelopes() {
    let ok = ApiResponse::ok(5u32);
    assert!(ok.success);
    assert_eq!(ok.data, Some(5));
    assert_eq!(ok.error, None);
    let err: ApiResponse<u32> = ApiResponse::err("boom".to_string());
    assert!(!err.success);
    assert_eq!(err.data, None);
    assert_eq!(err.error, Some("boom".to_string()));
}
