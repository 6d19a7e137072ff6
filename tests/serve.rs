use rendrok::api::{bearer, env_vars_url, owners_url, service_url, services_url};
use rendrok::command::{
    auth_token, choose_proxy, client_args, confirmation_line, ForwardSpec, TUNNEL_BINARY,
};
use rendrok::config::{Config, Owner};
use rendrok::endpoint::{
    find_endpoint, is_active_status, tool_endpoints, EndpointRecord, LocateError,
};
use rendrok::secret::{resolve_secret, EnvVar, SecretError};
use rendrok::supervisor::{Action, Event, Phase, ShutdownSignal, Supervisor};
use rendrok::text::{chars_of, contains_chars, push_decimal};

fn record(id: &str, name: &str, repo: &str, active: bool) -> EndpointRecord {
    EndpointRecord {
        id: id.to_string(),
        name: name.to_string(),
        region: "oregon".to_string(),
        url: format!("https://{name}.onrender.com"),
        repo: repo.to_string(),
        active,
    }
}

const REPO: &str = "https://github.com/evshiron/rendrok";

fn var(key: &str, value: &str) -> EnvVar {
    EnvVar { key: key.to_string(), value: value.to_string() }
}

fn views(v: &[String]) -> Vec<&str> {
    v.iter().map(|s| s.as_str()).collect()
}

#[test]
fn locator_skips_suspended_and_foreign_records() {
    let records = vec![
        record("a", "foreign", "https://github.com/someone/else", true),
        record("b", "asleep", REPO, false),
        record("c", "awake", REPO, true),
    ];
    let found = find_endpoint(&records, &None).unwrap();
    assert_eq!(found.id, "c");
    assert!(found.active);
}

#[test]
fn locator_finds_nothing_among_suspended_and_foreign() {
    let records = vec![
        record("a", "foreign", "https://github.com/someone/else", true),
        record("b", "asleep", REPO, false),
    ];
    assert_eq!(find_endpoint(&records, &None).err(), Some(LocateError::NotFound));
}

#[test]
fn locator_honours_name_filter_exactly() {
    let records = vec![
        record("a", "tun-1", REPO, true),
        record("b", "tun-2", REPO, true),
    ];
    let found = find_endpoint(&records, &Some("tun-2".to_string())).unwrap();
    assert_eq!(found.id, "b");
    assert_eq!(
        find_endpoint(&records, &Some("TUN-2".to_string())).err(),
        Some(LocateError::NotFound)
    );
    assert_eq!(
        find_endpoint(&records, &Some("tun".to_string())).err(),
        Some(LocateError::NotFound)
    );
}

#[test]
fn locator_takes_first_in_list_order() {
    let records = vec![
        record("a", "tun-1", REPO, true),
        record("b", "tun-1", REPO, true),
    ];
    assert_eq!(find_endpoint(&records, &None).unwrap().id, "a");
}

#[test]
fn locator_is_repeatable() {
    let records = vec![
        record("a", "x", REPO, false),
        record("b", "y", REPO, true),
        record("c", "z", REPO, true),
    ];
    let first = find_endpoint(&records, &None).unwrap();
    let second = find_endpoint(&records, &None).unwrap();
    assert_eq!(first.id, second.id);
    assert_eq!(first.url, second.url);
}

#[test]
fn locator_on_empty_list() {
    assert_eq!(find_endpoint(&Vec::new(), &None).err(), Some(LocateError::NotFound));
}

#[test]
fn listing_keeps_tool_records_only() {
    let records = vec![
        record("a", "x", REPO, false),
        record("b", "y", "https://github.com/other/repo", true),
        record("c", "z", REPO, true),
    ];
    let ids: Vec<String> = tool_endpoints(&records).into_iter().map(|r| r.id).collect();
    assert_eq!(ids, vec!["a".to_string(), "c".to_string()]);
}

#[test]
fn status_text_decides_activity() {
    assert!(!is_active_status("suspended"));
    assert!(is_active_status("not_suspended"));
    assert!(is_active_status(""));
}

#[test]
fn secret_is_first_matching_entry() {
    let vars = vec![var("PORT", "3000"), var("RENDROK_PASS", "s3cr3t"), var("RENDROK_PASS", "other")];
    assert_eq!(resolve_secret(&vars).unwrap(), "s3cr3t");
}

#[test]
fn secret_missing_is_not_configured() {
    let vars = vec![var("PORT", "3000"), var("rendrok_pass", "x")];
    assert_eq!(resolve_secret(&vars).err(), Some(SecretError::NotConfigured));
    assert_eq!(resolve_secret(&Vec::new()).err(), Some(SecretError::NotConfigured));
}

#[test]
fn forward_argument_form() {
    let f = ForwardSpec::new("127.0.0.1".to_string(), 8080);
    assert_eq!(f.remote_arg(), "R:3000:127.0.0.1:8080");
    assert_eq!(ForwardSpec::new("localhost".to_string(), 1).remote_arg(), "R:3000:localhost:1");
    assert_eq!(ForwardSpec::new("0.0.0.0".to_string(), 65535).remote_arg(), "R:3000:0.0.0.0:65535");
    assert_eq!(ForwardSpec::new("h".to_string(), 0).remote_arg(), "R:3000:h:0");
}

#[test]
fn decimal_notation() {
    for n in [0u16, 1, 9, 10, 99, 100, 1000, 3000, 10000, 65535] {
        let mut s = String::from("x");
        push_decimal(&mut s, n);
        assert_eq!(s, format!("x{n}"));
    }
}

#[test]
fn proxy_priority() {
    let s = |v: &str| Some(v.to_string());
    assert_eq!(choose_proxy(s("a"), s("b"), s("c")), s("a"));
    assert_eq!(choose_proxy(None, s("b"), s("c")), s("b"));
    assert_eq!(choose_proxy(None, None, s("c")), s("c"));
    assert_eq!(choose_proxy(None, None, None), None);
    assert_eq!(choose_proxy(s(""), s("b"), None), s("b"));
    assert_eq!(choose_proxy(s(""), s(""), s("")), None);
}

#[test]
fn auth_flag_value() {
    assert_eq!(auth_token(&"s3cr3t".to_string()), "rendrok:s3cr3t");
}

#[test]
fn end_to_end_arguments() {
    let records = vec![record("srv-1", "tun-1", REPO, true)];
    let found = find_endpoint(&records, &None).unwrap();
    let secret = resolve_secret(&vec![var("RENDROK_PASS", "s3cr3t")]).unwrap();
    let forward = ForwardSpec::new("127.0.0.1".to_string(), 8080);
    let proxy = choose_proxy(None, None, None);
    let args = client_args(&secret, &proxy, &found.url, &forward);
    assert_eq!(TUNNEL_BINARY, "chisel");
    assert_eq!(
        views(&args),
        vec!["client", "--auth", "rendrok:s3cr3t", "https://tun-1.onrender.com", "R:3000:127.0.0.1:8080"]
    );
    assert_eq!(
        confirmation_line(&forward, &found.url),
        "\n==== 127.0.0.1:8080 is now exposed on https://tun-1.onrender.com ====\n"
    );
}

#[test]
fn arguments_with_proxy() {
    let forward = ForwardSpec::new("localhost".to_string(), 80);
    let proxy = choose_proxy(Some("http://p:8".to_string()), None, None);
    let args = client_args(&"pw".to_string(), &proxy, &"https://u".to_string(), &forward);
    assert_eq!(
        views(&args),
        vec!["client", "--auth", "rendrok:pw", "--proxy", "http://p:8", "https://u", "R:3000:localhost:80"]
    );
}

#[test]
fn end_to_end_not_found() {
    let records = vec![record("x", "tun-1", "https://github.com/other/repo", true)];
    assert_eq!(find_endpoint(&records, &None).err(), Some(LocateError::NotFound));
}

#[test]
fn child_exit_before_signal() {
    let mut s = Supervisor::new();
    assert!(!s.is_done());
    assert_eq!(s.handle(Event::ChildExited), Action::Finish);
    assert!(s.is_done());
    assert_eq!(s.phase, Phase::Exited);
}

#[test]
fn signal_relays_one_interrupt() {
    let mut s = Supervisor::new();
    let events = [
        Event::Signal(ShutdownSignal::Terminate),
        Event::Signal(ShutdownSignal::Interrupt),
        Event::Signal(ShutdownSignal::Quit),
    ];
    let mut interrupts = 0;
    for e in events {
        if s.handle(e) == Action::SendInterrupt {
            interrupts += 1;
        }
        assert!(!s.is_done());
    }
    assert_eq!(s.phase, Phase::ShuttingDown);
    assert_eq!(s.handle(Event::ChildExited), Action::Finish);
    assert!(s.is_done());
    assert_eq!(interrupts, 1);
}

#[test]
fn substring_search() {
    let hay = chars_of("https://github.com/evshiron/rendrok");
    assert!(contains_chars(&hay, &chars_of("evshiron/rendrok")));
    assert!(contains_chars(&hay, &chars_of("")));
    assert!(!contains_chars(&hay, &chars_of("evshiron/rendrokk")));
    assert!(!contains_chars(&chars_of(""), &chars_of("a")));
}

#[test]
fn request_addresses() {
    assert_eq!(owners_url(), "https://api.render.com/v1/owners");
    assert_eq!(services_url(), "https://api.render.com/v1/services");
    assert_eq!(service_url("srv-9"), "https://api.render.com/v1/services/srv-9");
    assert_eq!(env_vars_url("srv-9"), "https://api.render.com/v1/services/srv-9/env-vars");
    assert_eq!(bearer("k"), "Bearer k");
}

#[test]
fn login_takes_first_owner() {
    let owners = vec![
        Owner { email: "a@x".to_string(), id: "o1".to_string() },
        Owner { email: "b@x".to_string(), id: "o2".to_string() },
    ];
    let c = Config::login("key".to_string(), &owners).unwrap();
    assert_eq!(c.api_key, "key");
    assert_eq!(c.owner_email, "a@x");
    assert_eq!(c.owner_id, "o1");
    assert!(Config::login("key".to_string(), &Vec::new()).is_none());
    let d = Config::default();
    assert!(d.api_key.is_empty() && d.owner_email.is_empty() && d.owner_id.is_empty());
}
