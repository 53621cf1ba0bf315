use mimium_plugin_core::navigation::{
    browser_command, handle_navigation_request, handle_new_window_request, ipc_body_accepted,
    EmbeddedWebviewConfig, NavigationDecision, NavigationPolicy, UrlOrigin, MAX_IPC_BODY_BYTES,
};
use mimium_plugin_core::packaging::Platform;

const CONFIG: EmbeddedWebviewConfig = EmbeddedWebviewConfig {
    width: 1180,
    height: 760,
    debug_url: "http://localhost:5173",
    release_html: "<html></html>",
};

fn target(d: NavigationDecision) -> Option<String> {
    match d {
        NavigationDecision::Allow => None,
        NavigationDecision::OpenExternally(u) => Some(u),
    }
}

#[test]
fn origin_parsing() {
    let o = UrlOrigin::parse("http://LocalHost:5173/index.html").unwrap();
    assert_eq!(o.scheme, "http");
    assert_eq!(o.host, "localhost");
    assert_eq!(o.port, Some(5173));
    let https = UrlOrigin::parse("https://example.com/").unwrap();
    assert_eq!(https.port, Some(443));
    assert!(UrlOrigin::parse("not a url").is_none());
    assert!(UrlOrigin::parse("data:text/plain,hi").is_none());
}

#[test]
fn debug_policy_keeps_dev_server_inside() {
    let policy = NavigationPolicy::from_config(&CONFIG, true);
    assert!(policy.internal_origin.is_some());
    assert_eq!(target(handle_navigation_request("http://localhost:5173/x", &policy)), None);
    assert_eq!(
        target(handle_navigation_request("https://mimium.org/docs", &policy)),
        Some("https://mimium.org/docs".to_string())
    );
    assert_eq!(
        target(handle_navigation_request("http://localhost:8080/", &policy)),
        Some("http://localhost:8080/".to_string())
    );
}

#[test]
fn release_policy_sends_web_pages_out() {
    let policy = NavigationPolicy::from_config(&CONFIG, false);
    assert!(policy.internal_origin.is_none());
    assert_eq!(
        target(handle_navigation_request("http://localhost:5173/", &policy)),
        Some("http://localhost:5173/".to_string())
    );
    assert_eq!(target(handle_navigation_request("about:blank", &policy)), None);
    assert_eq!(target(handle_navigation_request("::bad::", &policy)), None);
    assert_eq!(target(handle_navigation_request("file:///tmp/a.html", &policy)), None);
}

#[test]
fn new_windows_open_web_pages_only() {
    assert_eq!(handle_new_window_request("https://a.b/c"), Some("https://a.b/c".to_string()));
    assert_eq!(handle_new_window_request("mailto:x@y.z"), None);
    assert_eq!(handle_new_window_request("nope"), None);
}

#[test]
fn ipc_limit_and_browser_commands() {
    assert!(ipc_body_accepted(MAX_IPC_BODY_BYTES));
    assert!(!ipc_body_accepted(MAX_IPC_BODY_BYTES + 1));
    let (prog, args) = browser_command(Platform::Windows, "https://x");
    assert_eq!(prog, "cmd");
    assert_eq!(args, vec!["/C", "start", "", "https://x"]);
    let (prog, args) = browser_command(Platform::Other, "https://x");
    assert_eq!(prog, "xdg-open");
    assert_eq!(args, vec!["https://x"]);
    assert_eq!(browser_command(Platform::MacOs, "u").0, "/usr/bin/open");
}
