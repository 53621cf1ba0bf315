use vstd::prelude::*;

use crate::text::{chars_of, eq_ignore_ascii_case, eq_ignore_ascii_case_chars, push_str};

verus! {

/// How the editor's web view is set up.
#[derive(Debug)]
pub struct EmbeddedWebviewConfig {
    pub width: u32,
    pub height: u32,
    /// The page a debug build shows (the development server).
    pub debug_url: &'static str,
    /// The page a release build shows.
    pub release_html: &'static str,
}

/// The largest IPC message body the editor accepts, in bytes.
pub const MAX_IPC_BODY_BYTES: usize = 1024 * 1024;

/// Whether an IPC message body of this many bytes is read; larger ones are dropped.
pub fn ipc_body_accepted(len: usize) -> (ok: bool)
    ensures
        ok == (len <= MAX_IPC_BODY_BYTES),
{
    len <= MAX_IPC_BODY_BYTES
}

/// What the editor reads of a URL: its scheme, its host, its port (or the scheme's default
/// port) and its serialization.
#[derive(Debug)]
pub struct ParsedUrl {
    pub scheme: String,
    pub host: Option<String>,
    pub port: Option<u16>,
    pub serialization: String,
}

pub open spec fn opt_text(o: Option<String>) -> Option<Seq<char>> {
    match o {
        Some(s) => Some(s@),
        None => None,
    }
}

/// The parts of a URL as plain values.
pub open spec fn url_parts(p: ParsedUrl) -> (Seq<char>, Option<Seq<char>>, Option<u16>, Seq<char>) {
    (p.scheme@, opt_text(p.host), p.port, p.serialization@)
}

/// What parsing the text as a URL gives: scheme, host, port or known default, serialization;
/// `None` when the text is no URL.
pub uninterp spec fn url_parse_result(input: Seq<char>) -> Option<
    (Seq<char>, Option<Seq<char>>, Option<u16>, Seq<char>),
>;

/// Trusted: `url::Url::parse`, then `scheme`, `host_str`, `port_or_known_default` and
/// `as_str` on the result; what they give is named.
#[verifier::external_body]
pub(crate) fn parse_url(input: &str) -> (r: Option<ParsedUrl>)
    ensures
        match (r, url_parse_result(input@)) {
            (Some(p), Some(parts)) => url_parts(p) == parts,
            (None, None) => true,
            _ => false,
        },
{
    match url::Url::parse(input) {
        Ok(u) => Some(
            ParsedUrl {
                scheme: u.scheme().to_string(),
                host: u.host_str().map(|h| h.to_string()),
                port: u.port_or_known_default(),
                serialization: u.as_str().to_string(),
            },
        ),
        Err(_) => None,
    }
}

/// Scheme, host and port of a page that may be shown inside the editor.
#[derive(Debug)]
pub struct UrlOrigin {
    pub scheme: String,
    pub host: String,
    pub port: Option<u16>,
}

pub open spec fn origin_parts(o: UrlOrigin) -> (Seq<char>, Seq<char>, Option<u16>) {
    (o.scheme@, o.host@, o.port)
}

/// The origin of parsed URL parts; none without a host.
pub open spec fn origin_of(parts: Option<(Seq<char>, Option<Seq<char>>, Option<u16>, Seq<char>)>) -> Option<
    (Seq<char>, Seq<char>, Option<u16>),
> {
    match parts {
        Some((scheme, Some(host), port, _)) => Some((scheme, host, port)),
        _ => None,
    }
}

/// Whether a URL is on the origin: same scheme and port, host equal ignoring ASCII case.
pub open spec fn on_origin(
    origin: (Seq<char>, Seq<char>, Option<u16>),
    url: (Seq<char>, Option<Seq<char>>, Option<u16>, Seq<char>),
) -> bool {
    &&& url.0 == origin.0
    &&& url.1 matches Some(h) && eq_ignore_ascii_case(h, origin.1)
    &&& url.2 == origin.2
}

fn text_eq(a: &String, b: &str) -> (r: bool)
    ensures
        r == (a@ == b@),
{
    let mut t = String::new();
    push_str(&mut t, b);
    *a == t
}

impl UrlOrigin {
    /// The origin of the URL that `url` parses to.
    pub fn parse(url: &str) -> (o: Option<Self>)
        ensures
            match o {
                Some(o) => origin_of(url_parse_result(url@)) == Some(origin_parts(o)),
                None => origin_of(url_parse_result(url@)) is None,
            },
    {
        let parsed = parse_url(url);
        Self::from_parsed(parsed)
    }

    /// The origin of parsed URL parts.
    pub fn from_parsed(parsed: Option<ParsedUrl>) -> (o: Option<Self>)
        ensures
            match o {
                Some(o) => origin_of(
                    match parsed {
                        Some(p) => Some(url_parts(p)),
                        None => None,
                    },
                ) == Some(origin_parts(o)),
                None => origin_of(
                    match parsed {
                        Some(p) => Some(url_parts(p)),
                        None => None,
                    },
                ) is None,
            },
    {
        match parsed {
            Some(p) => match p.host {
                Some(host) => Some(UrlOrigin { scheme: p.scheme, host, port: p.port }),
                None => None,
            },
            None => None,
        }
    }

    /// Whether the URL is on this origin.
    pub fn matches(&self, url: &ParsedUrl) -> (r: bool)
        ensures
            r == on_origin(origin_parts(*self), url_parts(*url)),
    {
        if url.scheme != self.scheme {
            return false;
        }
        let host_ok = match &url.host {
            Some(h) => {
                let hc = chars_of(h.as_str());
                let oc = chars_of(self.host.as_str());
                eq_ignore_ascii_case_chars(&hc, &oc)
            },
            None => false,
        };
        host_ok && url.port == self.port
    }
}

/// Which pages the editor may show itself; every other web page opens in the browser.
#[derive(Debug)]
pub struct NavigationPolicy {
    pub internal_origin: Option<UrlOrigin>,
}

impl NavigationPolicy {
    /// A debug build keeps the development server's pages inside; a release build keeps
    /// none.
    pub fn from_config(config: &EmbeddedWebviewConfig, debug_build: bool) -> (p: Self)
        ensures
            !debug_build ==> p.internal_origin is None,
            debug_build ==> match p.internal_origin {
                Some(o) => origin_of(url_parse_result(config.debug_url@)) == Some(origin_parts(o)),
                None => origin_of(url_parse_result(config.debug_url@)) is None,
            },
    {
        if debug_build {
            NavigationPolicy { internal_origin: UrlOrigin::parse(config.debug_url) }
        } else {
            NavigationPolicy { internal_origin: None }
        }
    }

    /// Whether the page at this URL stays inside the editor.
    pub fn should_allow_embedded_navigation(&self, url: &ParsedUrl) -> (r: bool)
        ensures
            r == match self.internal_origin {
                Some(o) => on_origin(origin_parts(o), url_parts(*url)),
                None => false,
            },
    {
        match &self.internal_origin {
            Some(o) => o.matches(url),
            None => false,
        }
    }
}

/// Whether the editor follows a navigation, or stops it and has the browser open the URL.
#[derive(Debug)]
pub enum NavigationDecision {
    Allow,
    OpenExternally(String),
}

pub open spec fn is_web_scheme(scheme: Seq<char>) -> bool {
    scheme == "http"@ || scheme == "https"@
}

/// The editor follows anything but a web page that is not on the internal origin; such a
/// page opens in the browser.
pub open spec fn navigation_outcome(
    policy_origin: Option<(Seq<char>, Seq<char>, Option<u16>)>,
    parts: Option<(Seq<char>, Option<Seq<char>>, Option<u16>, Seq<char>)>,
) -> Option<Seq<char>> {
    match parts {
        None => None,
        Some(u) => if !is_web_scheme(u.0) {
            None
        } else if policy_origin matches Some(o) && on_origin(o, u) {
            None
        } else {
            Some(u.3)
        },
    }
}

pub open spec fn policy_origin(p: NavigationPolicy) -> Option<(Seq<char>, Seq<char>, Option<u16>)> {
    match p.internal_origin {
        Some(o) => Some(origin_parts(o)),
        None => None,
    }
}

pub open spec fn decision_target(d: NavigationDecision) -> Option<Seq<char>> {
    match d {
        NavigationDecision::Allow => None,
        NavigationDecision::OpenExternally(u) => Some(u@),
    }
}

fn is_web_scheme_exec(scheme: &String) -> (r: bool)
    ensures
        r == is_web_scheme(scheme@),
{
    text_eq(scheme, "http") || text_eq(scheme, "https")
}

/// The decision for parsed URL parts (see `navigation_outcome`).
pub fn navigation_decision(parsed: Option<ParsedUrl>, policy: &NavigationPolicy) -> (d:
    NavigationDecision)
    ensures
        decision_target(d) == navigation_outcome(
            policy_origin(*policy),
            match parsed {
                Some(p) => Some(url_parts(p)),
                None => None,
            },
        ),
{
    let p = match parsed {
        None => return NavigationDecision::Allow,
        Some(p) => p,
    };
    if !is_web_scheme_exec(&p.scheme) {
        return NavigationDecision::Allow;
    }
    if policy.should_allow_embedded_navigation(&p) {
        return NavigationDecision::Allow;
    }
    NavigationDecision::OpenExternally(p.serialization)
}

/// What the editor does when its page navigates to `url`.
pub fn handle_navigation_request(url: &str, policy: &NavigationPolicy) -> (d: NavigationDecision)
    ensures
        decision_target(d) == navigation_outcome(policy_origin(*policy), url_parse_result(url@)),
{
    let parsed = parse_url(url);
    navigation_decision(parsed, policy)
}

/// For a new window: a web page opens in the browser; the window itself is always refused.
pub fn new_window_target(parsed: Option<ParsedUrl>) -> (r: Option<String>)
    ensures
        match parsed {
            Some(p) => if is_web_scheme(p.scheme@) {
                r matches Some(u) && u@ == p.serialization@
            } else {
                r is None
            },
            None => r is None,
        },
{
    match parsed {
        Some(p) => if is_web_scheme_exec(&p.scheme) {
            Some(p.serialization)
        } else {
            None
        },
        None => None,
    }
}

/// The URL a new-window request opens in the browser, if any.
pub fn handle_new_window_request(url: &str) -> (r: Option<String>)
    ensures
        match url_parse_result(url@) {
            Some(parts) => if is_web_scheme(parts.0) {
                r matches Some(u) && u@ == parts.3
            } else {
                r is None
            },
            None => r is None,
        },
{
    new_window_target(parse_url(url))
}

/// The program and arguments that open a URL in the browser on each system.
pub fn browser_command(platform: crate::packaging::Platform, url: &str) -> (r: (String, Vec<String>))
    ensures
        match platform {
            crate::packaging::Platform::MacOs => r.0@ == "/usr/bin/open"@ && crate::packaging::texts_of(r.1@) == seq![url@],
            crate::packaging::Platform::Windows => r.0@ == "cmd"@ && crate::packaging::texts_of(r.1@) == seq!["/C"@, "start"@, ""@, url@],
            crate::packaging::Platform::Other => r.0@ == "xdg-open"@ && crate::packaging::texts_of(r.1@) == seq![url@],
        },
{
    let mut args: Vec<String> = Vec::new();
    match platform {
        crate::packaging::Platform::MacOs => {
            args.push(crate::text::to_string(url));
            assert(crate::packaging::texts_of(args@) =~= seq![url@]);
            (crate::text::to_string("/usr/bin/open"), args)
        },
        crate::packaging::Platform::Windows => {
            args.push(crate::text::to_string("/C"));
            args.push(crate::text::to_string("start"));
            args.push(String::new());
            args.push(crate::text::to_string(url));
            assert(""@ =~= Seq::<char>::empty()) by {
                reveal_strlit("");
            }
            assert(crate::packaging::texts_of(args@) =~= seq!["/C"@, "start"@, ""@, url@]);
            (crate::text::to_string("cmd"), args)
        },
        crate::packaging::Platform::Other => {
            args.push(crate::text::to_string(url));
            assert(crate::packaging::texts_of(args@) =~= seq![url@]);
            (crate::text::to_string("xdg-open"), args)
        },
    }
}

} // verus!
