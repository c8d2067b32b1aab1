//! The security headers of every response, and the Content-Security-Policy
//! built per request from the deployment's origins and the request nonce.
use vstd::prelude::*;
use vstd::string::*;
use crate::text::{chars_of, string_of, chars_ends_with, ends_with, starts_with, chars_starts_with, concat2, concat3, opt_view};

verus! {

/// The `connect-src` sources of the deployment, fixed at start-up.
#[derive(Clone, Debug)]
pub struct CspTemplate {
    connect_src: String,
}

/// The scheme and the host (`None` when the URL has none) that the `url`
/// crate parses from `s`, when it parses.
pub uninterp spec fn url_scheme_host(s: Seq<char>) -> Option<(Seq<char>, Option<Seq<char>>)>;

/// Calls `url::Url::parse` and keeps `scheme()` and `host_str()`. Claimed:
/// the pair is `url_scheme_host` of the text, `None` exactly when parsing
/// fails.
#[verifier::external_body]
fn parse_origin(s: &str) -> (r: Option<(String, Option<String>)>)
    ensures
        match r {
            Some((a, b)) => url_scheme_host(s@) == Some((a@, opt_view(b))),
            None => url_scheme_host(s@) is None,
        },
{
    match url::Url::parse(s) {
        Ok(u) => Some((u.scheme().to_owned(), u.host_str().map(str::to_owned))),
        Err(_) => None,
    }
}

/// `s` with every leading copy of `p` removed (`str::trim_start_matches`).
pub open spec fn strip_prefixes(s: Seq<char>, p: Seq<char>) -> Seq<char>
    decreases s.len(),
{
    if p.len() > 0 && starts_with(s, p) {
        strip_prefixes(s.skip(p.len() as int), p)
    } else {
        s
    }
}

/// `s` with every trailing `c` removed (`str::trim_end_matches`).
pub open spec fn strip_trailing(s: Seq<char>, c: char) -> Seq<char>
    decreases s.len(),
{
    if s.len() > 0 && s.last() == c {
        strip_trailing(s.drop_last(), c)
    } else {
        s
    }
}

fn strip_prefixes_exec(s: Vec<char>, p: &str) -> (r: Vec<char>)
    requires
        p@.len() > 0,
    ensures
        r@ == strip_prefixes(s@, p@),
    decreases s@.len(),
{
    let pv = chars_of(p);
    if chars_starts_with(&s, p) {
        let mut rest: Vec<char> = Vec::new();
        let mut i: usize = pv.len();
        while i < s.len()
            invariant
                pv@.len() <= i <= s@.len(),
                rest@ == s@.subrange(pv@.len() as int, i as int),
            decreases s@.len() - i,
        {
            rest.push(s[i]);
            i = i + 1;
            assert(rest@ =~= s@.subrange(pv@.len() as int, i as int));
        }
        assert(rest@ =~= s@.skip(p@.len() as int));
        strip_prefixes_exec(rest, p)
    } else {
        s
    }
}

fn strip_trailing_exec(s: Vec<char>, c: char) -> (r: Vec<char>)
    ensures
        r@ == strip_trailing(s@, c),
    decreases s@.len(),
{
    let mut v = s;
    if v.len() > 0 && v[v.len() - 1] == c {
        v.pop();
        strip_trailing_exec(v, c)
    } else {
        v
    }
}

/// The host part of the public URL: scheme prefixes and trailing slashes
/// removed.
pub open spec fn public_host(public_url: Seq<char>) -> Seq<char> {
    strip_trailing(strip_prefixes(strip_prefixes(public_url, "https://"@), "http://"@), '/')
}

pub open spec fn ws_scheme(public_url: Seq<char>) -> Seq<char> {
    if starts_with(public_url, "https://"@) {
        "wss"@
    } else {
        "ws"@
    }
}

/// The origin of the OIDC issuer, `scheme://host`, or empty.
pub open spec fn oidc_origin(issuer: Option<Seq<char>>) -> Seq<char> {
    match issuer {
        Some(i) => match url_scheme_host(i) {
            Some((scheme, host)) => scheme + "://"@ + match host {
                Some(h) => h,
                None => Seq::empty(),
            },
            None => Seq::empty(),
        },
        None => Seq::empty(),
    }
}

/// `'self'`, the OIDC origin when there is one, and the websocket origin
/// of the public URL.
pub open spec fn connect_sources(issuer: Option<Seq<char>>, public_url: Seq<char>) -> Seq<char> {
    let ws = ws_scheme(public_url) + "://"@ + public_host(public_url);
    if oidc_origin(issuer).len() == 0 {
        "'self' "@ + ws
    } else {
        "'self' "@ + oidc_origin(issuer) + " "@ + ws
    }
}

impl CspTemplate {
    pub closed spec fn connect_src(&self) -> Seq<char> {
        self.connect_src@
    }

    /// The template of a deployment with the given OIDC issuer and public
    /// URL.
    pub fn new(oidc_issuer: Option<&str>, public_url: &str) -> (r: CspTemplate)
        ensures
            r.connect_src() == connect_sources(
                match oidc_issuer {
                    Some(s) => Some(s@),
                    None => None,
                },
                public_url@,
            ),
    {
        let origin: String = match oidc_issuer {
            Some(i) => match parse_origin(i) {
                Some((scheme, host)) => match host {
                    Some(h) => concat3(scheme.as_str(), "://", h.as_str()),
                    None => concat2(scheme.as_str(), "://"),
                },
                None => String::new(),
            },
            None => String::new(),
        };
        proof {
            reveal_strlit("https://");
            reveal_strlit("http://");
        }
        let host = strip_trailing_exec(
            strip_prefixes_exec(strip_prefixes_exec(chars_of(public_url), "https://"), "http://"),
            '/',
        );
        let host_s = string_of(&host);
        let ws: &str = if chars_starts_with(&chars_of(public_url), "https://") {
            "wss"
        } else {
            "ws"
        };
        let ws_origin = concat3(ws, "://", host_s.as_str());
        let connect_src = if origin.as_str().unicode_len() == 0 {
            concat2("'self' ", ws_origin.as_str())
        } else {
            let head = concat3("'self' ", origin.as_str(), " ");
            concat2(head.as_str(), ws_origin.as_str())
        };
        CspTemplate { connect_src }
    }
}

/// The policy of one response. With a nonce, scripts need it (and
/// trusted types are required outside debug builds); without one, inline
/// scripts are allowed. Debug builds also allow `eval`.
pub open spec fn csp_text(connect_src: Seq<char>, nonce: Option<Seq<char>>, debug: bool) -> Seq<char> {
    let unsafe_eval = if debug {
        " 'unsafe-eval'"@
    } else {
        Seq::empty()
    };
    let script_src = match nonce {
        Some(n) => "'self' 'nonce-"@ + n + "' 'strict-dynamic'"@ + unsafe_eval,
        None => "'self' 'unsafe-inline'"@ + unsafe_eval,
    };
    let trusted_types = if debug || nonce is None {
        Seq::empty()
    } else {
        "require-trusted-types-for 'script'; "@
    };
    "default-src 'self'; script-src "@ + script_src + "; style-src 'self' 'unsafe-inline'; img-src 'self' data: blob:; font-src 'self'; connect-src "@
        + connect_src
        + "; frame-ancestors 'none'; form-action 'self'; base-uri 'none'; object-src 'none'; worker-src 'self' blob:; manifest-src 'self'; "@
        + trusted_types + "upgrade-insecure-requests; report-to comic-csp"@
}

/// The Content-Security-Policy value of a response; `debug` is whether
/// this is a debug build.
pub fn build_csp(template: &CspTemplate, nonce: Option<&str>, debug: bool) -> (r: String)
    ensures
        r@ == csp_text(
            template.connect_src(),
            match nonce {
                Some(n) => Some(n@),
                None => None,
            },
            debug,
        ),
{
    let mut s = String::from_str("default-src 'self'; script-src ");
    match nonce {
        Some(n) => {
            s.append("'self' 'nonce-");
            s.append(n);
            s.append("' 'strict-dynamic'");
        },
        None => {
            s.append("'self' 'unsafe-inline'");
        },
    }
    if debug {
        s.append(" 'unsafe-eval'");
    }
    s.append(
        "; style-src 'self' 'unsafe-inline'; img-src 'self' data: blob:; font-src 'self'; connect-src ",
    );
    s.append(template.connect_src.as_str());
    s.append(
        "; frame-ancestors 'none'; form-action 'self'; base-uri 'none'; object-src 'none'; worker-src 'self' blob:; manifest-src 'self'; ",
    );
    if !debug && nonce.is_some() {
        s.append("require-trusted-types-for 'script'; ");
    }
    s.append("upgrade-insecure-requests; report-to comic-csp");
    proof {
        let e: Seq<char> = Seq::empty();
        assert(forall|x: Seq<char>| x + e =~= x);
    }
    s
}

/// Pages that carry secrets in the URL send no referrer.
pub open spec fn no_referrer_path(path: Seq<char>) -> bool {
    ends_with(path, "/sign-in"@) || ends_with(path, "/forgot-password"@) || ends_with(
        path,
        "/reset-password"@,
    )
}

/// The path is (or ends with) one of the sign-in, forgot-password and
/// reset-password pages.
pub fn path_needs_no_referrer(path: &str) -> (r: bool)
    ensures
        r == no_referrer_path(path@),
{
    let p = chars_of(path);
    chars_ends_with(&p, "/sign-in") || chars_ends_with(&p, "/forgot-password") || chars_ends_with(
        &p,
        "/reset-password",
    )
}

/// The `Referrer-Policy` of a response.
pub fn referrer_policy(needs_no_referrer: bool) -> (r: &'static str)
    ensures
        r@ == if needs_no_referrer {
            "no-referrer"@
        } else {
            "strict-origin-when-cross-origin"@
        },
{
    if needs_no_referrer {
        "no-referrer"
    } else {
        "strict-origin-when-cross-origin"
    }
}

} // verus!
