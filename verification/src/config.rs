//! The control plane's settings, read from the environment, and the CORS policy
//! they give.

use vstd::prelude::*;

use crate::text::{chars_eq, chars_of, lemma_trim_is_tidy, string_of, tidy, trim, trim_spec, views};

verus! {

/// The settings of the control plane.
#[derive(Debug, Clone)]
pub struct Config {
    pub database_url: String,
    pub server_addr: String,
    pub agent_image: String,
    pub api_key: Option<String>,
    pub anthropic_api_key: Option<String>,
    pub allowed_origins: Vec<String>,
}

/// The pieces of `s` between the separators `sep` (what `str::split` with a
/// character gives): the empty text is one empty piece.
pub open spec fn split_spec(s: Seq<char>, sep: char) -> Seq<Seq<char>>
    decreases s.len(),
{
    if s.len() == 0 {
        seq![Seq::empty()]
    } else {
        let prev = split_spec(s.drop_last(), sep);
        if s.last() == sep {
            prev.push(Seq::empty())
        } else {
            prev.update(prev.len() - 1, prev.last().push(s.last()))
        }
    }
}

/// The pieces trimmed, the empty ones left out.
pub open spec fn trimmed_nonempty(parts: Seq<Seq<char>>) -> Seq<Seq<char>>
    decreases parts.len(),
{
    if parts.len() == 0 {
        Seq::empty()
    } else {
        let prev = trimmed_nonempty(parts.drop_last());
        let t = trim_spec(parts.last());
        if t.len() > 0 {
            prev.push(t)
        } else {
            prev
        }
    }
}

proof fn lemma_trimmed_nonempty_tidy(parts: Seq<Seq<char>>)
    ensures
        forall|i: int| 0 <= i < trimmed_nonempty(parts).len() ==> tidy(#[trigger] trimmed_nonempty(parts)[i]),
    decreases parts.len(),
{
    if parts.len() > 0 {
        lemma_trimmed_nonempty_tidy(parts.drop_last());
        lemma_trim_is_tidy(parts.last());
        let prev = trimmed_nonempty(parts.drop_last());
        assert forall|i: int| 0 <= i < trimmed_nonempty(parts).len() implies tidy(
            #[trigger] trimmed_nonempty(parts)[i],
        ) by {
            if i < prev.len() {
                assert(trimmed_nonempty(parts)[i] == prev[i]);
            }
        }
    }
}

/// Every origin that a configured list names is non-empty and has no whitespace
/// at either end.
pub proof fn lemma_origins_are_tidy(list: Seq<char>)
    ensures
        forall|i: int| 0 <= i < origins_view(list).len() ==> tidy(#[trigger] origins_view(list)[i]),
{
    lemma_trimmed_nonempty_tidy(split_spec(list, ','));
}

/// The origins that a comma-separated list names.
pub open spec fn origins_view(list: Seq<char>) -> Seq<Seq<char>> {
    trimmed_nonempty(split_spec(list, ','))
}

/// The origins allowed where none are configured: the admin UI and the API on
/// the local host.
pub open spec fn default_origins() -> Seq<Seq<char>> {
    seq![
        "http://localhost:3000"@,
        "http://localhost:8080"@,
        "http://127.0.0.1:3000"@,
        "http://127.0.0.1:8080"@,
    ]
}

proof fn lemma_split_nonempty(s: Seq<char>, sep: char)
    ensures
        split_spec(s, sep).len() >= 1,
    decreases s.len(),
{
    if s.len() > 0 {
        lemma_split_nonempty(s.drop_last(), sep);
    }
}

/// The origins that the comma-separated list `list` names, trimmed, empty ones
/// left out.
pub fn parse_origins(list: &str) -> (r: Vec<String>)
    ensures
        views(r@) == origins_view(list@),
{
    let s = chars_of(list);
    let mut out: Vec<String> = Vec::new();
    let mut cur: Vec<char> = Vec::new();
    let mut i: usize = 0;
    assert(s@.take(0) =~= Seq::<char>::empty());
    while i < s.len()
        invariant
            i <= s@.len(),
            s@ == list@,
            split_spec(s@.take(i as int), ',').len() >= 1,
            views(out@) == trimmed_nonempty(split_spec(s@.take(i as int), ',').drop_last()),
            cur@ == split_spec(s@.take(i as int), ',').last(),
        decreases s@.len() - i,
    {
        let ghost parts = split_spec(s@.take(i as int), ',');
        let ghost next = s@.take(i + 1);
        assert(next.drop_last() =~= s@.take(i as int));
        let c = s[i];
        if c == ',' {
            let t = trim(&cur);
            assert(split_spec(next, ',') == parts.push(Seq::empty()));
            assert(split_spec(next, ',').drop_last() =~= parts);
            assert(parts.drop_last().push(parts.last()) =~= parts);
            assert(trimmed_nonempty(parts) == {
                let prev = trimmed_nonempty(parts.drop_last());
                let tt = trim_spec(parts.last());
                if tt.len() > 0 { prev.push(tt) } else { prev }
            });
            if t.len() > 0 {
                let ghost before = views(out@);
                out.push(string_of(&t));
                assert(views(out@) =~= before.push(t@));
            }
            cur = Vec::new();
        } else {
            let ghost u = parts.update(parts.len() - 1, parts.last().push(c));
            assert(split_spec(next, ',') == u);
            assert(u.drop_last() =~= parts.drop_last());
            cur.push(c);
        }
        proof {
            lemma_split_nonempty(next, ',');
        }
        i += 1;
    }
    assert(s@.take(s@.len() as int) =~= s@);
    let ghost parts = split_spec(s@, ',');
    assert(parts.drop_last().push(parts.last()) =~= parts);
    let t = trim(&cur);
    if t.len() > 0 {
        let ghost before = views(out@);
        out.push(string_of(&t));
        assert(views(out@) =~= before.push(t@));
    }
    out
}

pub open spec fn some_nonempty(o: Option<String>) -> Option<Seq<char>> {
    match o {
        Some(s) => if s@.len() > 0 {
            Some(s@)
        } else {
            None
        },
        None => None,
    }
}

pub open spec fn view_or(o: Option<String>, default: Seq<char>) -> Seq<char> {
    match o {
        Some(s) => s@,
        None => default,
    }
}

pub open spec fn opt_string_view(o: Option<String>) -> Option<Seq<char>> {
    match o {
        Some(s) => Some(s@),
        None => None,
    }
}

fn nonempty_or_none(o: Option<String>) -> (r: Option<String>)
    ensures
        opt_string_view(r) == some_nonempty(o),
{
    match o {
        Some(s) => if chars_of(s.as_str()).len() > 0 {
            Some(s)
        } else {
            None
        },
        None => None,
    }
}

fn string_or_default(o: Option<String>, default: &str) -> (r: String)
    ensures
        r@ == view_or(o, default@),
{
    match o {
        Some(s) => s,
        None => String::from_str(default),
    }
}

impl Config {
    /// The settings that the environment variables give, each passed as its value
    /// where it is set: `DATABASE_URL`, `SERVER_ADDR`, `AGENT_IMAGE`, `API_KEY`,
    /// `ANTHROPIC_API_KEY` and `ALLOWED_ORIGINS`. Unset addresses and image take
    /// their defaults; an empty key counts as no key; unset origins are the local
    /// ones.
    pub fn from_vars(
        database_url: Option<String>,
        server_addr: Option<String>,
        agent_image: Option<String>,
        api_key: Option<String>,
        anthropic_api_key: Option<String>,
        allowed_origins: Option<String>,
    ) -> (r: Config)
        ensures
            r.database_url@ == view_or(database_url, "sqlite:agent_sandbox.db?mode=rwc"@),
            r.server_addr@ == view_or(server_addr, "0.0.0.0:8080"@),
            r.agent_image@ == view_or(agent_image, "agent-sandbox:latest"@),
            opt_string_view(r.api_key) == some_nonempty(api_key),
            opt_string_view(r.anthropic_api_key) == some_nonempty(anthropic_api_key),
            views(r.allowed_origins@) == match allowed_origins {
                Some(list) => origins_view(list@),
                None => default_origins(),
            },
    {
        let origins = match &allowed_origins {
            Some(list) => parse_origins(list.as_str()),
            None => {
                let mut v: Vec<String> = Vec::new();
                v.push(String::from_str("http://localhost:3000"));
                v.push(String::from_str("http://localhost:8080"));
                v.push(String::from_str("http://127.0.0.1:3000"));
                v.push(String::from_str("http://127.0.0.1:8080"));
                assert(views(v@) =~= default_origins());
                v
            },
        };
        Config {
            database_url: string_or_default(database_url, "sqlite:agent_sandbox.db?mode=rwc"),
            server_addr: string_or_default(server_addr, "0.0.0.0:8080"),
            agent_image: string_or_default(agent_image, "agent-sandbox:latest"),
            api_key: nonempty_or_none(api_key),
            anthropic_api_key: nonempty_or_none(anthropic_api_key),
            allowed_origins: origins,
        }
    }

    /// The settings with the keys stored in the database put over those of the
    /// environment: a stored key replaces the configured one, a missing one leaves it.
    pub fn with_stored_keys(self, api_key: Option<String>, anthropic_api_key: Option<String>) -> (r: Config)
        ensures
            r.database_url == self.database_url,
            r.server_addr == self.server_addr,
            r.agent_image == self.agent_image,
            r.allowed_origins == self.allowed_origins,
            r.api_key == (if api_key is Some { api_key } else { self.api_key }),
            r.anthropic_api_key == (if anthropic_api_key is Some { anthropic_api_key } else { self.anthropic_api_key }),
    {
        let mut c = self;
        if api_key.is_some() {
            c.api_key = api_key;
        }
        if anthropic_api_key.is_some() {
            c.anthropic_api_key = anthropic_api_key;
        }
        c
    }
}

// ---------------------------------------------------------------------------
// CORS
// ---------------------------------------------------------------------------

/// A character that may stand in an HTTP header value: tab, or any character
/// from the space up but DEL (every byte of a multi-byte character passes the
/// byte test of `http::HeaderValue::from_str`).
pub open spec fn header_char_ok(c: char) -> bool {
    c == '\t' || ((c as u32) >= 0x20 && (c as u32) != 0x7f)
}

/// Whether `s` is a valid HTTP header value.
pub open spec fn header_value_ok(s: Seq<char>) -> bool {
    forall|i: int| 0 <= i < s.len() ==> header_char_ok(#[trigger] s[i])
}

/// The origins that pass as header values, in order.
pub open spec fn valid_origins(origins: Seq<Seq<char>>) -> Seq<Seq<char>>
    decreases origins.len(),
{
    if origins.len() == 0 {
        Seq::empty()
    } else {
        let prev = valid_origins(origins.drop_last());
        if header_value_ok(origins.last()) {
            prev.push(origins.last())
        } else {
            prev
        }
    }
}

/// The origins whose cross-origin requests the API answers.
#[derive(Debug, Clone)]
pub enum AllowedOrigins {
    Any,
    List(Vec<String>),
}

/// The request headers that cross-origin requests may send.
#[derive(Debug, Clone, Copy, PartialEq, Eq, Structural)]
pub enum AllowedHeaders {
    Any,
    AuthorizationAndContentType,
}

/// Which cross-origin requests the API answers, and how.
#[derive(Debug, Clone)]
pub struct CorsPolicy {
    pub origins: AllowedOrigins,
    pub methods: Vec<String>,
    pub headers: AllowedHeaders,
    pub allow_credentials: bool,
}

/// The methods that cross-origin requests may use.
pub open spec fn cors_methods() -> Seq<Seq<char>> {
    seq!["GET"@, "POST"@, "PUT"@, "PATCH"@, "DELETE"@, "OPTIONS"@]
}

fn cors_method_list() -> (r: Vec<String>)
    ensures
        views(r@) == cors_methods(),
{
    let mut v: Vec<String> = Vec::new();
    v.push(String::from_str("GET"));
    v.push(String::from_str("POST"));
    v.push(String::from_str("PUT"));
    v.push(String::from_str("PATCH"));
    v.push(String::from_str("DELETE"));
    v.push(String::from_str("OPTIONS"));
    assert(views(v@) =~= cors_methods());
    v
}

/// Whether `s` passes as an HTTP header value.
pub fn is_header_value(s: &str) -> (r: bool)
    ensures
        r == header_value_ok(s@),
{
    let v = chars_of(s);
    let mut i: usize = 0;
    while i < v.len()
        invariant
            i <= v@.len(),
            v@ == s@,
            forall|j: int| 0 <= j < i ==> header_char_ok(#[trigger] v@[j]),
        decreases v@.len() - i,
    {
        let c = v[i];
        if !(c == '\t' || ((c as u32) >= 0x20 && (c as u32) != 0x7f)) {
            assert(!header_char_ok(v@[i as int]));
            return false;
        }
        i += 1;
    }
    true
}

/// The CORS policy of the configured origins. Where one of them is `*`: any
/// origin, any request header, no credentials. Else: the origins that are valid
/// header values (the others are ignored), the `Authorization` and `Content-Type`
/// headers, and credentials. Either way the methods GET, POST, PUT, PATCH, DELETE
/// and OPTIONS.
pub fn cors_policy(origins: &Vec<String>) -> (r: CorsPolicy)
    ensures
        views(r.methods@) == cors_methods(),
        views(origins@).contains("*"@) ==> {
            &&& r.origins is Any
            &&& r.headers == AllowedHeaders::Any
            &&& !r.allow_credentials
        },
        !views(origins@).contains("*"@) ==> {
            &&& r.origins matches AllowedOrigins::List(v) && views(v@) == valid_origins(views(origins@))
            &&& r.headers == AllowedHeaders::AuthorizationAndContentType
            &&& r.allow_credentials
        },
{
    let star = chars_of("*");
    let mut i: usize = 0;
    while i < origins.len()
        invariant
            i <= origins@.len(),
            star@ == "*"@,
            forall|j: int| 0 <= j < i ==> #[trigger] views(origins@)[j] != "*"@,
        decreases origins@.len() - i,
    {
        if chars_eq(&chars_of(origins[i].as_str()), &star) {
            assert(views(origins@)[i as int] == "*"@);
            return CorsPolicy {
                origins: AllowedOrigins::Any,
                methods: cors_method_list(),
                headers: AllowedHeaders::Any,
                allow_credentials: false,
            };
        }
        i += 1;
    }
    let mut out: Vec<String> = Vec::new();
    let mut k: usize = 0;
    while k < origins.len()
        invariant
            k <= origins@.len(),
            views(out@) == valid_origins(views(origins@).take(k as int)),
        decreases origins@.len() - k,
    {
        let ghost ov = views(origins@);
        assert(ov.take(k + 1).drop_last() =~= ov.take(k as int));
        assert(ov.take(k + 1).last() == origins@[k as int]@);
        if is_header_value(origins[k].as_str()) {
            let ghost before = views(out@);
            out.push(origins[k].clone());
            assert(views(out@) =~= before.push(origins@[k as int]@));
        }
        k += 1;
    }
    assert(views(origins@).take(origins@.len() as int) =~= views(origins@));
    CorsPolicy {
        origins: AllowedOrigins::List(out),
        methods: cors_method_list(),
        headers: AllowedHeaders::AuthorizationAndContentType,
        allow_credentials: true,
    }
}

} // verus!
