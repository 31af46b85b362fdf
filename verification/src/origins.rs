//! The cross-origin policy: which web origins may call the service, with
//! which methods, headers and credentials.

use vstd::prelude::*;
use vstd::string::*;
use crate::reading::texts_of;

verus! {

/// How the service was built.
#[derive(Clone, Copy, Debug, PartialEq, Eq, Structural)]
pub enum Mode {
    Development,
    Production,
}

/// A request method that the policy can allow.
#[derive(Clone, Copy, Debug, PartialEq, Eq, Structural)]
pub enum Method {
    Get,
    Post,
    Put,
    Delete,
    Options,
}

/// The origins that may call the service: all of them, or those listed.
#[derive(Debug)]
pub enum AllowedOrigins {
    All,
    Exact(Vec<String>),
}

/// What an allow-list is, as a mathematical value.
pub ghost enum OriginsModel {
    All,
    Exact(Seq<Seq<char>>),
}

impl View for AllowedOrigins {
    type V = OriginsModel;

    open spec fn view(&self) -> OriginsModel {
        match self {
            AllowedOrigins::All => OriginsModel::All,
            AllowedOrigins::Exact(list) => OriginsModel::Exact(texts_of(list@)),
        }
    }
}

/// The whole policy.
#[derive(Debug)]
pub struct CorsPolicy {
    pub allowed_origins: AllowedOrigins,
    pub allowed_methods: Vec<Method>,
    pub all_headers_allowed: bool,
    pub allow_credentials: bool,
}

/// The pieces of a text between its commas, in order. A text without a comma
/// is one piece; each comma ends a piece and starts the next, so a text of
/// `n` commas has `n + 1` pieces, some of which may be empty.
pub open spec fn comma_separated(s: Seq<char>) -> Seq<Seq<char>>
    decreases s.len(),
{
    if s.len() == 0 {
        seq![Seq::<char>::empty()]
    } else {
        let before = comma_separated(s.drop_last());
        if s.last() == ',' {
            before.push(Seq::<char>::empty())
        } else {
            before.drop_last().push(before.last().push(s.last()))
        }
    }
}

/// The origins of a frontend development server on this machine: both
/// schemes, for both names of the local host, on both ports that such a
/// server uses.
pub open spec fn local_origins() -> Seq<Seq<char>> {
    seq![
        "http://localhost:3000"@,
        "http://127.0.0.1:3000"@,
        "http://localhost:5173"@,
        "http://127.0.0.1:5173"@,
        "https://localhost:3000"@,
        "https://127.0.0.1:3000"@,
        "https://localhost:5173"@,
        "https://127.0.0.1:5173"@,
    ]
}

/// The methods that the policy always allows.
pub open spec fn standard_methods() -> Seq<Method> {
    seq![Method::Get, Method::Post, Method::Put, Method::Delete, Method::Options]
}

/// The allow-list for a mode and the configured list of origins, if one was
/// configured: the local origins in development; in production the pieces of
/// the configured list, and every origin where none was configured.
pub open spec fn origins_for(mode: Mode, configured: Option<Seq<char>>) -> OriginsModel {
    match mode {
        Mode::Development => OriginsModel::Exact(local_origins()),
        Mode::Production => match configured {
            Some(list) => OriginsModel::Exact(comma_separated(list)),
            None => OriginsModel::All,
        },
    }
}

/// What an optional text holds.
pub open spec fn text_of(t: Option<&str>) -> Option<Seq<char>> {
    match t {
        Some(s) => Some(s@),
        None => None,
    }
}

/// Cuts a text at its commas.
pub fn split_commas(s: &str) -> (r: Vec<String>)
    ensures
        texts_of(r@) == comma_separated(s@),
{
    let n: usize = s.unicode_len();
    let mut out: Vec<String> = Vec::new();
    let mut start: usize = 0;
    let mut i: usize = 0;
    assert(s@.take(0) =~= Seq::<char>::empty());
    assert(texts_of(out@).push(s@.subrange(0, 0)) =~= seq![Seq::<char>::empty()]);
    while i < n
        invariant
            n == s@.len(),
            start <= i <= n,
            comma_separated(s@.take(i as int)) == texts_of(out@).push(
                s@.subrange(start as int, i as int),
            ),
        decreases n - i,
    {
        let c = s.get_char(i);
        let ghost prefix = s@.take(i as int);
        let ghost next = s@.take(i + 1);
        let ghost pieces = texts_of(out@);
        proof {
            assert(next.drop_last() =~= prefix);
            assert(next.last() == c);
            assert(comma_separated(prefix).last() == s@.subrange(start as int, i as int));
            assert(comma_separated(prefix).drop_last() =~= pieces);
        }
        if c == ',' {
            out.push(s.substring_char(start, i).to_owned());
            start = i + 1;
            proof {
                assert(texts_of(out@) =~= comma_separated(prefix));
                assert(s@.subrange(start as int, i + 1) =~= Seq::<char>::empty());
            }
        } else {
            proof {
                assert(s@.subrange(start as int, i as int).push(c) =~= s@.subrange(
                    start as int,
                    i + 1,
                ));
            }
        }
        i += 1;
    }
    assert(s@.take(n as int) =~= s@);
    out.push(s.substring_char(start, n).to_owned());
    assert(texts_of(out@) =~= comma_separated(s@));
    out
}

/// The eight local development origins.
pub fn development_origins() -> (r: Vec<String>)
    ensures
        texts_of(r@) == local_origins(),
        r@.len() == 8,
{
    let mut out: Vec<String> = Vec::new();
    out.push("http://localhost:3000".to_owned());
    out.push("http://127.0.0.1:3000".to_owned());
    out.push("http://localhost:5173".to_owned());
    out.push("http://127.0.0.1:5173".to_owned());
    out.push("https://localhost:3000".to_owned());
    out.push("https://127.0.0.1:3000".to_owned());
    out.push("https://localhost:5173".to_owned());
    out.push("https://127.0.0.1:5173".to_owned());
    assert(texts_of(out@) =~= local_origins());
    out
}

/// The allow-list of origins for a mode and the configured list, if any.
pub fn allowed_origins(mode: Mode, configured: Option<&str>) -> (r: AllowedOrigins)
    ensures
        r@ == origins_for(mode, text_of(configured)),
{
    match mode {
        Mode::Development => AllowedOrigins::Exact(development_origins()),
        Mode::Production => match configured {
            Some(list) => AllowedOrigins::Exact(split_commas(list)),
            None => AllowedOrigins::All,
        },
    }
}

/// The policy for a mode and the configured list of origins, if any. Whatever
/// the origins, it allows the five standard methods, every header, and
/// requests with credentials.
pub fn configure_cors(mode: Mode, configured: Option<&str>) -> (r: CorsPolicy)
    ensures
        r.allowed_origins@ == origins_for(mode, text_of(configured)),
        r.allowed_methods@ == standard_methods(),
        r.all_headers_allowed,
        r.allow_credentials,
{
    let mut methods: Vec<Method> = Vec::new();
    methods.push(Method::Get);
    methods.push(Method::Post);
    methods.push(Method::Put);
    methods.push(Method::Delete);
    methods.push(Method::Options);
    assert(methods@ =~= standard_methods());
    CorsPolicy {
        allowed_origins: allowed_origins(mode, configured),
        allowed_methods: methods,
        all_headers_allowed: true,
        allow_credentials: true,
    }
}

} // verus!
