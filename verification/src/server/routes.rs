//! Configuration read by the router : the environment variable naming
//! the allowed CORS origins, how its value is split into origins, and
//! the CORS policy that results.

use vstd::prelude::*;
use axum::http::HeaderValue;
use crate::text::{is_ws, trim, trim_seq};

verus! {

/// Name of the environment variable listing the allowed CORS origins
/// (comma-separated).
pub fn allowed_origins_env_name() -> (s: &'static str)
    ensures
        s@ == "BSE_ALLOWED_ORIGINS"@,
{
    "BSE_ALLOWED_ORIGINS"
}

/// The pieces of `s` between commas, as `str::split(',')` yields them
/// (always at least one piece).
pub open spec fn split_commas(s: Seq<char>) -> Seq<Seq<char>>
    decreases s.len(),
{
    if s.len() == 0 {
        seq![Seq::empty()]
    } else {
        let init = split_commas(s.drop_last());
        if s.last() == ',' {
            init.push(Seq::empty())
        } else {
            init.update(init.len() - 1, init.last().push(s.last()))
        }
    }
}

/// The trimmed pieces that are not blank, in order.
pub open spec fn kept_origins(pieces: Seq<Seq<char>>) -> Seq<Seq<char>>
    decreases pieces.len(),
{
    if pieces.len() == 0 {
        Seq::empty()
    } else {
        let rest = kept_origins(pieces.drop_last());
        if trim_seq(pieces.last()).len() > 0 {
            rest.push(trim_seq(pieces.last()))
        } else {
            rest
        }
    }
}

proof fn lemma_split_nonempty(s: Seq<char>)
    ensures
        split_commas(s).len() >= 1,
    decreases s.len(),
{
    if s.len() > 0 {
        lemma_split_nonempty(s.drop_last());
    }
}

/// The candidate origins of a comma-separated list : each piece between
/// commas, trimmed, blank pieces dropped.
pub fn origin_candidates(value: &str) -> (out: Vec<String>)
    ensures
        out@.len() == kept_origins(split_commas(value@)).len(),
        forall|j: int| 0 <= j < out@.len() ==> #[trigger] out@[j]@ == kept_origins(split_commas(value@))[j],
{
    let n = value.unicode_len();
    let mut out: Vec<String> = Vec::new();
    let mut start: usize = 0;
    let mut i: usize = 0;
    let ghost mut done: Seq<Seq<char>> = Seq::empty();
    proof {
        assert(value@.take(0) =~= Seq::<char>::empty());
        assert(done.push(value@.subrange(0, 0)) =~= seq![Seq::<char>::empty()]);
    }
    while i < n
        invariant
            n == value@.len(),
            start <= i <= n,
            split_commas(value@.take(i as int)) == done.push(value@.subrange(start as int, i as int)),
            out@.len() == kept_origins(done).len(),
            forall|j: int| 0 <= j < out@.len() ==> #[trigger] out@[j]@ == kept_origins(done)[j],
        decreases n - i,
    {
        let c = value.get_char(i);
        proof {
            assert(value@.take(i + 1).drop_last() =~= value@.take(i as int));
            assert(value@.take(i + 1).last() == c);
            lemma_split_nonempty(value@.take(i as int));
        }
        if c == ',' {
            let piece = value.substring_char(start, i);
            let trimmed = trim(piece);
            let ghost old_done = done;
            proof {
                done = done.push(value@.subrange(start as int, i as int));
                assert(done.drop_last() =~= old_done);
                assert(done.last() == piece@);
            }
            if !trimmed.is_empty() {
                out.push(trimmed.to_owned());
            }
            start = i + 1;
            proof {
                assert(value@.subrange(start as int, i + 1) =~= Seq::<char>::empty());
                assert(split_commas(value@.take(i + 1)) =~= done.push(value@.subrange(start as int, i + 1)));
            }
        } else {
            assert(value@.subrange(start as int, i + 1) =~= value@.subrange(start as int, i as int).push(c));
            assert(split_commas(value@.take(i + 1)) =~= done.push(value@.subrange(start as int, i + 1)));
        }
        i = i + 1;
    }
    let piece = value.substring_char(start, n);
    let trimmed = trim(piece);
    let ghost old_done = done;
    proof {
        assert(value@.take(n as int) =~= value@);
        done = done.push(value@.subrange(start as int, n as int));
        assert(done.drop_last() =~= old_done);
        assert(done.last() == piece@);
        assert(split_commas(value@) == done);
    }
    if !trimmed.is_empty() {
        out.push(trimmed.to_owned());
    }
    out
}

/// `c` may appear in an HTTP header value : any character from the space
/// up, except DEL, or a tab. (Non-ASCII characters qualify : their UTF-8
/// bytes are all above 127.)
pub open spec fn header_char_ok(c: char) -> bool {
    (c as u32 >= 32 && c as u32 != 127) || c == '\t'
}

/// Every character of `s` may appear in an HTTP header value.
pub open spec fn header_value_ok(s: Seq<char>) -> bool {
    forall|i: int| 0 <= i < s.len() ==> header_char_ok(#[trigger] s[i])
}

/// Whether `s` is accepted as an HTTP header value.
///
/// Calls `HeaderValue::from_str` (crate `http`, through `axum::http`),
/// which refuses a text as soon as one of its bytes is below 32 (other
/// than a tab) or is 127 ; the contract states that rule over characters.
#[verifier::external_body]
fn is_header_value(s: &str) -> (ok: bool)
    ensures
        ok == header_value_ok(s@),
{
    HeaderValue::from_str(s).is_ok()
}

/// The test an origin must pass to be kept.
pub open spec fn origin_ok() -> spec_fn(Seq<char>) -> bool {
    |o: Seq<char>| header_value_ok(o)
}

/// The allowed origins configured by `value` : its candidates that are
/// valid header values, in order.
pub open spec fn valid_origins(value: Seq<char>) -> Seq<Seq<char>> {
    kept_origins(split_commas(value)).filter(origin_ok())
}

/// The CORS policy of the router.
#[derive(Debug)]
pub enum CorsPolicy {
    /// Any origin, method and header (local development).
    Permissive,
    /// Only these origins, with `GET`, `POST`, `DELETE`, `OPTIONS` and the
    /// `Content-Type` and `Authorization` headers.
    Origins(Vec<String>),
}

/// The CORS policy for the configured origin list (`None` when the
/// variable is unset) : the listed origins when at least one of them is
/// a valid header value, the permissive policy otherwise. Malformed
/// origins are skipped.
pub fn cors_policy(configured: Option<&str>) -> (p: CorsPolicy)
    ensures
        match configured {
            Some(v) if valid_origins(v@).len() > 0 => p matches CorsPolicy::Origins(list) && list@.len()
                == valid_origins(v@).len() && forall|j: int|
                0 <= j < list@.len() ==> #[trigger] list@[j]@ == valid_origins(v@)[j],
            _ => p is Permissive,
        },
{
    let v = match configured {
        None => {
            return CorsPolicy::Permissive;
        },
        Some(v) => v,
    };
    let candidates = origin_candidates(v);
    let ghost kept = kept_origins(split_commas(v@));
    let mut allowed: Vec<String> = Vec::new();
    let mut i: usize = 0;
    while i < candidates.len()
        invariant
            candidates@.len() == kept.len(),
            forall|j: int| 0 <= j < candidates@.len() ==> #[trigger] candidates@[j]@ == kept[j],
            i <= candidates@.len(),
            allowed@.len() == kept.take(i as int).filter(origin_ok()).len(),
            forall|j: int|
                0 <= j < allowed@.len() ==> #[trigger] allowed@[j]@ == kept.take(i as int).filter(
                    origin_ok(),
                )[j],
        decreases candidates@.len() - i,
    {
        let ok = is_header_value(candidates[i].as_str());
        proof {
            reveal(Seq::filter);
            assert(kept.take(i + 1).drop_last() =~= kept.take(i as int));
            assert(kept.take(i + 1).last() == kept[i as int]);
        }
        if ok {
            allowed.push(candidates[i].clone());
        }
        i = i + 1;
    }
    proof {
        assert(kept.take(i as int) =~= kept);
    }
    if allowed.len() == 0 {
        CorsPolicy::Permissive
    } else {
        CorsPolicy::Origins(allowed)
    }
}

/// Largest body accepted on the JSON endpoints, in bytes (1 MiB).
pub const JSON_BODY_LIMIT: usize = 1048576;

/// Seconds after which one request of a client IP's auth quota is
/// replenished.
pub const AUTH_REPLENISH_SECS: u64 = 2;

/// Auth requests a client IP may make in a burst before being limited.
pub const AUTH_RATE_BURST: u32 = 10;

/// The static security headers set on every response, as
/// `(name, value)` pairs.
pub open spec fn security_header_list() -> Seq<(Seq<char>, Seq<char>)> {
    seq![
        ("x-content-type-options"@, "nosniff"@),
        ("x-frame-options"@, "DENY"@),
        ("referrer-policy"@, "no-referrer"@),
        ("permissions-policy"@, "geolocation=(), camera=(), microphone=()"@),
    ]
}

/// The static response headers that improve baseline browser security,
/// in the order they are applied.
pub fn security_headers() -> (h: Vec<(&'static str, &'static str)>)
    ensures
        h@.len() == security_header_list().len(),
        forall|j: int|
            0 <= j < h@.len() ==> (#[trigger] h@[j]).0@ == security_header_list()[j].0 && h@[j].1@
                == security_header_list()[j].1,
{
    let h = vec![
        ("x-content-type-options", "nosniff"),
        ("x-frame-options", "DENY"),
        ("referrer-policy", "no-referrer"),
        ("permissions-policy", "geolocation=(), camera=(), microphone=()"),
    ];
    assert(h@.len() == 4);
    h
}

} // verus!
