//! Address handling: parsing absolute URLs and resolving endpoints.
//!
//! An address is modelled by its components: scheme, authority, path, and
//! query. Parsing a string into components is the URL library's work, behind
//! a trusted wrapper; resolving an endpoint against a base follows the
//! standard merge rule — an endpoint starting with `/` replaces the base
//! path, any other non-empty relative endpoint is appended in place of the
//! base path's last segment, an empty reference keeps the base path and
//! query, and an absolute endpoint is taken whole but rejected when its
//! scheme differs from the base's.

use vstd::prelude::*;

use crate::errors::TransferError;

verus! {

/// The error type of the URL library, carried opaquely.
#[verifier::external_type_specification]
#[verifier::external_body]
pub struct ExUrlParseError(url::ParseError);

/// The components of an absolute URL.
#[derive(Debug, Clone)]
pub struct UrlParts {
    pub scheme: String,
    pub authority: String,
    pub path: String,
    pub query: Option<String>,
}

impl UrlParts {
    /// The components as mathematical values.
    pub open spec fn model(&self) -> (Seq<char>, Seq<char>, Seq<char>, Option<Seq<char>>) {
        (
            self.scheme@,
            self.authority@,
            self.path@,
            match self.query {
                Some(q) => Some(q@),
                None => None,
            },
        )
    }
}

/// What parsing an address string yields: `None` when the string is not an
/// absolute URL, otherwise its scheme, authority, path, and query.
pub uninterp spec fn parsed_url_of(s: Seq<char>) -> Option<
    (Seq<char>, Seq<char>, Seq<char>, Option<Seq<char>>),
>;

/// Relies on `url::Url::parse` and the accessors `scheme`, `authority`,
/// `path` and `query`: parsing validates the address and splits it into its
/// components, a function of the string alone.
#[verifier::external_body]
pub(crate) fn parse_url(s: &str) -> (r: Result<UrlParts, url::ParseError>)
    ensures
        r is Ok <==> parsed_url_of(s@) is Some,
        r matches Ok(p) ==> p.model() == parsed_url_of(s@).unwrap(),
{
    match url::Url::parse(s) {
        Ok(u) => Ok(
            UrlParts {
                scheme: u.scheme().to_string(),
                authority: u.authority().to_string(),
                path: u.path().to_string(),
                query: u.query().map(|q| q.to_string()),
            },
        ),
        Err(e) => Err(e),
    }
}

/// Character-exact string equality.
pub fn str_eq(a: &str, b: &str) -> (r: bool)
    ensures
        r == (a@ == b@),
{
    let la = a.unicode_len();
    let lb = b.unicode_len();
    if la != lb {
        proof {
            assert(a@ == b@ ==> a@.len() == b@.len());
        }
        return false;
    }
    let mut i: usize = 0;
    while i < la
        invariant
            i <= la,
            la == a@.len(),
            la == b@.len(),
            forall|k: int| 0 <= k < i ==> a@[k] == b@[k],
        decreases la - i,
    {
        if a.get_char(i) != b.get_char(i) {
            proof {
                assert(a@ == b@ ==> a@[i as int] == b@[i as int]);
            }
            return false;
        }
        i = i + 1;
    }
    proof {
        assert(a@ =~= b@);
    }
    true
}

/// The base path up to and including its last `/`; empty when the path holds
/// no `/` at all.
pub open spec fn dir_of(p: Seq<char>) -> Seq<char>
    decreases p.len(),
{
    if p.len() == 0 {
        Seq::empty()
    } else if p.last() == '/' {
        p
    } else {
        dir_of(p.drop_last())
    }
}

/// The merged path of a relative endpoint against a base path: an empty
/// reference path keeps the base path, a rooted one replaces it, any other
/// one is appended in place of the base path's last segment.
pub open spec fn merged_path(base_path: Seq<char>, epath: Seq<char>) -> Seq<char> {
    if epath.len() == 0 {
        base_path
    } else if epath[0] == '/' {
        epath
    } else {
        dir_of(base_path) + epath
    }
}

/// The merged query: the endpoint's own query when it carries a `?`;
/// otherwise the base query is kept only for an empty reference path.
pub open spec fn merged_query(base_query: Option<Seq<char>>, endpoint: Seq<char>) -> Option<
    Seq<char>,
> {
    match query_split(endpoint).1 {
        Some(q) => Some(q),
        None => if query_split(endpoint).0.len() == 0 {
            base_query
        } else {
            None
        },
    }
}

/// Split a relative endpoint at its first `?` into path and query.
pub open spec fn query_split(s: Seq<char>) -> (Seq<char>, Option<Seq<char>>)
    decreases s.len(),
{
    if s.len() == 0 {
        (Seq::empty(), None)
    } else if s[0] == '?' {
        (Seq::empty(), Some(s.drop_first()))
    } else {
        let (p, q) = query_split(s.drop_first());
        (seq![s[0]] + p, q)
    }
}

proof fn lemma_query_split_at(s: Seq<char>, i: int)
    requires
        0 <= i <= s.len(),
        forall|k: int| 0 <= k < i ==> s[k] != '?',
        i < s.len() ==> s[i] == '?',
    ensures
        i < s.len() ==> query_split(s) == (s.take(i), Some(s.skip(i + 1))),
        i == s.len() ==> query_split(s) == (s, None::<Seq<char>>),
    decreases s.len(),
{
    if s.len() == 0 {
        assert(s.take(0) =~= s);
    } else if i == 0 {
        if i < s.len() {
            assert(s.take(0) =~= Seq::<char>::empty());
            assert(s.skip(1) =~= s.drop_first());
        }
    } else {
        let rest = s.drop_first();
        assert(forall|k: int| 0 <= k < i - 1 ==> rest[k] != '?');
        lemma_query_split_at(rest, i - 1);
        if i < s.len() {
            assert(seq![s[0]] + rest.take(i - 1) =~= s.take(i));
            assert(rest.skip(i) =~= s.skip(i + 1));
        } else {
            assert(seq![s[0]] + rest =~= s);
        }
    }
}

/// The directory prefix of a path: everything up to and including the last
/// `/`.
pub fn dir_prefix(p: &str) -> (r: String)
    ensures
        r@ == dir_of(p@),
{
    let n = p.unicode_len();
    let mut j: usize = n;
    proof {
        assert(p@.take(n as int) =~= p@);
    }
    while j > 0
        invariant
            j <= n,
            n == p@.len(),
            dir_of(p@) == dir_of(p@.take(j as int)),
        decreases j,
    {
        if p.get_char(j - 1) == '/' {
            proof {
                assert(p@.take(j as int).last() == p@[j as int - 1]);
            }
            let r = p.substring_char(0, j).to_owned();
            proof {
                assert(r@ =~= p@.take(j as int));
            }
            return r;
        }
        proof {
            assert(p@.take(j as int).last() == p@[j as int - 1]);
            assert(p@.take(j as int).drop_last() =~= p@.take(j as int - 1));
        }
        j = j - 1;
    }
    proof {
        assert(p@.take(0) =~= Seq::<char>::empty());
        assert(dir_of(p@) =~= Seq::<char>::empty());
    }
    String::new()
}

/// The components a relative endpoint merges to against a base, before
/// validation: the base's scheme and authority, the merged path, and the
/// merged query.
pub open spec fn merged_model(
    base: (Seq<char>, Seq<char>, Seq<char>, Option<Seq<char>>),
    endpoint: Seq<char>,
) -> (Seq<char>, Seq<char>, Seq<char>, Option<Seq<char>>) {
    (base.0, base.1, merged_path(base.2, query_split(endpoint).0), merged_query(
        base.3,
        endpoint,
    ))
}

/// What an endpoint resolves to against a base address: an absolute endpoint
/// on the base's scheme is taken whole, one on another scheme is rejected
/// (`None`), and a relative endpoint is merged, rendered, and validated by a
/// full parse — `None` when the merged address is not a valid absolute URL.
pub open spec fn spec_resolved(
    base: (Seq<char>, Seq<char>, Seq<char>, Option<Seq<char>>),
    endpoint: Seq<char>,
) -> Option<(Seq<char>, Seq<char>, Seq<char>, Option<Seq<char>>)> {
    match parsed_url_of(endpoint) {
        Some(t) => if t.0 == base.0 {
            Some(t)
        } else {
            None
        },
        None => parsed_url_of(render_model(merged_model(base, endpoint))),
    }
}

/// The address string the components render to.
pub open spec fn render_model(t: (Seq<char>, Seq<char>, Seq<char>, Option<Seq<char>>)) -> Seq<
    char,
> {
    t.0 + "://"@ + t.1 + t.2 + (match t.3 {
        Some(q) => "?"@ + q,
        None => Seq::<char>::empty(),
    })
}

/// Resolve an endpoint against a base address. An absolute endpoint on the
/// base's scheme is taken whole; one on another scheme is rejected. A
/// relative endpoint is split at its first `?`, its path merged against the
/// base path by the standard rule, its query (if any) taken in place of the
/// base's — and the merged address is validated (and normalized) by parsing
/// it back, so an invalid resolution is rejected here, not at send time.
pub fn resolve_endpoint(base: &UrlParts, endpoint: &str) -> (r: Result<UrlParts, TransferError>)
    ensures
        match r {
            Ok(parts) => spec_resolved(base.model(), endpoint@) == Some(parts.model()),
            Err(e) => e is Resolve && spec_resolved(base.model(), endpoint@) is None,
        },
{
    match parse_url(endpoint) {
        Ok(parts) => {
            if str_eq(parts.scheme.as_str(), base.scheme.as_str()) {
                Ok(parts)
            } else {
                Err(TransferError::Resolve)
            }
        },
        Err(_) => {
            let n = endpoint.unicode_len();
            let mut i: usize = 0;
            while i < n
                invariant_except_break
                    i <= n,
                    n == endpoint@.len(),
                    forall|k: int| 0 <= k < i ==> endpoint@[k] != '?',
                ensures
                    i <= n,
                    n == endpoint@.len(),
                    forall|k: int| 0 <= k < i ==> endpoint@[k] != '?',
                    i < n ==> endpoint@[i as int] == '?',
                decreases n - i,
            {
                if endpoint.get_char(i) == '?' {
                    break;
                }
                i = i + 1;
            }
            proof {
                lemma_query_split_at(endpoint@, i as int);
            }
            let epath = endpoint.substring_char(0, i);
            let epath_len = epath.unicode_len();
            let query: Option<String> = if i < n {
                Some(endpoint.substring_char(i + 1, n).to_owned())
            } else if epath_len == 0 {
                match &base.query {
                    Some(q) => Some(q.clone()),
                    None => None,
                }
            } else {
                None
            };
            let path: String = if epath_len == 0 {
                base.path.clone()
            } else if epath.get_char(0) == '/' {
                epath.to_owned()
            } else {
                let dir = dir_prefix(base.path.as_str());
                dir.concat(epath)
            };
            proof {
                assert(epath@ == endpoint@.take(i as int));
                assert(path@ == merged_path(base.path@, query_split(endpoint@).0));
            }
            let merged = UrlParts {
                scheme: base.scheme.clone(),
                authority: base.authority.clone(),
                path,
                query,
            };
            let rendered = url_string(&merged);
            proof {
                assert(rendered@ == render_model(merged.model()));
            }
            match parse_url(rendered.as_str()) {
                Ok(validated) => Ok(validated),
                Err(_) => Err(TransferError::Resolve),
            }
        },
    }
}

/// Render the components back to an address string:
/// `scheme://authority path` with `?query` when a query is present.
pub fn url_string(parts: &UrlParts) -> (r: String)
    ensures
        r@ == parts.scheme@ + "://"@ + parts.authority@ + parts.path@ + (match parts.query {
            Some(q) => "?"@ + q@,
            None => Seq::<char>::empty(),
        }),
{
    let mut r = String::new();
    r.append(parts.scheme.as_str());
    r.append("://");
    r.append(parts.authority.as_str());
    r.append(parts.path.as_str());
    match &parts.query {
        Some(q) => {
            r.append("?");
            r.append(q.as_str());
            proof {
                assert(r@ =~= parts.scheme@ + "://"@ + parts.authority@ + parts.path@ + ("?"@
                    + q@));
            }
        },
        None => {
            proof {
                assert(r@ =~= parts.scheme@ + "://"@ + parts.authority@ + parts.path@
                    + Seq::<char>::empty());
            }
        },
    }
    r
}

} // verus!
