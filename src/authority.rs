use vstd::prelude::*;

verus! {

/// What parsing `uri` as a URI gives: `None` when it does not parse, else
/// the authority component it carries, if any.
pub uninterp spec fn uri_authority(uri: Seq<char>) -> Option<Option<Seq<char>>>;

/// Whether `s` parses, whole, as a URI authority (host and optional port).
pub uninterp spec fn is_authority(s: Seq<char>) -> bool;

/// Relies on `hyper::Uri::try_from(&str)` and `Uri::authority`: whether the
/// text parses as a URI and, if so, the text of its authority component.
#[verifier::external_body]
pub(crate) fn parse_uri_authority(uri: &String) -> (r: Option<Option<String>>)
    ensures
        match r {
            None => uri_authority(uri@) is None,
            Some(None) => uri_authority(uri@) == Some(None::<Seq<char>>),
            Some(Some(a)) => uri_authority(uri@) == Some(Some(a@)),
        },
{
    match hyper::Uri::try_from(uri.as_str()) {
        Ok(u) => Some(u.authority().map(|a| a.as_str().to_string())),
        Err(_) => None,
    }
}

/// Relies on `<hyper::http::uri::Authority as FromStr>::from_str`: whether
/// the text parses as an authority. A parsed authority keeps the text as is.
#[verifier::external_body]
fn parses_as_authority(host: &String) -> (r: bool)
    ensures
        r == is_authority(host@),
{
    host.parse::<hyper::http::uri::Authority>().is_ok()
}

/// Why the authority of a request could not be determined.
#[derive(Clone, Copy, Debug, PartialEq, Eq, Structural)]
pub enum ResolveError {
    /// The request target does not parse as a URI.
    InvalidUri,
    /// The target has no authority and no `host` header is present.
    MissingHost,
    /// The `host` header does not parse as an authority.
    InvalidHost,
}

/// The header name that carries the authority when the target has none.
pub open spec fn host_name() -> Seq<char> {
    seq!['h', 'o', 's', 't']
}

/// `i` is the position of the first `host` header.
pub open spec fn first_host_at(headers: Seq<(String, String)>, i: int) -> bool {
    &&& 0 <= i < headers.len()
    &&& headers[i].0@ == host_name()
    &&& forall|j: int| 0 <= j < i ==> headers[j].0@ != host_name()
}

/// The value of the first `host` header, if any.
pub open spec fn host_header(headers: Seq<(String, String)>) -> Option<Seq<char>> {
    if exists|i: int| first_host_at(headers, i) {
        Some(headers[choose|i: int| first_host_at(headers, i)].1@)
    } else {
        None
    }
}

/// The authority chosen from what the target URI gave (`uri_part`, as
/// `uri_authority` describes it), the first `host` header, and whether that
/// header parses as an authority.
pub open spec fn choose_authority(
    uri_part: Option<Option<Seq<char>>>,
    host: Option<Seq<char>>,
    host_ok: bool,
) -> Result<Seq<char>, ResolveError> {
    match uri_part {
        None => Err(ResolveError::InvalidUri),
        Some(Some(a)) => Ok(a),
        Some(None) => match host {
            None => Err(ResolveError::MissingHost),
            Some(h) => if host_ok {
                Ok(h)
            } else {
                Err(ResolveError::InvalidHost)
            },
        },
    }
}

/// The authority that selects the origin of a request: the one in its
/// target if there is one, else its `host` header.
pub open spec fn authority_of(uri: Seq<char>, headers: Seq<(String, String)>) -> Result<
    Seq<char>,
    ResolveError,
> {
    choose_authority(
        uri_authority(uri),
        host_header(headers),
        match host_header(headers) {
            Some(h) => is_authority(h),
            None => false,
        },
    )
}

pub open spec fn opt_view(o: Option<String>) -> Option<Seq<char>> {
    match o {
        Some(s) => Some(s@),
        None => None,
    }
}

/// Picks the authority from the parsed target and the first `host` header.
pub fn select_authority(uri_part: Option<Option<String>>, host: Option<&String>, host_ok: bool) -> (r:
    Result<String, ResolveError>)
    ensures
        match r {
            Ok(a) => choose_authority(
                match uri_part {
                    Some(p) => Some(opt_view(p)),
                    None => None,
                },
                match host {
                    Some(h) => Some(h@),
                    None => None,
                },
                host_ok,
            ) == Ok::<Seq<char>, ResolveError>(a@),
            Err(e) => choose_authority(
                match uri_part {
                    Some(p) => Some(opt_view(p)),
                    None => None,
                },
                match host {
                    Some(h) => Some(h@),
                    None => None,
                },
                host_ok,
            ) == Err::<Seq<char>, ResolveError>(e),
        },
{
    match uri_part {
        None => Err(ResolveError::InvalidUri),
        Some(Some(a)) => Ok(a),
        Some(None) => match host {
            None => Err(ResolveError::MissingHost),
            Some(h) => {
                if host_ok {
                    Ok(h.clone())
                } else {
                    Err(ResolveError::InvalidHost)
                }
            },
        },
    }
}

/// Finds the first header named exactly `host`.
pub fn find_host_header(headers: &Vec<(String, String)>) -> (r: Option<&String>)
    ensures
        match r {
            Some(v) => host_header(headers@) == Some(v@),
            None => host_header(headers@) is None,
        },
{
    let host = String::from_str("host");
    proof {
        reveal_strlit("host");
        assert(host@ =~= host_name());
    }
    let mut i: usize = 0;
    while i < headers.len()
        invariant
            i <= headers@.len(),
            host@ == host_name(),
            forall|j: int| 0 <= j < i ==> headers@[j].0@ != host_name(),
        decreases headers@.len() - i,
    {
        if headers[i].0 == host {
            proof {
                assert(first_host_at(headers@, i as int));
                let k = choose|k: int| first_host_at(headers@, k);
                assert(k == i) by {
                    if k < i {
                        assert(headers@[k].0@ != host_name());
                    } else if k > i {
                        assert(headers@[i as int].0@ != host_name());
                    }
                }
            }
            return Some(&headers[i].1);
        }
        i = i + 1;
    }
    proof {
        assert forall|k: int| !first_host_at(headers@, k) by {
            if 0 <= k < headers@.len() {
                assert(headers@[k].0@ != host_name());
            }
        }
    }
    None
}

/// Determines the authority of a request from its target URI and headers.
pub fn request_authority(uri: &String, headers: &Vec<(String, String)>) -> (r: Result<
    String,
    ResolveError,
>)
    ensures
        match r {
            Ok(a) => authority_of(uri@, headers@) == Ok::<Seq<char>, ResolveError>(a@),
            Err(e) => authority_of(uri@, headers@) == Err::<Seq<char>, ResolveError>(e),
        },
{
    let uri_part = parse_uri_authority(uri);
    let host = find_host_header(headers);
    let host_ok = match host {
        Some(h) => parses_as_authority(h),
        None => false,
    };
    select_authority(uri_part, host, host_ok)
}

} // verus!
