//! What a route attribute says: its method, path and error statuses.
use vstd::prelude::*;
use vstd::string::*;
use crate::text::{owned, push_char, text_eq, texts};

verus! {

/// The route that an attribute declares.
pub struct RouteInfo {
    pub method: String,
    pub path: Option<String>,
    pub error_status: Option<Vec<u16>>,
}

/// Whether an attribute path names the route attribute: `vespera::route`
/// or `route`, in the list form.
pub open spec fn is_route_path(segs: Seq<Seq<char>>, is_list: bool) -> bool {
    is_list && (segs == seq!["vespera"@, "route"@] || segs == seq!["route"@])
}

/// Whether an attribute with path `segments` is a route attribute.
pub fn check_route_by_meta(segments: &[String], is_list: bool) -> (r: bool)
    ensures
        r == is_route_path(texts(segments@), is_list),
{
    let ghost ss = texts(segments@);
    let ghost two = seq!["vespera"@, "route"@];
    let ghost one = seq!["route"@];
    proof {
        assert(two.len() == 2 && two[0] == "vespera"@ && two[1] == "route"@);
        assert(one.len() == 1 && one[0] == "route"@);
    }
    if !is_list {
        return false;
    }
    let r = if segments.len() == 2 {
        text_eq(segments[0].as_str(), "vespera") && text_eq(segments[1].as_str(), "route")
    } else if segments.len() == 1 {
        text_eq(segments[0].as_str(), "route")
    } else {
        false
    };
    proof {
        assert(ss.len() == segments.len());
        if ss.len() == 2 {
            assert(ss[0] == segments@[0]@ && ss[1] == segments@[1]@);
            if r {
                assert(ss =~= two);
            }
        } else if ss.len() == 1 {
            assert(ss[0] == segments@[0]@);
            if r {
                assert(ss =~= one);
            }
        }
    }
    r
}

/// The status codes that parsed, in order.
pub open spec fn parsed_codes(codes: Seq<Option<u16>>) -> Seq<u16>
    decreases codes.len(),
{
    if codes.len() == 0 {
        seq![]
    } else {
        match codes.last() {
            Some(c) => parsed_codes(codes.drop_last()).push(c),
            None => parsed_codes(codes.drop_last()),
        }
    }
}

/// The route declared by the arguments of a route attribute: the method
/// defaults to `get`; of the error statuses only those that parsed as codes
/// are kept, and none at all is recorded when none did.
pub fn route_info_from_args(
    method: Option<String>,
    path: Option<String>,
    error_status: Option<Vec<Option<u16>>>,
) -> (r: RouteInfo)
    ensures
        r.method@ == match method { Some(m) => m@, None => "get"@ },
        r.path == path,
        match error_status {
            None => r.error_status is None,
            Some(v) => if parsed_codes(v@).len() == 0 {
                r.error_status is None
            } else {
                r.error_status is Some && r.error_status->0@ == parsed_codes(v@)
            },
        },
{
    let method = match method {
        Some(m) => m,
        None => owned("get"),
    };
    let error_status = match error_status {
        None => None,
        Some(v) => {
            let mut codes: Vec<u16> = Vec::new();
            let mut i: usize = 0;
            while i < v.len()
                invariant
                    i <= v.len(),
                    codes@ == parsed_codes(v@.subrange(0, i as int)),
                decreases v.len() - i,
            {
                proof {
                    assert(v@.subrange(0, i + 1).drop_last() =~= v@.subrange(0, i as int));
                }
                if let Some(c) = v[i] {
                    codes.push(c);
                }
                i = i + 1;
            }
            proof {
                assert(v@.subrange(0, v.len() as int) =~= v@);
            }
            if codes.len() == 0 {
                None
            } else {
                Some(codes)
            }
        },
    };
    RouteInfo { method, path, error_status }
}

/// Why a handler cannot carry the route attribute.
#[derive(Clone, Copy, Debug, PartialEq, Eq, Structural)]
pub enum RouteFnError {
    NotPublic,
    NotAsync,
}

impl RouteFnError {
    /// The message shown at the handler.
    pub fn message(&self) -> (r: String)
        ensures
            r@ == match *self {
                RouteFnError::NotPublic => "#[route] attribute: function must be public. Add `pub` before `fn`."@,
                RouteFnError::NotAsync => "#[route] attribute: function must be async. Add `async` before `fn`."@,
            },
    {
        match self {
            RouteFnError::NotPublic => owned("#[route] attribute: function must be public. Add `pub` before `fn`."),
            RouteFnError::NotAsync => owned("#[route] attribute: function must be async. Add `async` before `fn`."),
        }
    }
}

/// A route handler must be public and async; visibility is checked first.
pub fn validate_route_fn(is_public: bool, is_async: bool) -> (r: Result<(), RouteFnError>)
    ensures
        !is_public ==> r == Err::<(), RouteFnError>(RouteFnError::NotPublic),
        is_public && !is_async ==> r == Err::<(), RouteFnError>(RouteFnError::NotAsync),
        is_public && is_async ==> r is Ok,
{
    if !is_public {
        return Err(RouteFnError::NotPublic);
    }
    if !is_async {
        return Err(RouteFnError::NotAsync);
    }
    Ok(())
}

/// The placeholders closed within the first `n` characters of a route
/// template, and the one still open, if any.
pub open spec fn scan_placeholders(s: Seq<char>, n: int) -> (Seq<Seq<char>>, Option<Seq<char>>)
    decreases n,
{
    if n <= 0 {
        (seq![], None)
    } else {
        let (done, open) = scan_placeholders(s, n - 1);
        let c = s[n - 1];
        if c == '{' {
            (done, Some(seq![]))
        } else if c == '}' {
            match open {
                Some(x) => (done.push(x), None),
                None => (done, None),
            }
        } else {
            match open {
                Some(x) => (done, Some(x.push(c))),
                None => (done, None),
            }
        }
    }
}

/// The names of the `{name}` placeholders of a route template, in order.
pub open spec fn placeholders(s: Seq<char>) -> Seq<Seq<char>> {
    scan_placeholders(s, s.len() as int).0
}

/// The names of the `{name}` placeholders of a route template, in order:
/// `/users/{id}/posts/{post_id}` gives `id` and `post_id`.
pub fn path_placeholders(path: &str) -> (r: Vec<String>)
    ensures
        texts(r@) == placeholders(path@),
{
    let n = path.unicode_len();
    let mut done: Vec<String> = Vec::new();
    let mut open: Option<String> = None;
    let mut i: usize = 0;
    while i < n
        invariant
            n == path@.len(),
            i <= n,
            texts(done@) == scan_placeholders(path@, i as int).0,
            crate::text::opt_view(open) == scan_placeholders(path@, i as int).1,
        decreases n - i,
    {
        let c = path.get_char(i);
        if c == '{' {
            open = Some(String::new());
        } else if c == '}' {
            match open {
                Some(x) => {
                    let ghost before = done@;
                    let ghost xv = x@;
                    done.push(x);
                    proof {
                        assert(texts(done@) =~= texts(before).push(xv));
                    }
                },
                None => {},
            }
            open = None;
        } else {
            open = match open {
                Some(x) => {
                    let mut y = x;
                    push_char(&mut y, c);
                    Some(y)
                },
                None => None,
            };
        }
        i = i + 1;
    }
    done
}

} // verus!
