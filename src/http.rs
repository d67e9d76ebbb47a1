//! The HTTP methods that a route may name.
use vstd::prelude::*;
use vstd::string::*;
use crate::text::{lower, to_lower};

verus! {

/// The supported HTTP methods, in lower case.
pub const HTTP_METHODS: [&'static str; 8] = ["get", "post", "put", "patch", "delete", "head", "options", "trace"];

/// The supported HTTP methods, in lower case.
pub open spec fn methods() -> Seq<Seq<char>> {
    seq!["get"@, "post"@, "put"@, "patch"@, "delete"@, "head"@, "options"@, "trace"@]
}

/// A string with its ASCII letters in lower case.
pub open spec fn lowered(s: Seq<char>) -> Seq<char> {
    Seq::new(s.len(), |i: int| lower(s[i]))
}

/// Whether `s`, with its letters in lower case, is `m`.
fn same_ignoring_case(s: &str, m: &str) -> (r: bool)
    ensures
        r == (lowered(s@) == m@),
{
    let n = s.unicode_len();
    if n != m.unicode_len() {
        proof {
            assert(lowered(s@).len() != m@.len());
        }
        return false;
    }
    let mut i: usize = 0;
    while i < n
        invariant
            n == s@.len(),
            n == m@.len(),
            i <= n,
            forall|k: int| 0 <= k < i ==> lower(s@[k]) == m@[k],
        decreases n - i,
    {
        if to_lower(s.get_char(i)) != m.get_char(i) {
            proof {
                assert(lowered(s@)[i as int] != m@[i as int]);
            }
            return false;
        }
        i = i + 1;
    }
    proof {
        assert(lowered(s@) =~= m@);
    }
    true
}

/// Whether `s` names a supported HTTP method, in any letter case.
pub fn is_http_method(s: &str) -> (r: bool)
    ensures
        r == methods().contains(lowered(s@)),
{
    let all = HTTP_METHODS;
    proof {
        assert(methods() =~= seq![all@[0]@, all@[1]@, all@[2]@, all@[3]@, all@[4]@, all@[5]@, all@[6]@, all@[7]@]);
    }
    let mut i: usize = 0;
    while i < 8
        invariant
            i <= 8,
            methods() =~= seq![all@[0]@, all@[1]@, all@[2]@, all@[3]@, all@[4]@, all@[5]@, all@[6]@, all@[7]@],
            forall|k: int| 0 <= k < i ==> methods()[k] != lowered(s@),
        decreases 8 - i,
    {
        if same_ignoring_case(s, all[i]) {
            proof {
                assert(methods()[i as int] == lowered(s@));
            }
            return true;
        }
        i = i + 1;
    }
    false
}

} // verus!
