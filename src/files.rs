//! Module segments of a route file's path.
use vstd::prelude::*;
use vstd::string::*;
use crate::text::{owned, push_char, text_eq, texts};

verus! {

/// The pieces of `s` between separators, empty pieces dropped, scanning the
/// first `n` characters; the second part is the piece still open.
pub open spec fn scan(s: Seq<char>, n: int, is_sep: spec_fn(char) -> bool) -> (Seq<Seq<char>>, Seq<char>)
    decreases n,
{
    if n <= 0 {
        (seq![], seq![])
    } else {
        let (done, cur) = scan(s, n - 1, is_sep);
        if is_sep(s[n - 1]) {
            (if cur.len() > 0 { done.push(cur) } else { done }, seq![])
        } else {
            (done, cur.push(s[n - 1]))
        }
    }
}

/// The non-empty pieces of `s` between separators.
pub open spec fn pieces(s: Seq<char>, is_sep: spec_fn(char) -> bool) -> Seq<Seq<char>> {
    let (done, cur) = scan(s, s.len() as int, is_sep);
    if cur.len() > 0 { done.push(cur) } else { done }
}

pub open spec fn slash() -> spec_fn(char) -> bool {
    |c: char| c == '/'
}

pub open spec fn any_slash() -> spec_fn(char) -> bool {
    |c: char| c == '/' || c == '\\'
}

/// `s` with every `.rs` removed, scanning from the left.
pub open spec fn without_rs(s: Seq<char>) -> Seq<char>
    decreases s.len(),
{
    if s.len() >= 3 && s[0] == '.' && s[1] == 'r' && s[2] == 's' {
        without_rs(s.subrange(3, s.len() as int))
    } else if s.len() == 0 {
        seq![]
    } else {
        seq![s[0]] + without_rs(s.subrange(1, s.len() as int))
    }
}

/// The pieces joined by `/`.
pub open spec fn joined(ps: Seq<Seq<char>>) -> Seq<char>
    decreases ps.len(),
{
    if ps.len() == 0 {
        seq![]
    } else if ps.len() == 1 {
        ps[0]
    } else {
        joined(ps.drop_last()) + seq!['/'] + ps.last()
    }
}

/// Whether a path begins at the root.
pub open spec fn rooted(s: Seq<char>) -> bool {
    s.len() > 0 && s[0] == '/'
}

/// The first `n` pieces without the `.` pieces, except a first one that is
/// kept when `keep_first` holds.
pub open spec fn without_dots(ps: Seq<Seq<char>>, n: int, keep_first: bool) -> Seq<Seq<char>>
    decreases n,
{
    if n <= 0 {
        seq![]
    } else {
        let rest = without_dots(ps, n - 1, keep_first);
        if ps[n - 1] == "."@ && !(n - 1 == 0 && keep_first) {
            rest
        } else {
            rest.push(ps[n - 1])
        }
    }
}

/// The components of a path: the root, written `/`, where the path begins
/// at it, then the non-empty pieces between slashes, leaving out each `.`
/// but a leading one.
pub open spec fn components(s: Seq<char>) -> Seq<Seq<char>> {
    let ps = pieces(s, slash());
    let inner = without_dots(ps, ps.len() as int, !rooted(s));
    if rooted(s) { seq!["/"@] + inner } else { inner }
}

/// The path of `file` relative to `base` where `base`'s components begin
/// it, else `file` itself.
pub open spec fn relative(file: Seq<char>, base: Seq<char>) -> Seq<char> {
    let fp = components(file);
    let bp = components(base);
    if bp.len() <= fp.len() && fp.subrange(0, bp.len() as int) == bp {
        joined(fp.subrange(bp.len() as int, fp.len() as int))
    } else {
        file
    }
}

/// The module segments of a route file: its path relative to `base`, with
/// `.rs` removed, split at either slash, and a trailing `mod` dropped.
pub open spec fn segments_of(file: Seq<char>, base: Seq<char>) -> Seq<Seq<char>> {
    let ps = pieces(without_rs(relative(file, base)), any_slash());
    if ps.len() > 0 && ps.last() == "mod"@ { ps.drop_last() } else { ps }
}

/// The non-empty pieces of `s` between separators; `both` takes the
/// backslash as a separator too.
fn split_pieces(s: &str, both: bool) -> (r: Vec<String>)
    ensures
        texts(r@) == pieces(s@, if both { any_slash() } else { slash() }),
{
    let ghost sep = if both { any_slash() } else { slash() };
    let n = s.unicode_len();
    let mut done: Vec<String> = Vec::new();
    let mut cur = String::new();
    let mut i: usize = 0;
    while i < n
        invariant
            n == s@.len(),
            i <= n,
            sep == (if both { any_slash() } else { slash() }),
            (texts(done@), cur@) == scan(s@, i as int, sep),
        decreases n - i,
    {
        let c = s.get_char(i);
        let is_sep = c == '/' || (both && c == '\\');
        proof {
            assert(is_sep == sep(c));
        }
        if is_sep {
            if cur.unicode_len() > 0 {
                let ghost before = done@;
                done.push(cur);
                proof {
                    assert(texts(done@) =~= texts(before).push(scan(s@, i as int, sep).1));
                }
            }
            cur = String::new();
        } else {
            push_char(&mut cur, c);
        }
        i = i + 1;
    }
    if cur.unicode_len() > 0 {
        let ghost before = done@;
        let ghost last = cur@;
        done.push(cur);
        proof {
            assert(texts(done@) =~= texts(before).push(last));
        }
    }
    done
}

/// `s` with every `.rs` removed.
fn remove_rs(s: &str) -> (r: String)
    ensures
        r@ == without_rs(s@),
{
    let n = s.unicode_len();
    let mut out = String::new();
    let mut i: usize = 0;
    proof {
        assert(s@.subrange(0, n as int) =~= s@);
        assert(out@ + without_rs(s@) =~= without_rs(s@));
    }
    while i < n
        invariant
            n == s@.len(),
            i <= n,
            out@ + without_rs(s@.subrange(i as int, n as int)) == without_rs(s@),
        decreases n - i,
    {
        let ghost rest = s@.subrange(i as int, n as int);
        if n - i >= 3 && s.get_char(i) == '.' && s.get_char(i + 1) == 'r' && s.get_char(i + 2) == 's' {
            proof {
                assert(rest.subrange(3, rest.len() as int) =~= s@.subrange(i + 3, n as int));
            }
            i = i + 3;
        } else {
            let c = s.get_char(i);
            proof {
                assert(rest.subrange(1, rest.len() as int) =~= s@.subrange(i + 1, n as int));
                assert(out@.push(c) + without_rs(s@.subrange(i + 1, n as int)) =~= out@ + without_rs(rest));
            }
            push_char(&mut out, c);
            i = i + 1;
        }
    }
    proof {
        assert(out@ + without_rs(s@.subrange(n as int, n as int)) =~= out@);
    }
    out
}

/// The pieces joined by `/`.
fn join_pieces(ps: &[String]) -> (r: String)
    ensures
        r@ == joined(texts(ps@)),
{
    let mut out = String::new();
    let mut i: usize = 0;
    while i < ps.len()
        invariant
            i <= ps.len(),
            out@ == joined(texts(ps@).subrange(0, i as int)),
        decreases ps.len() - i,
    {
        let ghost pre = texts(ps@).subrange(0, i as int);
        let ghost cur = texts(ps@).subrange(0, i + 1);
        proof {
            assert(cur.drop_last() =~= pre);
        }
        if i > 0 {
            push_char(&mut out, '/');
        } else {
            proof {
                assert(cur =~= seq![ps@[0]@]);
            }
        }
        crate::text::append_str(&mut out, ps[i].as_str());
        i = i + 1;
    }
    proof {
        assert(texts(ps@).subrange(0, ps.len() as int) =~= texts(ps@));
    }
    out
}

/// The components of a path.
fn path_components(s: &str) -> (r: Vec<String>)
    ensures
        texts(r@) == components(s@),
{
    let ps = split_pieces(s, false);
    let ghost pv = texts(ps@);
    let root = s.unicode_len() > 0 && s.get_char(0) == '/';
    let mut out: Vec<String> = Vec::new();
    if root {
        out.push(owned("/"));
    }
    let ghost head = texts(out@);
    proof {
        assert(head =~= (if root { seq!["/"@] } else { Seq::<Seq<char>>::empty() }));
        assert(texts(out@) =~= head + without_dots(pv, 0, !root));
    }
    let mut i: usize = 0;
    while i < ps.len()
        invariant
            pv == texts(ps@),
            i <= ps.len(),
            head == (if root { seq!["/"@] } else { Seq::<Seq<char>>::empty() }),
            texts(out@) == head + without_dots(pv, i as int, !root),
        decreases ps.len() - i,
    {
        let dot = text_eq(ps[i].as_str(), ".");
        if !(dot && !(i == 0 && !root)) {
            let ghost before = out@;
            out.push(owned(ps[i].as_str()));
            proof {
                assert(texts(out@) =~= texts(before).push(pv[i as int]));
            }
        }
        proof {
            assert(texts(out@) =~= head + without_dots(pv, i + 1, !root));
        }
        i = i + 1;
    }
    proof {
        assert(root == rooted(s@));
    }
    out
}

/// The module segments of a route file's path, relative to the routes
/// folder `base_path`: `src/routes/users/mod.rs` under `src/routes` gives
/// `["users"]`.
pub fn file_to_segments(file: &str, base_path: &str) -> (r: Vec<String>)
    ensures
        texts(r@) == segments_of(file@, base_path@),
{
    let fp = path_components(file);
    let bp = path_components(base_path);
    let mut prefix = bp.len() <= fp.len();
    let mut i: usize = 0;
    while prefix && i < bp.len()
        invariant
            bp.len() <= fp.len() || !prefix,
            i <= bp.len(),
            prefix ==> forall|k: int| 0 <= k < i ==> fp@[k]@ == bp@[k]@,
            !prefix ==> !(bp.len() <= fp.len() && texts(fp@).subrange(0, bp.len() as int) == texts(bp@)),
        decreases bp.len() - i,
    {
        if !text_eq(fp[i].as_str(), bp[i].as_str()) {
            proof {
                if bp.len() <= fp.len() && texts(fp@).subrange(0, bp.len() as int) == texts(bp@) {
                    assert(texts(fp@).subrange(0, bp.len() as int)[i as int] == texts(bp@)[i as int]);
                }
            }
            prefix = false;
        }
        i = i + 1;
    }
    proof {
        if prefix {
            assert(texts(fp@).subrange(0, bp.len() as int) =~= texts(bp@));
        }
    }
    let rel = if prefix {
        let rest = vstd::slice::slice_subrange(fp.as_slice(), bp.len(), fp.len());
        proof {
            assert(texts(rest@) =~= texts(fp@).subrange(bp.len() as int, fp.len() as int));
        }
        join_pieces(rest)
    } else {
        owned(file)
    };
    let cleaned = remove_rs(rel.as_str());
    let mut segs = split_pieces(cleaned.as_str(), true);
    let n = segs.len();
    if n > 0 && text_eq(segs[n - 1].as_str(), "mod") {
        let ghost before = segs@;
        segs.pop();
        proof {
            assert(texts(segs@) =~= texts(before).drop_last());
        }
    }
    segs
}

} // verus!
