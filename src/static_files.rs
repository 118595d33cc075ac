//! Resolution of a requested static file path under the base directory,
//! and the content type of a file name.

use vstd::prelude::*;

verus! {

/// The pieces of `s` between `/` separators, empty ones included.
pub open spec fn pieces(s: Seq<u8>) -> Seq<Seq<u8>>
    decreases s.len(),
{
    if s.len() == 0 {
        seq![Seq::<u8>::empty()]
    } else {
        let p = pieces(s.drop_last());
        if s.last() == 47 {
            p.push(Seq::<u8>::empty())
        } else {
            p.update(p.len() - 1, p.last().push(s.last()))
        }
    }
}

/// A piece that names no directory step: empty, or `.`.
pub open spec fn is_skipped(p: Seq<u8>) -> bool {
    p.len() == 0 || p == seq![46u8]
}

/// A piece that climbs out of its directory: `..`.
pub open spec fn is_parent(p: Seq<u8>) -> bool {
    p == seq![46u8, 46u8]
}

/// The pieces that name a directory step, in order.
pub open spec fn kept(ps: Seq<Seq<u8>>) -> Seq<Seq<u8>>
    decreases ps.len(),
{
    if ps.len() == 0 {
        Seq::empty()
    } else {
        let k = kept(ps.drop_last());
        if is_skipped(ps.last()) {
            k
        } else {
            k.push(ps.last())
        }
    }
}

/// A requested path that would reach outside the base directory: an
/// absolute path, or one with a `..` step.
pub open spec fn escapes(s: Seq<u8>) -> bool {
    (s.len() > 0 && s[0] == 47) || exists|i: int| 0 <= i < pieces(s).len() && is_parent(#[trigger] pieces(s)[i])
}

/// Why a static file request is refused.
#[derive(Debug, PartialEq, Eq, Structural)]
pub enum StaticError {
    /// The path would leave the base directory (403).
    Forbidden,
}

/// The steps of a requested path below the base directory, in order: the
/// pieces between `/` with empty ones and `.` dropped. A path that is
/// absolute or holds a `..` step is refused, whether or not the file exists.
pub fn resolve_static_path(path: &[u8]) -> (r: Result<Vec<Vec<u8>>, StaticError>)
    ensures
        escapes(path@) <==> r is Err,
        r matches Ok(steps) ==> steps.deep_view() == kept(pieces(path@)),
{
    if path.len() > 0 && path[0] == 47 {
        return Err(StaticError::Forbidden);
    }
    let mut out: Vec<Vec<u8>> = Vec::new();
    let mut cur: Vec<u8> = Vec::new();
    let mut climbs: bool = false;
    let ghost mut done: Seq<Seq<u8>> = Seq::empty();
    let mut i: usize = 0;
    while i < path.len()
        invariant
            i <= path@.len(),
            pieces(path@.subrange(0, i as int)) == done.push(cur@),
            out.deep_view() == kept(done),
            climbs <==> exists|k: int| 0 <= k < done.len() && is_parent(#[trigger] done[k]),
        decreases path@.len() - i,
    {
        let ghost prefix = path@.subrange(0, i as int + 1);
        proof {
            assert(prefix.drop_last() =~= path@.subrange(0, i as int));
        }
        if path[i] == 47 {
            let parent = is_dot_dot(&cur);
            let skip = is_dot_or_empty(&cur);
            let ghost old_done = done;
            proof {
                done = done.push(cur@);
                assert(done.drop_last() =~= old_done);
                assert(is_parent(done[old_done.len() as int]) == parent);
                if climbs && !parent {
                    let k = choose|k: int| 0 <= k < old_done.len() && is_parent(#[trigger] old_done[k]);
                    assert(done[k] == old_done[k]);
                }
                if !climbs && !parent {
                    assert forall|k: int| 0 <= k < done.len() implies !is_parent(#[trigger] done[k]) by {
                        if k < old_done.len() {
                            assert(done[k] == old_done[k]);
                        }
                    }
                }
            }
            climbs = climbs || parent;
            if !skip {
                let ghost before = out.deep_view();
                let ghost c = cur;
                assert(c.deep_view() =~= c@);
                let ghost pre = out@;
                out.push(cur);
                proof {
                    assert(out@ == pre.push(c));
                    assert(out.deep_view() =~= before.push(done.last()));
                }
            }
            cur = Vec::new();
            proof {
                assert(pieces(prefix) =~= done.push(cur@));
            }
        } else {
            cur.push(path[i]);
            proof {
                assert(pieces(prefix) =~= done.push(cur@));
            }
        }
        i += 1;
    }
    proof {
        assert(path@.subrange(0, i as int) =~= path@);
    }
    let ghost all = done.push(cur@);
    let parent = is_dot_dot(&cur);
    proof {
        assert(all.drop_last() =~= done);
        assert(all[done.len() as int] == cur@);
        if climbs {
            let k = choose|k: int| 0 <= k < done.len() && is_parent(#[trigger] done[k]);
            assert(all[k] == done[k]);
        }
        if !climbs && !parent {
            assert forall|k: int| 0 <= k < all.len() implies !is_parent(#[trigger] all[k]) by {
                if k < done.len() {
                    assert(all[k] == done[k]);
                }
            }
        }
    }
    if climbs || parent {
        return Err(StaticError::Forbidden);
    }
    if !is_dot_or_empty(&cur) {
        let ghost before = out.deep_view();
        let ghost c = cur;
        assert(c.deep_view() =~= c@);
        let ghost pre = out@;
        out.push(cur);
        proof {
            assert(out@ == pre.push(c));
            assert(out.deep_view() =~= before.push(all.last()));
        }
    }
    Ok(out)
}

fn is_dot_dot(p: &Vec<u8>) -> (r: bool)
    ensures
        r == is_parent(p@),
{
    let r = p.len() == 2 && p[0] == 46 && p[1] == 46;
    proof {
        if p@.len() == 2 && p@[0] == 46 && p@[1] == 46 {
            assert(p@ =~= seq![46u8, 46u8]);
        }
    }
    r
}

fn is_dot_or_empty(p: &Vec<u8>) -> (r: bool)
    ensures
        r == is_skipped(p@),
{
    let r = p.len() == 0 || (p.len() == 1 && p[0] == 46);
    proof {
        if p@.len() == 1 && p@[0] == 46 {
            assert(p@ =~= seq![46u8]);
        }
    }
    r
}

/// Position of the last `.` in a file name, or -1 where it has none.
pub open spec fn last_dot(name: Seq<u8>) -> int
    decreases name.len(),
{
    if name.len() == 0 {
        -1
    } else if name.last() == 46 {
        name.len() - 1
    } else {
        last_dot(name.drop_last())
    }
}

/// The extension of a file name: what follows its last `.`, where that `.`
/// is not the name's first byte.
pub open spec fn extension(name: Seq<u8>) -> Option<Seq<u8>> {
    let j = last_dot(name);
    if j <= 0 {
        None
    } else {
        Some(name.subrange(j + 1, name.len() as int))
    }
}

/// The kinds of content a static file is served as.
#[derive(Debug, Clone, Copy, PartialEq, Eq, Structural)]
pub enum ContentType {
    Html,
    Css,
    Javascript,
    Json,
    OctetStream,
}

/// The content type that a file name's extension gives.
pub open spec fn content_type_of(name: Seq<u8>) -> ContentType {
    match extension(name) {
        Some(e) => if e == seq![104u8, 116, 109, 108] {
            ContentType::Html
        } else if e == seq![99u8, 115, 115] {
            ContentType::Css
        } else if e == seq![106u8, 115] {
            ContentType::Javascript
        } else if e == seq![106u8, 115, 111, 110] {
            ContentType::Json
        } else {
            ContentType::OctetStream
        },
        None => ContentType::OctetStream,
    }
}

/// The MIME text of a content type.
pub open spec fn mime_of(t: ContentType) -> Seq<char> {
    match t {
        ContentType::Html => "text/html"@,
        ContentType::Css => "text/css"@,
        ContentType::Javascript => "application/javascript"@,
        ContentType::Json => "application/json"@,
        ContentType::OctetStream => "application/octet-stream"@,
    }
}

impl ContentType {
    /// The MIME text for the `content-type` header.
    pub fn mime(&self) -> (r: &'static str)
        ensures
            r@ == mime_of(*self),
    {
        match self {
            ContentType::Html => "text/html",
            ContentType::Css => "text/css",
            ContentType::Javascript => "application/javascript",
            ContentType::Json => "application/json",
            ContentType::OctetStream => "application/octet-stream",
        }
    }
}

fn tail_is(name: &[u8], start: usize, word: &[u8]) -> (r: bool)
    requires
        start <= name@.len(),
    ensures
        r == (name@.subrange(start as int, name@.len() as int) == word@),
{
    let n = name.len();
    if n - start != word.len() {
        proof {
            assert(name@.subrange(start as int, name@.len() as int).len() != word@.len());
        }
        return false;
    }
    let mut k: usize = 0;
    while k < word.len()
        invariant
            k <= word@.len(),
            start <= n,
            n == name@.len(),
            n - start == word@.len(),
            forall|m: int| 0 <= m < k ==> name@[start + m] == word@[m],
        decreases word@.len() - k,
    {
        if name[start + k] != word[k] {
            proof {
                assert(name@.subrange(start as int, name@.len() as int)[k as int] != word@[k as int]);
            }
            return false;
        }
        k += 1;
    }
    proof {
        assert(name@.subrange(start as int, name@.len() as int) =~= word@);
    }
    true
}

/// The content type of a file, from its name's extension alone.
pub fn content_type(file_name: &[u8]) -> (r: ContentType)
    ensures
        r == content_type_of(file_name@),
{
    let mut j: usize = file_name.len();
    proof {
        assert(file_name@.subrange(0, j as int) =~= file_name@);
    }
    while j > 0 && file_name[j - 1] != 46
        invariant
            j <= file_name@.len(),
            last_dot(file_name@) == last_dot(file_name@.subrange(0, j as int)),
        decreases j,
    {
        proof {
            let t = file_name@.subrange(0, j as int);
            assert(t.drop_last() =~= file_name@.subrange(0, j as int - 1));
        }
        j -= 1;
    }
    proof {
        if j > 0 {
            let t = file_name@.subrange(0, j as int);
            assert(t.last() == 46);
        } else {
            assert(file_name@.subrange(0, 0) =~= Seq::<u8>::empty());
        }
    }
    if j <= 1 {
        return ContentType::OctetStream;
    }
    if tail_is(file_name, j, &[104u8, 116, 109, 108]) {
        ContentType::Html
    } else if tail_is(file_name, j, &[99u8, 115, 115]) {
        ContentType::Css
    } else if tail_is(file_name, j, &[106u8, 115]) {
        ContentType::Javascript
    } else if tail_is(file_name, j, &[106u8, 115, 111, 110]) {
        ContentType::Json
    } else {
        ContentType::OctetStream
    }
}

} // verus!
