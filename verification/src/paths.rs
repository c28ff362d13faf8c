//! File paths, as the bytes that the system knows them by.
use vstd::prelude::*;

verus! {

/// The byte between the parts of a path.
pub const SLASH: u8 = 0x2f;

/// The byte before the extension of a name.
pub const DOT: u8 = 0x2e;

/// The parts of `s` between slashes.
pub open spec fn pieces(s: Seq<u8>) -> Seq<Seq<u8>>
    decreases s.len(),
{
    if s.len() == 0 {
        seq![Seq::empty()]
    } else {
        let before = pieces(s.drop_last());
        if s.last() == SLASH {
            before.push(Seq::empty())
        } else {
            before.drop_last().push(before.last().push(s.last()))
        }
    }
}

/// A part that stands for something: neither empty nor the current directory.
pub open spec fn is_step(piece: Seq<u8>) -> bool {
    piece.len() > 0 && piece != seq![DOT]
}

/// The path starts at the root.
pub open spec fn is_absolute(path: Seq<u8>) -> bool {
    path.len() > 0 && path[0] == SLASH
}

/// The components of a path: a slash for the root, or a dot for a leading current
/// directory, then the parts that stand for something.
pub open spec fn components(path: Seq<u8>) -> Seq<Seq<u8>> {
    let start: Seq<Seq<u8>> = if is_absolute(path) {
        seq![seq![SLASH]]
    } else if pieces(path)[0] == seq![DOT] {
        seq![seq![DOT]]
    } else {
        seq![]
    };
    start + pieces(path).filter(|piece: Seq<u8>| is_step(piece))
}

/// The last component, where it is a name.
pub open spec fn file_name(path: Seq<u8>) -> Option<Seq<u8>> {
    let parts = components(path);
    if parts.len() > 0 && parts.last() != seq![SLASH] && parts.last() != seq![DOT] && parts.last()
        != seq![DOT, DOT] {
        Some(parts.last())
    } else {
        None
    }
}

/// The last position below `k` of a dot in `name`.
pub open spec fn last_dot(name: Seq<u8>, k: int) -> Option<int>
    decreases k,
{
    if k <= 0 {
        None
    } else if name[k - 1] == DOT {
        Some(k - 1)
    } else {
        last_dot(name, k - 1)
    }
}

/// The part of a name behind its last dot, unless the dot leads the name.
pub open spec fn name_extension(name: Seq<u8>) -> Option<Seq<u8>> {
    match last_dot(name, name.len() as int) {
        Some(i) => if i > 0 {
            Some(name.skip(i + 1))
        } else {
            None
        },
        None => None,
    }
}

/// The extension of the name at the end of a path.
pub open spec fn extension(path: Seq<u8>) -> Option<Seq<u8>> {
    match file_name(path) {
        Some(name) => name_extension(name),
        None => None,
    }
}

/// `path` is `base` or lies below it.
pub open spec fn is_inside(path: Seq<u8>, base: Seq<u8>) -> bool {
    components(base).is_prefix_of(components(path))
}

/// What lies inside a folder lies inside every folder that this one lies inside.
pub proof fn inside_is_transitive(path: Seq<u8>, middle: Seq<u8>, base: Seq<u8>)
    requires
        is_inside(path, middle),
        is_inside(middle, base),
    ensures
        is_inside(path, base),
{
    let p = components(path);
    let m = components(middle);
    let b = components(base);
    assert(b =~= p.subrange(0, b.len() as int)) by {
        assert forall|i: int| 0 <= i < b.len() implies b[i] == p[i] by {
            assert(b[i] == m.subrange(0, b.len() as int)[i]);
            assert(m[i] == p.subrange(0, m.len() as int)[i]);
        }
    }
}

/// `rest`, which does not start at the root, behind `base`.
pub open spec fn joined(base: Seq<u8>, rest: Seq<u8>) -> Seq<u8> {
    if base.len() > 0 && base.last() != SLASH {
        base + seq![SLASH] + rest
    } else {
        base + rest
    }
}

/// The views of the byte strings in `v`.
pub open spec fn byte_strings(v: Seq<Vec<u8>>) -> Seq<Seq<u8>> {
    v.map_values(|b: Vec<u8>| b@)
}

/// Whether `a` and `b` hold the same bytes.
pub fn same_bytes(a: &[u8], b: &[u8]) -> (r: bool)
    ensures
        r == (a@ == b@),
{
    if a.len() != b.len() {
        return false;
    }
    let mut i: usize = 0;
    while i < a.len()
        invariant
            a@.len() == b@.len(),
            i <= a@.len(),
            forall|j: int| 0 <= j < i ==> a@[j] == b@[j],
        decreases a@.len() - i,
    {
        if a[i] != b[i] {
            return false;
        }
        i += 1;
    }
    assert(a@ =~= b@);
    true
}

/// `bytes[from..to]`.
fn byte_range(bytes: &[u8], from: usize, to: usize) -> (r: Vec<u8>)
    requires
        from <= to <= bytes@.len(),
    ensures
        r@ == bytes@.subrange(from as int, to as int),
{
    let mut r: Vec<u8> = Vec::new();
    let mut i: usize = from;
    while i < to
        invariant
            from <= i <= to <= bytes@.len(),
            r@ == bytes@.subrange(from as int, i as int),
        decreases to - i,
    {
        r.push(bytes[i]);
        i += 1;
        assert(r@ =~= bytes@.subrange(from as int, i as int));
    }
    r
}

/// `bytes`, copied.
pub fn copy_bytes(bytes: &[u8]) -> (r: Vec<u8>)
    ensures
        r@ == bytes@,
{
    let r = byte_range(bytes, 0, bytes.len());
    assert(r@ =~= bytes@);
    r
}

/// The parts of `path` between slashes.
fn split_pieces(path: &[u8]) -> (r: Vec<Vec<u8>>)
    ensures
        byte_strings(r@) == pieces(path@),
        r@.len() > 0,
{
    let mut done: Vec<Vec<u8>> = Vec::new();
    let mut piece: Vec<u8> = Vec::new();
    let mut i: usize = 0;
    assert(path@.take(0) =~= Seq::<u8>::empty());
    assert(byte_strings(done@).push(piece@) =~= pieces(path@.take(0)));
    while i < path.len()
        invariant
            i <= path@.len(),
            byte_strings(done@).push(piece@) == pieces(path@.take(i as int)),
        decreases path@.len() - i,
    {
        let ghost before = byte_strings(done@).push(piece@);
        let ghost next = path@.take(i + 1);
        assert(next.drop_last() == path@.take(i as int));
        assert(next.last() == path@[i as int]);
        assert(before.drop_last() =~= byte_strings(done@));
        if path[i] == SLASH {
            assert(byte_strings(done@.push(piece)) =~= before);
            done.push(piece);
            piece = Vec::new();
            assert(piece@ =~= Seq::<u8>::empty());
        } else {
            piece.push(path[i]);
        }
        i += 1;
    }
    assert(path@.take(i as int) =~= path@);
    assert(byte_strings(done@.push(piece)) =~= byte_strings(done@).push(piece@));
    done.push(piece);
    done
}

fn step_piece(piece: &Vec<u8>) -> (r: bool)
    ensures
        r == is_step(piece@),
{
    let r = piece.len() > 1 || (piece.len() == 1 && piece[0] != DOT);
    proof {
        if piece@.len() == 1 && piece@[0] == DOT {
            assert(piece@ =~= seq![DOT]);
        }
    }
    r
}

/// The components of a path.
pub fn path_components(path: &[u8]) -> (r: Vec<Vec<u8>>)
    ensures
        byte_strings(r@) == components(path@),
{
    let all = split_pieces(path);
    let ghost parts = pieces(path@);
    let ghost keep = |piece: Seq<u8>| is_step(piece);
    let mut r: Vec<Vec<u8>> = Vec::new();
    assert(parts[0] == all@[0]@) by {
        assert(byte_strings(all@)[0] == all@[0]@);
    }
    if path.len() > 0 && path[0] == SLASH {
        r.push(vec![SLASH]);
        assert(r@[0]@ =~= seq![SLASH]);
        assert(byte_strings(r@) =~= seq![seq![SLASH]]);
    } else if all[0].len() == 1 && all[0][0] == DOT {
        assert(parts[0] =~= seq![DOT]);
        r.push(vec![DOT]);
        assert(r@[0]@ =~= seq![DOT]);
        assert(byte_strings(r@) =~= seq![seq![DOT]]);
    } else {
        assert(byte_strings(r@) =~= seq![]);
    }
    let ghost start = byte_strings(r@);
    let mut i: usize = 0;
    assert(parts.take(0).filter(keep) =~= seq![]) by {
        reveal(Seq::filter);
    }
    assert(byte_strings(r@) =~= start + parts.take(0).filter(keep));
    while i < all.len()
        invariant
            byte_strings(all@) == parts,
            keep == (|piece: Seq<u8>| is_step(piece)),
            i <= all@.len(),
            byte_strings(r@) == start + parts.take(i as int).filter(keep),
        decreases all@.len() - i,
    {
        let ghost before = parts.take(i as int);
        proof {
            assert(byte_strings(all@)[i as int] == all@[i as int]@);
            assert(parts.take(i + 1) =~= before.push(parts[i as int]));
            before.lemma_filter_push(parts[i as int], keep);
        }
        if step_piece(&all[i]) {
            let piece = copy_bytes(all[i].as_slice());
            assert(byte_strings(r@.push(piece)) =~= byte_strings(r@).push(piece@));
            r.push(piece);
            assert(byte_strings(r@) =~= start + before.push(parts[i as int]).filter(keep));
        }
        i += 1;
    }
    assert(parts.take(i as int) =~= parts);
    r
}

/// The last component of a path, where it is a name.
pub fn path_file_name(path: &[u8]) -> (r: Option<Vec<u8>>)
    ensures
        match r {
            Some(name) => file_name(path@) == Some(name@),
            None => file_name(path@) is None,
        },
{
    let mut parts = path_components(path);
    let ghost all = components(path@);
    match parts.pop() {
        None => None,
        Some(last) => {
            assert(all.last() == last@) by {
                assert(all.len() == parts@.len() + 1);
                assert(all[parts@.len() as int] == byte_strings(parts@.push(last))[parts@.len() as int]);
            }
            let n = last.len();
            proof {
                assert((last@ == seq![SLASH]) == (n == 1 && last@[0] == SLASH)) by {
                    if n == 1 && last@[0] == SLASH {
                        assert(last@ =~= seq![SLASH]);
                    }
                }
                assert((last@ == seq![DOT]) == (n == 1 && last@[0] == DOT)) by {
                    if n == 1 && last@[0] == DOT {
                        assert(last@ =~= seq![DOT]);
                    }
                }
                assert((last@ == seq![DOT, DOT]) == (n == 2 && last@[0] == DOT && last@[1] == DOT))
                    by {
                    if n == 2 && last@[0] == DOT && last@[1] == DOT {
                        assert(last@ =~= seq![DOT, DOT]);
                    }
                }
            }
            if (n == 1 && (last[0] == SLASH || last[0] == DOT)) || (n == 2 && last[0] == DOT
                && last[1] == DOT) {
                None
            } else {
                Some(last)
            }
        },
    }
}

/// The extension of the name at the end of a path.
pub fn path_extension(path: &[u8]) -> (r: Option<Vec<u8>>)
    ensures
        match r {
            Some(e) => extension(path@) == Some(e@),
            None => extension(path@) is None,
        },
{
    match path_file_name(path) {
        None => None,
        Some(name) => {
            let mut k: usize = name.len();
            while k > 0
                invariant
                    k <= name@.len(),
                    last_dot(name@, name@.len() as int) == last_dot(name@, k as int),
                    file_name(path@) == Some(name@),
                decreases k,
            {
                if name[k - 1] == DOT {
                    if k == 1 {
                        return None;
                    }
                    let e = byte_range(name.as_slice(), k, name.len());
                    assert(e@ =~= name@.skip(k as int));
                    return Some(e);
                }
                k -= 1;
            }
            None
        },
    }
}

/// Whether `path` is `base` or lies below it.
pub fn path_inside(path: &[u8], base: &[u8]) -> (r: bool)
    ensures
        r == is_inside(path@, base@),
{
    let inner = path_components(path);
    let outer = path_components(base);
    let ghost ci = components(path@);
    let ghost co = components(base@);
    if outer.len() > inner.len() {
        assert(co.len() > ci.len());
        return false;
    }
    let mut i: usize = 0;
    while i < outer.len()
        invariant
            byte_strings(inner@) == ci,
            byte_strings(outer@) == co,
            outer@.len() <= inner@.len(),
            i <= outer@.len(),
            forall|j: int| 0 <= j < i ==> co[j] == ci[j],
            ci == components(path@),
            co == components(base@),
        decreases outer@.len() - i,
    {
        assert(byte_strings(inner@)[i as int] == inner@[i as int]@);
        assert(byte_strings(outer@)[i as int] == outer@[i as int]@);
        if !same_bytes(outer[i].as_slice(), inner[i].as_slice()) {
            assert(co[i as int] != ci.subrange(0, co.len() as int)[i as int]);
            return false;
        }
        i += 1;
    }
    assert(co =~= ci.subrange(0, co.len() as int));
    true
}

/// `rest` behind `base`.
pub fn path_join(base: &[u8], rest: &[u8]) -> (r: Vec<u8>)
    ensures
        r@ == joined(base@, rest@),
{
    let mut r = copy_bytes(base);
    if base.len() > 0 && base[base.len() - 1] != SLASH {
        r.push(SLASH);
    }
    let ghost start = r@;
    let mut i: usize = 0;
    while i < rest.len()
        invariant
            i <= rest@.len(),
            r@ == start + rest@.take(i as int),
        decreases rest@.len() - i,
    {
        r.push(rest[i]);
        i += 1;
        assert(r@ =~= start + rest@.take(i as int));
    }
    assert(r@ =~= joined(base@, rest@));
    r
}

} // verus!
