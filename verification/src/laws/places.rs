//! Laws of paths and of the folders that the file tools look into.
use vstd::prelude::*;
use vstd::utf8::encode_utf8;

use crate::paths::{
    components, extension, file_name, is_absolute, is_inside, is_step, joined, last_dot,
    pieces,
};
use crate::scope::{candidate, is_skipped};
use crate::text::trimmed;

verus! {

proof fn pieces_of_a_name(s: Seq<u8>)
    requires
        forall|i: int| 0 <= i < s.len() ==> s[i] != 0x2f,
    ensures
        pieces(s) == seq![s],
    decreases s.len(),
{
    if s.len() > 0 {
        let t = s.drop_last();
        assert(forall|i: int| 0 <= i < t.len() ==> t[i] == s[i]);
        pieces_of_a_name(t);
        assert(s =~= t.push(s.last()));
        assert(pieces(s) =~= seq![s]);
    } else {
        assert(s =~= Seq::empty());
    }
}

/// A slash parts what stands before it from what stands behind it.
pub proof fn slashes_part_paths(a: Seq<u8>, b: Seq<u8>)
    ensures
        pieces(a + seq![0x2fu8] + b) == pieces(a) + pieces(b),
        pieces(b).len() > 0,
    decreases b.len(),
{
    let s = a + seq![0x2fu8] + b;
    if b.len() == 0 {
        assert(b =~= Seq::empty());
        assert(s.drop_last() =~= a);
        assert(s.last() == 0x2f);
        assert(pieces(s) =~= pieces(a) + pieces(b));
    } else {
        let t = b.drop_last();
        slashes_part_paths(a, t);
        assert(s.drop_last() =~= a + seq![0x2fu8] + t);
        assert(s.last() == b.last());
        let before = pieces(a) + pieces(t);
        assert(before.last() == pieces(t).last());
        assert(before.drop_last() =~= pieces(a) + pieces(t).drop_last());
        assert(pieces(s) =~= pieces(a) + pieces(b));
    }
}

/// A name behind a folder is one more component of the path; the components of the folder
/// stay as they are.
pub proof fn joining_adds_a_component(base: Seq<u8>, name: Seq<u8>)
    requires
        name.len() > 0,
        forall|i: int| 0 <= i < name.len() ==> name[i] != 0x2f,
        name != seq![0x2eu8],
    ensures
        components(joined(base, name)) == components(base).push(name),
        components(Seq::empty()) == Seq::<Seq<u8>>::empty(),
        components(seq![0x2fu8]) == seq![seq![0x2fu8]],
{
    let keep = |piece: Seq<u8>| is_step(piece);
    let path = joined(base, name);
    let none = Seq::<u8>::empty();
    pieces_of_a_name(name);
    pieces_of_a_name(none);
    assert(!is_step(none));
    let nothing = Seq::<Seq<u8>>::empty();
    assert(nothing.filter(keep) =~= nothing) by {
        reveal(Seq::filter);
    }
    nothing.lemma_filter_push(none, keep);
    assert(nothing.push(none) =~= seq![none]);
    assert(components(none) =~= nothing);
    slashes_part_paths(none, none);
    assert(none + seq![0x2fu8] + none =~= seq![0x2fu8]);
    assert(pieces(seq![0x2fu8]) =~= nothing.push(none).push(none));
    nothing.push(none).lemma_filter_push(none, keep);
    assert(components(seq![0x2fu8]) =~= seq![seq![0x2fu8]]);
    if base.len() == 0 {
        assert(base =~= none);
        assert(path =~= name);
        nothing.lemma_filter_push(name, keep);
        assert(nothing.push(name) =~= seq![name]);
        assert(components(path) =~= components(base).push(name));
    } else if base.last() != 0x2f {
        slashes_part_paths(base, name);
        let p = pieces(base);
        slashes_part_paths(none, base);
        assert(pieces(path) =~= p.push(name));
        p.lemma_filter_push(name, keep);
        assert(path[0] == base[0]);
        assert(components(path) =~= components(base).push(name));
    } else {
        let b = base.drop_last();
        assert(base =~= b + seq![0x2fu8] + none);
        assert(path =~= b + seq![0x2fu8] + name);
        slashes_part_paths(b, none);
        slashes_part_paths(b, name);
        slashes_part_paths(none, b);
        let p = pieces(b);
        assert(pieces(base) =~= p.push(none));
        assert(pieces(path) =~= p.push(name));
        p.lemma_filter_push(name, keep);
        p.lemma_filter_push(none, keep);
        assert(path[0] == base[0]);
        assert(components(path) =~= components(base).push(name));
    }
}

/// What lies in a folder under a name has that name, lies inside the folder, and is not
/// inside what lies there under another name; nor is the folder inside it.
pub proof fn folders_hold_what_is_joined_to_them(base: Seq<u8>, name: Seq<u8>, other: Seq<u8>)
    requires
        name.len() > 0 && other.len() > 0,
        forall|i: int| 0 <= i < name.len() ==> name[i] != 0x2f,
        forall|i: int| 0 <= i < other.len() ==> other[i] != 0x2f,
        name != seq![0x2eu8] && other != seq![0x2eu8],
    ensures
        name != seq![0x2eu8, 0x2eu8] ==> file_name(joined(base, name)) == Some(name),
        name == seq![0x2eu8, 0x2eu8] ==> file_name(joined(base, name)) is None,
        is_inside(joined(base, name), base),
        !is_inside(base, joined(base, name)),
        name != other ==> !is_inside(joined(base, name), joined(base, other)),
{
    joining_adds_a_component(base, name);
    joining_adds_a_component(base, other);
    let c = components(base);
    let x = c.push(name);
    let y = c.push(other);
    assert(x.subrange(0, c.len() as int) =~= c);
    if name != other {
        assert(x[c.len() as int] != y[c.len() as int]);
        if y.is_prefix_of(x) {
            assert(y[c.len() as int] == x.subrange(0, y.len() as int)[c.len() as int]);
        }
    }
}

/// A path lies inside a folder exactly where it goes through all of the folder's
/// components, in their order, from the start.
pub proof fn inside_means_through_every_folder(path: Seq<u8>, base: Seq<u8>)
    ensures
        is_inside(path, base) <==> components(base).len() <= components(path).len() && forall|
            i: int,
        |
            0 <= i < components(base).len() ==> #[trigger] components(base)[i] == components(
                path,
            )[i],
{
    let p = components(path);
    let b = components(base);
    if is_inside(path, base) {
        assert forall|i: int| 0 <= i < b.len() implies #[trigger] b[i] == p[i] by {
            assert(b[i] == p.subrange(0, b.len() as int)[i]);
        }
    }
    if b.len() <= p.len() && forall|i: int| 0 <= i < b.len() ==> #[trigger] b[i] == p[i] {
        assert(b =~= p.subrange(0, b.len() as int));
    }
}

/// Behind a folder comes a slash, unless the folder ends in one, and then the rest.
pub proof fn joining_keeps_both_parts(base: Seq<u8>, rest: Seq<u8>)
    ensures
        base.len() > 0 && base.last() != 0x2f ==> joined(base, rest) == base + seq![0x2fu8] + rest,
        base.len() == 0 || base.last() == 0x2f ==> joined(base, rest) == base + rest,
        is_absolute(rest) <==> rest.len() > 0 && rest[0] == 0x2f,
{
}

proof fn last_dot_stands(name: Seq<u8>, at: int, k: int)
    requires
        0 <= at < k <= name.len(),
        name[at] == 0x2e,
        forall|i: int| at < i < k ==> name[i] != 0x2e,
    ensures
        last_dot(name, k) == Some(at),
    decreases k,
{
    if k - 1 > at {
        last_dot_stands(name, at, k - 1);
    }
}

proof fn no_dot_stands(name: Seq<u8>, k: int)
    requires
        0 <= k <= name.len(),
        forall|i: int| 0 <= i < k ==> name[i] != 0x2e,
    ensures
        last_dot(name, k) is None,
    decreases k,
{
    if k > 0 {
        no_dot_stands(name, k - 1);
    }
}

/// What stands behind the last dot of a name is its extension, unless nothing stands before
/// the dot; a name without a dot has none.
pub proof fn extensions_stand_behind_the_last_dot(base: Seq<u8>, stem: Seq<u8>, ext: Seq<u8>)
    requires
        forall|i: int| 0 <= i < stem.len() ==> stem[i] != 0x2f,
        forall|i: int| 0 <= i < ext.len() ==> ext[i] != 0x2f && ext[i] != 0x2e,
    ensures
        stem.len() > 0 && stem + seq![0x2eu8] + ext != seq![0x2eu8, 0x2eu8] ==> extension(
            joined(base, stem + seq![0x2eu8] + ext),
        ) == Some(ext),
        ext.len() > 0 ==> extension(joined(base, seq![0x2eu8] + ext)) is None,
        ext.len() > 0 ==> extension(joined(base, ext)) is None,
{
    let name = stem + seq![0x2eu8] + ext;
    let n = name.len() as int;
    if stem.len() > 0 && name != seq![0x2eu8, 0x2eu8] {
        assert forall|i: int| 0 <= i < n implies name[i] != 0x2f by {
            if i < stem.len() {
                assert(name[i] == stem[i]);
            } else if i > stem.len() {
                assert(name[i] == ext[i - stem.len() - 1]);
            }
        }
        assert(name.len() > 1);
        folders_hold_what_is_joined_to_them(base, name, name);
        assert forall|i: int| stem.len() < i < n implies name[i] != 0x2e by {
            assert(name[i] == ext[i - stem.len() - 1]);
        }
        last_dot_stands(name, stem.len() as int, n);
        assert(name.skip(stem.len() as int + 1) =~= ext);
    }
    if ext.len() > 0 {
        let hidden = seq![0x2eu8] + ext;
        assert forall|i: int| 0 <= i < hidden.len() implies hidden[i] != 0x2f by {
            if i > 0 {
                assert(hidden[i] == ext[i - 1]);
            }
        }
        assert(hidden.len() > 1);
        assert(hidden[1] == ext[0]);
        folders_hold_what_is_joined_to_them(base, hidden, hidden);
        assert forall|i: int| 0 < i < hidden.len() implies hidden[i] != 0x2e by {
            assert(hidden[i] == ext[i - 1]);
        }
        last_dot_stands(hidden, 0, hidden.len() as int);
        assert(ext[0] != 0x2e);
        folders_hold_what_is_joined_to_them(base, ext, ext);
        no_dot_stands(ext, ext.len() as int);
    }
}

/// A path that starts at the root stands for itself, any other for what lies below the
/// folder of the user, and a missing or blank one for the documents there.
pub proof fn paths_stand_for_folders(root: Seq<u8>, text: Seq<char>)
    ensures
        ({
            let given = encode_utf8(trimmed(text));
            &&& trimmed(text).len() > 0 && given.len() > 0 && given[0] == 0x2f ==> candidate(
                root,
                Some(text),
            ) == given
            &&& trimmed(text).len() > 0 && !(given.len() > 0 && given[0] == 0x2f) ==> candidate(
                root,
                Some(text),
            ) == joined(root, given)
            &&& trimmed(text).len() == 0 ==> candidate(root, Some(text)) == joined(
                root,
                encode_utf8("Documents"@),
            )
            &&& candidate(root, None) == joined(root, encode_utf8("Documents"@))
        }),
{
}

/// Whether a folder is looked into depends on its name alone, and five names are not.
pub proof fn five_names_are_not_looked_into(path: Seq<u8>, other: Seq<u8>)
    ensures
        file_name(path) == file_name(other) ==> is_skipped(path) == is_skipped(other),
        is_skipped(path) <==> file_name(path) is Some && seq![
            encode_utf8(".git"@),
            encode_utf8("node_modules"@),
            encode_utf8("target"@),
            encode_utf8(".cache"@),
            encode_utf8("AppData"@),
        ].contains(file_name(path)->0),
{
    let names = seq![
        encode_utf8(".git"@),
        encode_utf8("node_modules"@),
        encode_utf8("target"@),
        encode_utf8(".cache"@),
        encode_utf8("AppData"@),
    ];
    assert(names[0] == encode_utf8(".git"@) && names[1] == encode_utf8("node_modules"@) && names[2]
        == encode_utf8("target"@) && names[3] == encode_utf8(".cache"@) && names[4] == encode_utf8(
        "AppData"@,
    ));
}

} // verus!
