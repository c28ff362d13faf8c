//! Laws of texts.
use vstd::prelude::*;

use crate::text::{
    ascii_lowered, has_text, is_white_space, lines_from, lines_of, occurs_at, shortened, trimmed,
    trimmed_end, trimmed_start, without_leading_dots,
};

verus! {

proof fn trimmed_start_parts(s: Seq<char>) -> (u: Seq<char>)
    ensures
        s == u + trimmed_start(s),
        forall|i: int| 0 <= i < u.len() ==> is_white_space(#[trigger] u[i]),
        trimmed_start(s).len() > 0 ==> !is_white_space(trimmed_start(s).first()),
    decreases s.len(),
{
    if s.len() > 0 && is_white_space(s.first()) {
        let rest = trimmed_start_parts(s.drop_first());
        let u = seq![s.first()] + rest;
        assert(s =~= seq![s.first()] + s.drop_first());
        assert(s =~= u + trimmed_start(s));
        u
    } else {
        assert(s =~= Seq::<char>::empty() + s);
        Seq::empty()
    }
}

proof fn trimmed_end_parts(s: Seq<char>) -> (v: Seq<char>)
    ensures
        s == trimmed_end(s) + v,
        forall|i: int| 0 <= i < v.len() ==> is_white_space(#[trigger] v[i]),
        trimmed_end(s).len() > 0 ==> !is_white_space(trimmed_end(s).last()),
    decreases s.len(),
{
    if s.len() > 0 && is_white_space(s.last()) {
        let rest = trimmed_end_parts(s.drop_last());
        let v = rest.push(s.last());
        assert(s =~= s.drop_last().push(s.last()));
        assert(s =~= trimmed_end(s) + v);
        v
    } else {
        assert(s =~= s + Seq::<char>::empty());
        Seq::empty()
    }
}

/// Trimming takes away white space at the ends and nothing else, and leaves none there.
pub proof fn trimming_drops_only_white_space(s: Seq<char>)
    ensures
        exists|u: Seq<char>, v: Seq<char>|
            {
                &&& s == #[trigger] (u + trimmed(s) + v)
                &&& forall|i: int| 0 <= i < u.len() ==> is_white_space(#[trigger] u[i])
                &&& forall|i: int| 0 <= i < v.len() ==> is_white_space(#[trigger] v[i])
            },
        trimmed(s).len() > 0 ==> !is_white_space(trimmed(s).first()) && !is_white_space(
            trimmed(s).last(),
        ),
{
    let u = trimmed_start_parts(s);
    let t = trimmed_start(s);
    let v = trimmed_end_parts(t);
    if trimmed(s).len() > 0 {
        assert(t.first() == trimmed(s).first());
    }
    assert(s =~= u + trimmed(s) + v);
}

/// A text stands in another exactly where the other is made of it and of what stands
/// before and behind it.
pub proof fn texts_stand_in_what_they_make_up(s: Seq<char>, p: Seq<char>)
    ensures
        has_text(s, p) <==> exists|a: Seq<char>, b: Seq<char>| s == #[trigger] (a + p + b),
{
    if has_text(s, p) {
        let i = choose|i: int| occurs_at(s, p, i);
        assert(s =~= s.take(i) + p + s.skip(i + p.len())) by {
            assert(s =~= s.take(i) + s.subrange(i, i + p.len()) + s.skip(i + p.len()));
        }
    }
    if exists|a: Seq<char>, b: Seq<char>| s == #[trigger] (a + p + b) {
        let (a, b) = choose|a: Seq<char>, b: Seq<char>| s == #[trigger] (a + p + b);
        assert(s.subrange(a.len() as int, (a.len() + p.len()) as int) =~= p);
        assert(occurs_at(s, p, a.len() as int));
    }
}

/// What stands in a part of a text stands in the text.
pub proof fn parts_show_in_the_whole(a: Seq<char>, s: Seq<char>, b: Seq<char>, p: Seq<char>)
    requires
        has_text(s, p),
    ensures
        has_text(a + s + b, p),
{
    texts_stand_in_what_they_make_up(s, p);
    let (x, y) = choose|x: Seq<char>, y: Seq<char>| s == #[trigger] (x + p + y);
    assert(a + s + b =~= (a + x) + p + (y + b));
    texts_stand_in_what_they_make_up(a + s + b, p);
}

/// Making ASCII letters small keeps the length, changes each of the 26 capital letters
/// to the letter 32 places on, and leaves every other character.
pub proof fn only_capital_letters_become_small(s: Seq<char>, i: int)
    requires
        0 <= i < s.len(),
    ensures
        ascii_lowered(s).len() == s.len(),
        65 <= s[i] as nat <= 90 ==> ascii_lowered(s)[i] as nat == s[i] as nat + 32,
        !(65 <= s[i] as nat <= 90) ==> ascii_lowered(s)[i] == s[i],
{
}

/// Only full stops are taken from the start of a text, and all of them.
pub proof fn only_leading_dots_are_dropped(dots: nat, s: Seq<char>)
    requires
        s.len() > 0 ==> s.first() != '.',
    ensures
        without_leading_dots(Seq::new(dots, |i: int| '.') + s) == s,
    decreases dots,
{
    let t = Seq::new(dots, |i: int| '.') + s;
    if dots > 0 {
        only_leading_dots_are_dropped((dots - 1) as nat, s);
        assert(t.drop_first() =~= Seq::new((dots - 1) as nat, |i: int| '.') + s);
    } else {
        assert(t =~= s);
    }
}

/// A text is cut behind as many characters as there is room for, and not at all where
/// there is room for all of it.
pub proof fn texts_are_cut_at_the_end(head: Seq<char>, tail: Seq<char>, limit: nat)
    ensures
        head.len() <= limit ==> shortened(head, limit) == head,
        head.len() == limit ==> shortened(head + tail, limit) == head,
{
    if head.len() == limit {
        assert((head + tail).take(limit as int) =~= head);
        if tail.len() == 0 {
            assert(head + tail =~= head);
        }
    }
}

proof fn lines_shift(p: Seq<char>, s: Seq<char>, start: int, at: int)
    requires
        0 <= start <= at <= s.len(),
    ensures
        lines_from(p + s, p.len() + start, p.len() + at) == lines_from(s, start, at),
    decreases s.len() - at,
{
    let w = p + s;
    let n = p.len() as int;
    if at >= s.len() {
        assert(w.subrange(n + start, w.len() as int) =~= s.subrange(start, s.len() as int));
    } else if s[at] == '\n' {
        lines_shift(p, s, at + 1, at + 1);
        assert(w[n + at] == s[at]);
        assert(w.subrange(n + start, n + at) =~= s.subrange(start, at));
    } else {
        lines_shift(p, s, start, at + 1);
        assert(w[n + at] == s[at]);
    }
}

proof fn lines_skip(s: Seq<char>, at: int, to: int)
    requires
        0 <= at <= to <= s.len(),
        forall|i: int| at <= i < to ==> s[i] != '\n',
    ensures
        lines_from(s, 0, at) == lines_from(s, 0, to),
    decreases to - at,
{
    if at < to {
        lines_skip(s, at + 1, to);
    }
}

/// A text that ends in a line feed is its first line, without a carriage return at its
/// end, and the lines of the rest. A text without a line feed is one line, or none where
/// it is empty.
pub proof fn lines_end_at_line_feeds(line: Seq<char>, rest: Seq<char>)
    requires
        forall|i: int| 0 <= i < line.len() ==> line[i] != '\n',
    ensures
        lines_of(line + seq!['\n'] + rest) == seq![
            if line.len() > 0 && line.last() == '\r' {
                line.drop_last()
            } else {
                line
            },
        ] + lines_of(rest),
        line.len() > 0 ==> lines_of(line) == seq![line],
        lines_of(Seq::empty()) == Seq::<Seq<char>>::empty(),
{
    let n = line.len() as int;
    let p = line + seq!['\n'];
    let s = p + rest;
    assert(s =~= line + seq!['\n'] + rest);
    assert(forall|i: int| 0 <= i < n ==> s[i] == line[i]);
    lines_skip(s, 0, n);
    assert(s[n] == '\n');
    assert(s.subrange(0, n) =~= line);
    lines_shift(p, rest, 0, 0);
    lines_skip(line, 0, n);
    assert(line.subrange(0, n) =~= line);
}

/// The lines of a text that ends in a line feed do not depend on what follows, nor does
/// what follows on them.
pub proof fn lines_of_parts(before: Seq<char>, after: Seq<char>)
    requires
        before.len() > 0 ==> before.last() == '\n',
    ensures
        lines_of(before + after) == lines_of(before) + lines_of(after),
    decreases before.len(),
{
    if before.len() == 0 {
        assert(before + after =~= after);
        assert(lines_of(before) =~= Seq::empty());
        assert(lines_of(before) + lines_of(after) =~= lines_of(after));
    } else {
        let k = first_feed(before, 0);
        let line = before.take(k);
        let rest = before.skip(k + 1);
        assert(before =~= line + seq!['\n'] + rest);
        if rest.len() > 0 {
            assert(rest.last() == before.last());
        }
        lines_of_parts(rest, after);
        lines_end_at_line_feeds(line, rest);
        lines_end_at_line_feeds(line, rest + after);
        assert(before + after =~= line + seq!['\n'] + (rest + after));
        let head = seq![
            if line.len() > 0 && line.last() == '\r' {
                line.drop_last()
            } else {
                line
            },
        ];
        assert(head + (lines_of(rest) + lines_of(after)) =~= (head + lines_of(rest)) + lines_of(
            after,
        ));
    }
}

proof fn first_feed(s: Seq<char>, from: int) -> (k: int)
    requires
        0 <= from < s.len(),
        s.last() == '\n',
    ensures
        from <= k < s.len(),
        s[k] == '\n',
        forall|i: int| from <= i < k ==> s[i] != '\n',
    decreases s.len() - from,
{
    if s[from] == '\n' {
        from
    } else {
        first_feed(s, from + 1)
    }
}

} // verus!
