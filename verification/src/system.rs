//! The report on the machine.
use vstd::prelude::*;

use crate::execution::{DiskSpace, ToolData, ToolExecution};
use crate::text::{texts, to_chars};

verus! {

/// The number of applications that are listed.
pub const MAX_APPS: usize = 50;

/// `a` comes before `b` in the order of their first different characters; a text
/// comes before its continuations.
pub open spec fn comes_before(a: Seq<char>, b: Seq<char>) -> bool
    decreases a.len(),
{
    if b.len() == 0 {
        false
    } else if a.len() == 0 {
        true
    } else if a.first() == b.first() {
        comes_before(a.drop_first(), b.drop_first())
    } else {
        a.first() < b.first()
    }
}

/// Of two different texts exactly one comes before the other, and no text comes
/// before itself.
pub proof fn order_is_total(a: Seq<char>, b: Seq<char>)
    ensures
        a == b ==> !comes_before(a, b),
        a != b ==> comes_before(a, b) != comes_before(b, a),
    decreases a.len(),
{
    if a.len() > 0 && b.len() > 0 {
        if a.first() == b.first() {
            order_is_total(a.drop_first(), b.drop_first());
            if a.drop_first() == b.drop_first() {
                assert(a =~= seq![a.first()] + a.drop_first());
                assert(b =~= seq![b.first()] + b.drop_first());
            }
        }
    } else if a.len() == 0 && b.len() == 0 {
        assert(a =~= b);
    }
}

/// What comes before a text comes before all that the text comes before.
pub proof fn order_is_transitive(a: Seq<char>, b: Seq<char>, c: Seq<char>)
    requires
        comes_before(a, b),
        comes_before(b, c),
    ensures
        comes_before(a, c),
    decreases a.len(),
{
    if a.len() > 0 && a.first() == b.first() && b.first() == c.first() {
        order_is_transitive(a.drop_first(), b.drop_first(), c.drop_first());
    }
}

fn char_before(a: char, b: char) -> (r: bool)
    ensures
        r == (a < b),
{
    (a as u32) < (b as u32)
}

/// Whether `a` comes before `b`.
fn before(a: &str, b: &str) -> (r: bool)
    ensures
        r == comes_before(a@, b@),
{
    let x = to_chars(a);
    let y = to_chars(b);
    let mut i: usize = 0;
    assert(a@.skip(0) == a@ && b@.skip(0) == b@);
    while i < x.len() && i < y.len()
        invariant
            x@ == a@,
            y@ == b@,
            i <= x@.len(),
            i <= y@.len(),
            comes_before(a@, b@) == comes_before(a@.skip(i as int), b@.skip(i as int)),
        decreases x@.len() - i,
    {
        assert(a@.skip(i as int).drop_first() == a@.skip(i + 1));
        assert(b@.skip(i as int).drop_first() == b@.skip(i + 1));
        if x[i] != y[i] {
            return char_before(x[i], y[i]);
        }
        i += 1;
    }
    i < y.len()
}

/// Each text comes before all that follow it.
pub open spec fn ascending(s: Seq<Seq<char>>) -> bool {
    forall|i: int, j: int| 0 <= i < j < s.len() ==> comes_before(#[trigger] s[i], #[trigger] s[j])
}

/// `s` lists the texts of `names`, each once, in order.
pub open spec fn lists(s: Seq<Seq<char>>, names: Set<Seq<char>>) -> bool {
    ascending(s) && s.to_set() == names
}

/// The list of `names` in order.
pub open spec fn ordered(names: Set<Seq<char>>) -> Seq<Seq<char>> {
    choose|s: Seq<Seq<char>>| lists(s, names)
}

/// There is no more than one list of the same names in order.
pub proof fn ordered_list_is_unique(a: Seq<Seq<char>>, b: Seq<Seq<char>>)
    requires
        ascending(a),
        ascending(b),
        a.to_set() == b.to_set(),
    ensures
        a == b,
    decreases a.len(),
{
    if a.len() == 0 {
        if b.len() > 0 {
            assert(b.to_set().contains(b[0]));
            assert(a.contains(b[0]));
        }
        assert(a =~= b);
    } else {
        assert(a.to_set().contains(a.last()));
        assert(b.contains(a.last()));
        assert(b.to_set().contains(b.last()));
        assert(a.contains(b.last()));
        let i = choose|i: int| 0 <= i < b.len() && b[i] == a.last();
        let j = choose|j: int| 0 <= j < a.len() && a[j] == b.last();
        order_is_total(a.last(), b.last());
        assert(a.last() == b.last());
        let x = a.drop_last();
        let y = b.drop_last();
        assert forall|n: Seq<char>| #[trigger] x.to_set().contains(n) <==> y.to_set().contains(
            n,
        ) by {
            in_rest(a, b, n);
            in_rest(b, a, n);
        }
        assert(x.to_set() =~= y.to_set());
        ordered_list_is_unique(x, y);
        assert(a =~= x.push(a.last()));
        assert(b =~= y.push(b.last()));
    }
}

proof fn in_rest(a: Seq<Seq<char>>, b: Seq<Seq<char>>, n: Seq<char>)
    requires
        a.len() > 0,
        b.len() > 0,
        ascending(a),
        a.to_set() == b.to_set(),
        a.last() == b.last(),
    ensures
        a.drop_last().contains(n) ==> b.drop_last().contains(n),
{
    if a.drop_last().contains(n) {
        let k = choose|k: int| 0 <= k < a.drop_last().len() && a.drop_last()[k] == n;
        assert(a[k] == n);
        order_is_total(n, a.last());
        assert(comes_before(a[k], a[a.len() - 1]));
        assert(a.to_set().contains(a[k]));
        assert(b.to_set().contains(n));
        assert(b.contains(n));
        let m = choose|m: int| 0 <= m < b.len() && b[m] == n;
        assert(b.drop_last()[m] == n);
    }
}

/// Puts `name` in its place, unless it is there.
fn insert_name(list: &mut Vec<String>, name: String)
    requires
        ascending(texts(old(list)@)),
    ensures
        ascending(texts(final(list)@)),
        texts(final(list)@).to_set() == texts(old(list)@).to_set().insert(name@),
{
    let ghost was = texts(list@);
    let mut p: usize = 0;
    while p < list.len() && before(list[p].as_str(), name.as_str())
        invariant
            was == texts(list@),
            p <= list@.len(),
            forall|i: int| 0 <= i < p ==> comes_before(#[trigger] was[i], name@),
        decreases list@.len() - p,
    {
        p += 1;
    }
    if p < list.len() && !before(name.as_str(), list[p].as_str()) {
        proof {
            assert(was[p as int] == list@[p as int]@);
            order_is_total(was[p as int], name@);
            assert(was.to_set().contains(was[p as int]));
            assert(was.to_set().insert(name@) =~= was.to_set());
        }
        return;
    }
    list.insert(p, name);
    proof {
        let now = texts(list@);
        assert(now =~= was.insert(p as int, name@));
        assert forall|i: int, j: int| 0 <= i < j < now.len() implies comes_before(
            #[trigger] now[i],
            #[trigger] now[j],
        ) by {
            if i == p {
                assert(now[j] == was[j - 1]);
                if j - 1 > p {
                    order_is_transitive(name@, was[p as int], was[j - 1]);
                }
            } else if j == p {
                assert(now[i] == was[i]);
            } else {
                assert(now[i] == was[if i < p { i } else { i - 1 }]);
                assert(now[j] == was[if j < p { j } else { j - 1 }]);
            }
        }
        assert forall|n: Seq<char>| #[trigger] now.to_set().contains(n) <==> was.to_set().insert(
            name@,
        ).contains(n) by {
            if now.contains(n) {
                let k = choose|k: int| 0 <= k < now.len() && now[k] == n;
                if k < p {
                    assert(was[k] == n);
                } else if k > p {
                    assert(was[k - 1] == n);
                }
            }
            if was.contains(n) {
                let k = choose|k: int| 0 <= k < was.len() && was[k] == n;
                if k < p {
                    assert(now[k] == n);
                } else {
                    assert(now[k + 1] == n);
                }
            }
            assert(now[p as int] == name@);
        }
        assert(now.to_set() =~= was.to_set().insert(name@));
    }
}

/// The first names of a list, as many as are shown.
pub open spec fn shown(list: Seq<Seq<char>>) -> Seq<Seq<char>> {
    if list.len() <= MAX_APPS {
        list
    } else {
        list.take(MAX_APPS as int)
    }
}

/// The first names in order, without repetition, out of `names`.
pub fn running_apps(names: &Vec<String>) -> (r: Vec<String>)
    ensures
        lists(ordered(texts(names@).to_set()), texts(names@).to_set()),
        texts(r@) == shown(ordered(texts(names@).to_set())),
{
    let mut list: Vec<String> = Vec::new();
    let ghost all = texts(names@);
    assert(all.take(0).to_set() =~= texts(list@).to_set());
    let mut i: usize = 0;
    while i < names.len()
        invariant
            all == texts(names@),
            i <= names@.len(),
            lists(texts(list@), all.take(i as int).to_set()),
        decreases names@.len() - i,
    {
        insert_name(&mut list, names[i].clone());
        proof {
            let a = all.take(i as int);
            let b = all.take(i + 1);
            assert(b =~= a.push(all[i as int]));
            assert forall|n: Seq<char>| #[trigger] b.to_set().contains(n) <==> a.to_set().insert(
                all[i as int],
            ).contains(n) by {
                if a.contains(n) {
                    let k = choose|k: int| 0 <= k < a.len() && a[k] == n;
                    assert(b[k] == n);
                }
                assert(b[i as int] == all[i as int]);
            }
            assert(b.to_set() =~= a.to_set().insert(all[i as int]));
        }
        i += 1;
    }
    proof {
        assert(all.take(i as int) =~= all);
        ordered_list_is_unique(texts(list@), ordered(all.to_set()));
    }
    let ghost whole = texts(list@);
    list.truncate(MAX_APPS);
    assert(texts(list@) =~= shown(whole));
    list
}

/// The order in which names were found, and how often, does not show.
pub proof fn only_the_set_of_names_shows(a: Seq<Seq<char>>, b: Seq<Seq<char>>)
    requires
        forall|n: Seq<char>| a.contains(n) <==> b.contains(n),
    ensures
        shown(ordered(a.to_set())) == shown(ordered(b.to_set())),
{
    assert forall|n: Seq<char>| a.to_set().contains(n) <==> b.to_set().contains(n) by {
        assert(a.contains(n) <==> b.contains(n));
    }
    assert(a.to_set() =~= b.to_set());
}

/// The report on the machine. `names` are those of the processes.
pub fn get_system_info(
    storage: Vec<DiskSpace>,
    ram_total_bytes: u64,
    ram_used_bytes: u64,
    cpu_load_percent_bits: u32,
    names: &Vec<String>,
) -> (r: ToolExecution)
    ensures
        r.tool@ == "get_system_info"@,
        r.summary@ == "Read system storage, memory, CPU load, and running applications."@,
        r.data matches ToolData::System {
            storage: s,
            ram_total_bytes: t,
            ram_used_bytes: u,
            cpu_load_percent_bits: c,
            running_apps: a,
        } && s == storage && t == ram_total_bytes && u == ram_used_bytes && c
            == cpu_load_percent_bits && texts(a@) == shown(ordered(texts(names@).to_set())),
        lists(ordered(texts(names@).to_set()), texts(names@).to_set()),
{
    ToolExecution {
        tool: "get_system_info".to_owned(),
        summary: "Read system storage, memory, CPU load, and running applications.".to_owned(),
        data: ToolData::System {
            storage,
            ram_total_bytes,
            ram_used_bytes,
            cpu_load_percent_bits,
            running_apps: running_apps(names),
        },
    }
}

} // verus!
