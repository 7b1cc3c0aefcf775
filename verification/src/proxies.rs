//! How the controller lists proxies: the order in which the `/proxies`
//! answer is shown to the user, and what the direct mode shows instead.

use vstd::prelude::*;
use crate::model::{mode_name, Mode, Proxy, ProxyView};

verus! {

/// A proxy of the `/proxies` answer, under the key that the answer gives it.
pub type ProxyEntry = (Seq<char>, ProxyView);

/// The key of the group that lists all proxies in the order the user set.
pub open spec fn global_key() -> Seq<char> {
    seq!['G', 'L', 'O', 'B', 'A', 'L']
}

/// The view of a list of keyed proxies.
pub open spec fn entries_view(entries: Seq<(String, Proxy)>) -> Seq<ProxyEntry> {
    entries.map_values(|e: (String, Proxy)| e@)
}

/// No key occurs twice (the answer is a map from key to proxy).
pub open spec fn keys_distinct(es: Seq<ProxyEntry>) -> bool {
    forall|i: int, j: int|
        0 <= i < es.len() && 0 <= j < es.len() && i != j ==> #[trigger] es[i].0 != #[trigger] es[j].0
}

pub open spec fn has_key(es: Seq<ProxyEntry>, k: Seq<char>) -> bool {
    exists|i: int| 0 <= i < es.len() && #[trigger] es[i].0 == k
}

pub open spec fn key_index(es: Seq<ProxyEntry>, k: Seq<char>) -> int {
    choose|i: int| 0 <= i < es.len() && #[trigger] es[i].0 == k
}

/// The proxy stored under `k`, if any.
pub open spec fn lookup(es: Seq<ProxyEntry>, k: Seq<char>) -> Option<ProxyView> {
    if has_key(es, k) {
        Some(es[key_index(es, k)].1)
    } else {
        None
    }
}

/// For each name of `names` in turn, the proxy stored under it, skipping
/// names with no proxy.
pub open spec fn pick_listed(names: Seq<Seq<char>>, es: Seq<ProxyEntry>) -> Seq<ProxyView>
    decreases names.len(),
{
    if names.len() == 0 {
        seq![]
    } else {
        let prev = pick_listed(names.drop_last(), es);
        match lookup(es, names.last()) {
            Some(p) => prev.push(p),
            None => prev,
        }
    }
}

/// The proxies whose keys `names` does not list, in their order in `es`.
pub open spec fn unlisted(es: Seq<ProxyEntry>, names: Seq<Seq<char>>) -> Seq<ProxyView>
    decreases es.len(),
{
    if es.len() == 0 {
        seq![]
    } else {
        let prev = unlisted(es.drop_last(), names);
        if names.contains(es.last().0) {
            prev
        } else {
            prev.push(es.last().1)
        }
    }
}

/// The proxies of the answer in the order shown to the user.  Without a
/// `GLOBAL` group, the answer's own order.  With one: the other proxies in
/// the order of the group's member list, then the proxies that the list
/// does not name, in the answer's order; the group itself comes first in
/// global mode and is left out otherwise.
pub open spec fn arranged(mode: Mode, es: Seq<ProxyEntry>) -> Seq<ProxyView> {
    if has_key(es, global_key()) {
        let gi = key_index(es, global_key());
        let global = es[gi].1;
        let rest = es.remove(gi);
        let listed = pick_listed(global.all, rest) + unlisted(rest, global.all);
        if mode == Mode::Global {
            seq![global] + listed
        } else {
            listed
        }
    } else {
        es.map_values(|e: ProxyEntry| e.1)
    }
}

/// The single proxy shown in direct mode.
pub open spec fn direct_proxy() -> ProxyView {
    ProxyView {
        name: seq!['D', 'I', 'R', 'E', 'C', 'T'],
        proxy_type: seq!['D', 'i', 'r', 'e', 'c', 't'],
        all: seq![],
        now: None,
        history: seq![],
    }
}

pub open spec fn proxies_view(ps: Seq<Proxy>) -> Seq<ProxyView> {
    ps.map_values(|p: Proxy| p@)
}

/// What listing the proxies takes, once the mode is known.
pub enum ProxiesStep {
    /// The list is known without asking the core.
    Done(Vec<Proxy>),
    /// The `/proxies` answer is needed; arrange it for this mode.
    Fetch(Mode),
}

/// The first decision of listing the proxies.  The mode defaults to rule
/// mode when the configuration does not give one; in direct mode the list
/// is the single `DIRECT` proxy, otherwise the proxies must be fetched.
pub fn proxies_step(mode: Option<Mode>) -> (r: ProxiesStep)
    ensures
        mode == Some(Mode::Direct) ==> (r matches ProxiesStep::Done(ps) && proxies_view(ps@) == seq![direct_proxy()]),
        mode == Some(Mode::Global) ==> r == ProxiesStep::Fetch(Mode::Global),
        (mode == Some(Mode::Rule) || mode is None) ==> r == ProxiesStep::Fetch(Mode::Rule),
{
    let mode = match mode {
        Some(m) => m,
        None => Mode::Rule,
    };
    match mode {
        Mode::Direct => {
            proof {
                reveal_strlit("DIRECT");
                reveal_strlit("Direct");
            }
            let p = Proxy {
                name: String::from_str("DIRECT"),
                proxy_type: String::from_str("Direct"),
                all: Vec::new(),
                now: None,
                history: Vec::new(),
            };
            let mut ps: Vec<Proxy> = Vec::new();
            ps.push(p);
            assert(p.name@ =~= direct_proxy().name);
            assert(p.proxy_type@ =~= direct_proxy().proxy_type);
            assert(p.all.deep_view() =~= seq![]);
            assert(p@.history =~= seq![]);
            assert(p@ == direct_proxy());
            assert(proxies_view(ps@) =~= seq![direct_proxy()]);
            ProxiesStep::Done(ps)
        },
        Mode::Global => ProxiesStep::Fetch(Mode::Global),
        Mode::Rule => ProxiesStep::Fetch(Mode::Rule),
    }
}

/// Position of the entry stored under `key`.
fn find_key(entries: &Vec<(String, Proxy)>, key: &String) -> (r: Option<usize>)
    ensures
        match r {
            Some(i) => i < entries@.len() && entries@[i as int].0@ == key@,
            None => !has_key(entries_view(entries@), key@),
        },
{
    let ghost ev = entries_view(entries@);
    for i in 0..entries.len()
        invariant
            ev == entries_view(entries@),
            forall|j: int| 0 <= j < i ==> #[trigger] ev[j].0 != key@,
    {
        if entries[i].0 == *key {
            return Some(i);
        }
    }
    None
}

/// Whether `names` holds `key`.
fn names_contain(names: &Vec<String>, key: &String) -> (b: bool)
    ensures
        b == names.deep_view().contains(key@),
{
    let ghost nv = names.deep_view();
    for i in 0..names.len()
        invariant
            nv == names.deep_view(),
            forall|j: int| 0 <= j < i ==> #[trigger] nv[j] != key@,
    {
        if names[i] == *key {
            assert(nv[i as int] == key@);
            return true;
        }
    }
    false
}

proof fn lemma_push_view(ps: Seq<Proxy>, p: Proxy)
    ensures
        proxies_view(ps.push(p)) =~= proxies_view(ps).push(p@),
{
}

proof fn lemma_lookup_at(es: Seq<ProxyEntry>, i: int)
    requires
        keys_distinct(es),
        0 <= i < es.len(),
    ensures
        lookup(es, es[i].0) == Some(es[i].1),
{
    assert(has_key(es, es[i].0));
    let j = key_index(es, es[i].0);
    assert(es[j].0 == es[i].0);
}

/// Arranges the `/proxies` answer, given as (key, proxy) pairs in the order
/// in which the answer's map was walked, for display in `mode`.
pub fn arrange_proxies(mode: Mode, entries: Vec<(String, Proxy)>) -> (r: Vec<Proxy>)
    requires
        keys_distinct(entries_view(entries@)),
    ensures
        proxies_view(r@) == arranged(mode, entries_view(entries@)),
{
    let ghost ev = entries_view(entries@);
    proof {
        reveal_strlit("GLOBAL");
    }
    let global_name = String::from_str("GLOBAL");
    assert(global_name@ =~= global_key());
    match find_key(&entries, &global_name) {
        None => {
            let mut out: Vec<Proxy> = Vec::new();
            for i in 0..entries.len()
                invariant
                    ev == entries_view(entries@),
                    proxies_view(out@) =~= ev.take(i as int).map_values(|e: ProxyEntry| e.1),
            {
                let ghost before = out@;
                let p = entries[i].1.duplicate();
                out.push(p);
                proof {
                    lemma_push_view(before, p);
                    assert(ev[i as int] == entries@[i as int]@);
                    assert(ev.take(i + 1) =~= ev.take(i as int).push(ev[i as int]));
                    assert(ev.take(i + 1).map_values(|e: ProxyEntry| e.1) =~= ev.take(
                        i as int,
                    ).map_values(|e: ProxyEntry| e.1).push(ev[i as int].1));
                }
            }
            assert(ev.take(entries@.len() as int) =~= ev);
            out
        },
        Some(g) => {
            let mut rest = entries;
            let global_entry = rest.remove(g);
            let global = global_entry.1;
            let ghost rv = entries_view(rest@);
            let ghost names = global.all.deep_view();
            proof {
                assert(global_name@ =~= global_key());
                assert(ev[g as int] == entries@[g as int]@);
                assert(rv =~= ev.remove(g as int));
                assert(ev[g as int].0 == global_key());
                assert(has_key(ev, global_key()));
                let gi = key_index(ev, global_key());
                assert(ev[gi].0 == ev[g as int].0);
                assert(gi == g);
                assert(keys_distinct(rv)) by {
                    assert forall|i: int, j: int|
                        0 <= i < rv.len() && 0 <= j < rv.len() && i != j implies #[trigger] rv[i].0
                        != #[trigger] rv[j].0 by {
                        let oi = if i < g { i } else { i + 1 };
                        let oj = if j < g { j } else { j + 1 };
                        assert(rv[i] == ev[oi]);
                        assert(rv[j] == ev[oj]);
                    }
                }
            }
            let mut out: Vec<Proxy> = Vec::new();
            let ghost head: Seq<ProxyView> = seq![];
            if mode == Mode::Global {
                out.push(global.duplicate());
                proof {
                    head = seq![global@];
                }
            }
            assert(proxies_view(out@) =~= head);
            let n = global.all.len();
            for i in 0..n
                invariant
                    n == global.all@.len(),
                    names == global.all.deep_view(),
                    rv == entries_view(rest@),
                    keys_distinct(rv),
                    proxies_view(out@) =~= head + pick_listed(names.take(i as int), rv),
            {
                let found = find_key(&rest, &global.all[i]);
                proof {
                    assert(names.take(i + 1).drop_last() =~= names.take(i as int));
                    assert(names.take(i + 1).last() == names[i as int]);
                }
                let ghost before = out@;
                let ghost prev = pick_listed(names.take(i as int), rv);
                match found {
                    Some(k) => {
                        proof {
                            assert(rv[k as int] == rest@[k as int]@);
                            assert(rv[k as int].0 == names[i as int]);
                            lemma_lookup_at(rv, k as int);
                        }
                        let p = rest[k].1.duplicate();
                        out.push(p);
                        proof {
                            lemma_push_view(before, p);
                            assert(pick_listed(names.take(i + 1), rv) == prev.push(p@));
                            assert((head + prev).push(p@) =~= head + prev.push(p@));
                        }
                    },
                    None => {
                        assert(pick_listed(names.take(i + 1), rv) == prev);
                    },
                }
            }
            assert(names.take(n as int) =~= names);
            for k in 0..rest.len()
                invariant
                    names == global.all.deep_view(),
                    rv == entries_view(rest@),
                    proxies_view(out@) =~= head + pick_listed(names, rv) + unlisted(
                        rv.take(k as int),
                        names,
                    ),
            {
                proof {
                    assert(rv.take(k + 1).drop_last() =~= rv.take(k as int));
                }
                let ghost before = out@;
                let ghost prev = unlisted(rv.take(k as int), names);
                let ghost fixed = head + pick_listed(names, rv);
                proof {
                    assert(rv[k as int] == rest@[k as int]@);
                    assert(rv.take(k + 1).last() == rv[k as int]);
                }
                if !names_contain(&global.all, &rest[k].0) {
                    let p = rest[k].1.duplicate();
                    out.push(p);
                    proof {
                        lemma_push_view(before, p);
                        assert(unlisted(rv.take(k + 1), names) == prev.push(p@));
                        assert((fixed + prev).push(p@) =~= fixed + prev.push(p@));
                    }
                } else {
                    assert(unlisted(rv.take(k + 1), names) == prev);
                }
            }
            assert(rv.take(rest@.len() as int) =~= rv);
            proof {
                let listed = pick_listed(names, rv) + unlisted(rv, names);
                assert(global@ == ev[g as int].1);
                assert(head + pick_listed(names, rv) + unlisted(rv, names) =~= head + listed);
                if mode == Mode::Global {
                    assert(head == seq![global@]);
                } else {
                    assert(head + listed =~= listed);
                }
            }
            out
        },
    }
}

} // verus!

verus! {

/// Some entry of `es` holds the proxy `p`.
pub open spec fn holds_proxy(es: Seq<ProxyEntry>, p: ProxyView) -> bool {
    exists|i: int| 0 <= i < es.len() && #[trigger] es[i].1 == p
}

proof fn lemma_pick_listed_from(names: Seq<Seq<char>>, es: Seq<ProxyEntry>)
    ensures
        forall|j: int|
            0 <= j < pick_listed(names, es).len() ==> holds_proxy(es, #[trigger] pick_listed(names, es)[j]),
    decreases names.len(),
{
    if names.len() > 0 {
        lemma_pick_listed_from(names.drop_last(), es);
        let prev = pick_listed(names.drop_last(), es);
        if has_key(es, names.last()) {
            let i = key_index(es, names.last());
            assert(0 <= i < es.len() && es[i].0 == names.last());
            assert(holds_proxy(es, es[i].1));
        }
        assert forall|j: int| 0 <= j < pick_listed(names, es).len() implies holds_proxy(
            es,
            #[trigger] pick_listed(names, es)[j],
        ) by {
            if j < prev.len() {
                assert(pick_listed(names, es)[j] == prev[j]);
            }
        }
    }
}

proof fn lemma_unlisted_from(es: Seq<ProxyEntry>, names: Seq<Seq<char>>)
    ensures
        forall|j: int|
            0 <= j < unlisted(es, names).len() ==> holds_proxy(es, #[trigger] unlisted(es, names)[j]),
    decreases es.len(),
{
    if es.len() > 0 {
        let init = es.drop_last();
        lemma_unlisted_from(init, names);
        let prev = unlisted(init, names);
        assert(es[es.len() - 1] == es.last());
        assert forall|j: int| 0 <= j < unlisted(es, names).len() implies holds_proxy(
            es,
            #[trigger] unlisted(es, names)[j],
        ) by {
            if j < prev.len() {
                assert(unlisted(es, names)[j] == prev[j]);
                let k = choose|k: int| 0 <= k < init.len() && #[trigger] init[k].1 == prev[j];
                assert(es[k] == init[k]);
            } else {
                assert(unlisted(es, names)[j] == es.last().1);
            }
        }
    }
}

proof fn lemma_pick_listed_has(names: Seq<Seq<char>>, es: Seq<ProxyEntry>, j: int)
    requires
        0 <= j < names.len(),
        has_key(es, names[j]),
    ensures
        pick_listed(names, es).contains(lookup(es, names[j]).unwrap()),
    decreases names.len(),
{
    let prev = pick_listed(names.drop_last(), es);
    if j == names.len() - 1 {
        assert(names.last() == names[j]);
        assert(pick_listed(names, es) == prev.push(lookup(es, names[j]).unwrap()));
        assert(pick_listed(names, es)[prev.len() as int] == lookup(es, names[j]).unwrap());
    } else {
        assert(names.drop_last()[j] == names[j]);
        lemma_pick_listed_has(names.drop_last(), es, j);
        let k = choose|k: int| 0 <= k < prev.len() && prev[k] == lookup(es, names[j]).unwrap();
        match lookup(es, names.last()) {
            Some(p) => {
                assert(pick_listed(names, es)[k] == prev[k]);
            },
            None => {},
        }
    }
}

proof fn lemma_unlisted_has(es: Seq<ProxyEntry>, names: Seq<Seq<char>>, j: int)
    requires
        0 <= j < es.len(),
        !names.contains(es[j].0),
    ensures
        unlisted(es, names).contains(es[j].1),
    decreases es.len(),
{
    let init = es.drop_last();
    let prev = unlisted(init, names);
    if j == es.len() - 1 {
        assert(es.last() == es[j]);
        assert(unlisted(es, names)[prev.len() as int] == es[j].1);
    } else {
        assert(init[j] == es[j]);
        lemma_unlisted_has(init, names, j);
        let k = choose|k: int| 0 <= k < prev.len() && prev[k] == es[j].1;
        if !names.contains(es.last().0) {
            assert(unlisted(es, names)[k] == prev[k]);
        }
    }
}

/// Nothing is lost: every proxy of the answer, except the `GLOBAL` group
/// itself, appears in the arranged list.
pub proof fn arranged_keeps_every_proxy(mode: Mode, es: Seq<ProxyEntry>, i: int)
    requires
        keys_distinct(es),
        0 <= i < es.len(),
        es[i].0 != global_key(),
    ensures
        arranged(mode, es).contains(es[i].1),
{
    if has_key(es, global_key()) {
        let gi = key_index(es, global_key());
        let global = es[gi].1;
        let rest = es.remove(gi);
        let names = global.all;
        assert(i != gi);
        let ri = if i < gi {
            i
        } else {
            i - 1
        };
        assert(rest[ri] == es[i]);
        assert(keys_distinct(rest)) by {
            assert forall|a: int, b: int|
                0 <= a < rest.len() && 0 <= b < rest.len() && a != b implies #[trigger] rest[a].0
                != #[trigger] rest[b].0 by {
                let oa = if a < gi {
                    a
                } else {
                    a + 1
                };
                let ob = if b < gi {
                    b
                } else {
                    b + 1
                };
                assert(rest[a] == es[oa]);
                assert(rest[b] == es[ob]);
            }
        }
        let pick = pick_listed(names, rest);
        let un = unlisted(rest, names);
        let listed = pick + un;
        let k: int;
        if names.contains(es[i].0) {
            let j = choose|j: int| 0 <= j < names.len() && names[j] == es[i].0;
            assert(has_key(rest, names[j])) by {
                assert(rest[ri].0 == names[j]);
            }
            lemma_lookup_at(rest, ri);
            lemma_pick_listed_has(names, rest, j);
            let kk = choose|kk: int| 0 <= kk < pick.len() && pick[kk] == es[i].1;
            assert(listed[kk] == es[i].1);
            k = kk;
        } else {
            lemma_unlisted_has(rest, names, ri);
            let kk = choose|kk: int| 0 <= kk < un.len() && un[kk] == es[i].1;
            assert(listed[pick.len() + kk] == es[i].1);
            k = pick.len() + kk;
        }
        if mode == Mode::Global {
            assert((seq![global] + listed)[k + 1] == es[i].1);
        }
    } else {
        assert(arranged(mode, es)[i] == es[i].1);
    }
}

/// Nothing is made up: every proxy of the arranged list is one of the
/// answer's proxies.
pub proof fn arranged_only_from_answer(mode: Mode, es: Seq<ProxyEntry>)
    ensures
        forall|j: int|
            0 <= j < arranged(mode, es).len() ==> holds_proxy(es, #[trigger] arranged(mode, es)[j]),
{
    if has_key(es, global_key()) {
        let gi = key_index(es, global_key());
        let global = es[gi].1;
        let rest = es.remove(gi);
        let names = global.all;
        let pick = pick_listed(names, rest);
        let un = unlisted(rest, names);
        let listed = pick + un;
        lemma_pick_listed_from(names, rest);
        lemma_unlisted_from(rest, names);
        assert forall|j: int| 0 <= j < listed.len() implies holds_proxy(es, #[trigger] listed[j]) by {
            let k = choose|k: int| 0 <= k < rest.len() && #[trigger] rest[k].1 == listed[j];
            let ok = if k < gi {
                k
            } else {
                k + 1
            };
            assert(rest[k] == es[ok]);
        }
        assert(holds_proxy(es, global));
        assert forall|j: int| 0 <= j < arranged(mode, es).len() implies holds_proxy(
            es,
            #[trigger] arranged(mode, es)[j],
        ) by {
            if mode == Mode::Global {
                if j > 0 {
                    assert(arranged(mode, es)[j] == listed[j - 1]);
                }
            } else {
                assert(arranged(mode, es)[j] == listed[j]);
            }
        }
    } else {
        assert forall|j: int| 0 <= j < arranged(mode, es).len() implies holds_proxy(
            es,
            #[trigger] arranged(mode, es)[j],
        ) by {
            assert(arranged(mode, es)[j] == es[j].1);
        }
    }
}

/// Global mode shows the list of rule mode with the `GLOBAL` group in
/// front; without a `GLOBAL` group every mode shows the answer's proxies in
/// the answer's order.
pub proof fn arranged_global_mode_adds_group(es: Seq<ProxyEntry>)
    ensures
        has_key(es, global_key()) ==> {
            &&& arranged(Mode::Global, es) == seq![lookup(es, global_key()).unwrap()] + arranged(
                Mode::Rule,
                es,
            )
            &&& arranged(Mode::Direct, es) == arranged(Mode::Rule, es)
        },
        !has_key(es, global_key()) ==> {
            &&& arranged(Mode::Global, es) == es.map_values(|e: ProxyEntry| e.1)
            &&& arranged(Mode::Rule, es) == es.map_values(|e: ProxyEntry| e.1)
            &&& arranged(Mode::Direct, es) == es.map_values(|e: ProxyEntry| e.1)
        },
{
}

} // verus!

verus! {

proof fn lemma_pick_listed_is_filter(
    names: Seq<Seq<char>>,
    rest: Seq<ProxyEntry>,
    p: spec_fn(Seq<char>) -> bool,
)
    requires
        forall|n: Seq<char>| #[trigger] p(n) == has_key(rest, n),
    ensures
        pick_listed(names, rest).len() == names.filter(p).len(),
        forall|j: int|
            0 <= j < names.filter(p).len() ==> #[trigger] pick_listed(names, rest)[j] == lookup(
                rest,
                names.filter(p)[j],
            ).unwrap(),
    decreases names.len(),
{
    reveal_with_fuel(Seq::filter, 1);
    if names.len() > 0 {
        lemma_pick_listed_is_filter(names.drop_last(), rest, p);
        let prev = pick_listed(names.drop_last(), rest);
        let fprev = names.drop_last().filter(p);
        if p(names.last()) {
            assert(names.filter(p) == fprev.push(names.last()));
            assert(pick_listed(names, rest) == prev.push(lookup(rest, names.last()).unwrap()));
            assert forall|j: int| 0 <= j < names.filter(p).len() implies #[trigger] pick_listed(
                names,
                rest,
            )[j] == lookup(rest, names.filter(p)[j]).unwrap() by {
                if j < fprev.len() {
                    assert(pick_listed(names, rest)[j] == prev[j]);
                    assert(names.filter(p)[j] == fprev[j]);
                }
            }
        } else {
            assert(names.filter(p) == fprev);
            assert(pick_listed(names, rest) == prev);
        }
    }
}

proof fn lemma_unlisted_is_filter(
    rest: Seq<ProxyEntry>,
    names: Seq<Seq<char>>,
    q: spec_fn(ProxyEntry) -> bool,
)
    requires
        forall|e: ProxyEntry| #[trigger] q(e) == !names.contains(e.0),
    ensures
        unlisted(rest, names).len() == rest.filter(q).len(),
        forall|j: int|
            0 <= j < rest.filter(q).len() ==> #[trigger] unlisted(rest, names)[j] == rest.filter(
                q,
            )[j].1,
    decreases rest.len(),
{
    reveal_with_fuel(Seq::filter, 1);
    if rest.len() > 0 {
        lemma_unlisted_is_filter(rest.drop_last(), names, q);
        let prev = unlisted(rest.drop_last(), names);
        let fprev = rest.drop_last().filter(q);
        if q(rest.last()) {
            assert(rest.filter(q) == fprev.push(rest.last()));
            assert(unlisted(rest, names) == prev.push(rest.last().1));
            assert forall|j: int| 0 <= j < rest.filter(q).len() implies #[trigger] unlisted(
                rest,
                names,
            )[j] == rest.filter(q)[j].1 by {
                if j < fprev.len() {
                    assert(unlisted(rest, names)[j] == prev[j]);
                    assert(rest.filter(q)[j] == fprev[j]);
                }
            }
        } else {
            assert(rest.filter(q) == fprev);
            assert(unlisted(rest, names) == prev);
        }
    }
}

/// With a `GLOBAL` group `g` (at position `gi`), rule mode lists, first,
/// for each name of `g.all` in that order and with repetitions, the proxy
/// the answer stores under that name, when it has one; then the proxies
/// whose key `g.all` does not name, in the answer's order; and nothing else.
/// Global mode lists `g` itself and then the same.
pub proof fn arranged_follows_global_order(es: Seq<ProxyEntry>, gi: int)
    requires
        keys_distinct(es),
        0 <= gi < es.len(),
        es[gi].0 == global_key(),
    ensures
        ({
            let g = es[gi].1;
            let rest = es.remove(gi);
            let listed = g.all.filter(
                |n: Seq<char>| exists|i: int| 0 <= i < rest.len() && #[trigger] rest[i].0 == n,
            );
            let others = rest.filter(|e: ProxyEntry| !g.all.contains(e.0));
            let r = arranged(Mode::Rule, es);
            &&& r.len() == listed.len() + others.len()
            &&& forall|j: int|
                0 <= j < listed.len() ==> exists|i: int|
                    0 <= i < rest.len() && rest[i].0 == listed[j] && #[trigger] r[j] == rest[i].1
            &&& forall|j: int| 0 <= j < others.len() ==> #[trigger] r[listed.len() + j] == others[j].1
            &&& arranged(Mode::Global, es) == seq![g] + r
            &&& arranged(Mode::Direct, es) == r
        }),
{
    let g = es[gi].1;
    let rest = es.remove(gi);
    let p = |n: Seq<char>| exists|i: int| 0 <= i < rest.len() && #[trigger] rest[i].0 == n;
    let q = |e: ProxyEntry| !g.all.contains(e.0);
    let listed = g.all.filter(p);
    let others = rest.filter(q);
    assert(has_key(es, global_key()));
    let k = key_index(es, global_key());
    assert(es[k].0 == es[gi].0);
    assert(k == gi);
    lemma_pick_listed_is_filter(g.all, rest, p);
    lemma_unlisted_is_filter(rest, g.all, q);
    let pick = pick_listed(g.all, rest);
    let un = unlisted(rest, g.all);
    let r = arranged(Mode::Rule, es);
    assert(r == pick + un);
    assert forall|j: int| 0 <= j < listed.len() implies exists|i: int|
        0 <= i < rest.len() && rest[i].0 == listed[j] && #[trigger] r[j] == rest[i].1 by {
        g.all.lemma_filter_pred(p, j);
        assert(p(listed[j]));
        assert(has_key(rest, listed[j]));
        let i = key_index(rest, listed[j]);
        assert(r[j] == pick[j]);
        assert(rest[i].0 == listed[j] && r[j] == rest[i].1);
    }
    assert forall|j: int| 0 <= j < others.len() implies #[trigger] r[listed.len() + j]
        == others[j].1 by {
        assert(r[listed.len() + j] == un[j]);
    }
}

/// Without a `GLOBAL` group, every mode lists the answer's proxies in the
/// answer's order.
pub proof fn arranged_without_global_keeps_answer(mode: Mode, es: Seq<ProxyEntry>)
    requires
        forall|i: int| 0 <= i < es.len() ==> #[trigger] es[i].0 != global_key(),
    ensures
        arranged(mode, es) == es.map_values(|e: ProxyEntry| e.1),
{
    if has_key(es, global_key()) {
        let k = key_index(es, global_key());
        assert(es[k].0 == global_key());
    }
}

} // verus!
