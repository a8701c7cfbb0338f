//! From the browsers that were found to the list that is handed out: one browser for each key,
//! in the order of the keys.

use crate::browser::resolve::{Browser, BrowserView};
use crate::text::{
    lemma_lex_lt_irreflexive, lemma_lex_lt_transitive, lex_lt, order, to_chars, Order,
};
use vstd::prelude::*;

verus! {

/// The key under which a browser is entered: the line that describes it where every browser
/// at every path is asked for, and else its name with its version.
pub open spec fn key(b: BrowserView, all: bool) -> Seq<char> {
    if all {
        b.line()
    } else {
        b.version_key()
    }
}

/// Whether `found[j]` is the browser that stays for its key: the last of its key where every
/// browser is asked for, and else the first of its key.
pub open spec fn stays(found: Seq<BrowserView>, all: bool, j: int) -> bool {
    &&& 0 <= j < found.len()
    &&& if all {
        forall|k: int| j < k < found.len() ==> key(#[trigger] found[k], all) != key(found[j], all)
    } else {
        forall|k: int| 0 <= k < j ==> key(#[trigger] found[k], all) != key(found[j], all)
    }
}

/// Whether `b` is one of `found` that stays for its key.
pub open spec fn kept(found: Seq<BrowserView>, all: bool, b: BrowserView) -> bool {
    exists|j: int| #[trigger] stays(found, all, j) && found[j] == b
}

/// Whether one of `out` has the key `k`.
pub open spec fn has_key(out: Seq<BrowserView>, all: bool, k: Seq<char>) -> bool {
    exists|i: int| 0 <= i < out.len() && #[trigger] key(out[i], all) == k
}

/// Whether the keys of `out` ascend, so that no key occurs twice.
pub open spec fn ascending(out: Seq<BrowserView>, all: bool) -> bool {
    forall|i: int, j: int|
        0 <= i < j < out.len() ==> lex_lt(#[trigger] key(out[i], all), #[trigger] key(out[j], all))
}

/// Whether `out` is the inventory of `found`: its keys ascend, each of its browsers is one of
/// `found` that stays for its key, and every key of `found` has its browser in it.
pub open spec fn is_inventory(found: Seq<BrowserView>, all: bool, out: Seq<BrowserView>) -> bool {
    &&& ascending(out, all)
    &&& forall|i: int| 0 <= i < out.len() ==> kept(found, all, #[trigger] out[i])
    &&& forall|j: int| 0 <= j < found.len() ==> has_key(out, all, key(#[trigger] found[j], all))
}

/// An inventory into which a browser with a new key is entered at the place of its key is
/// the inventory of what was found with that browser after it.
pub proof fn lemma_enter_new(
    found: Seq<BrowserView>,
    all: bool,
    out: Seq<BrowserView>,
    b: BrowserView,
    p: int,
)
    requires
        is_inventory(found, all, out),
        0 <= p <= out.len(),
        forall|q: int| 0 <= q < p ==> lex_lt(#[trigger] key(out[q], all), key(b, all)),
        p < out.len() ==> lex_lt(key(b, all), key(out[p], all)),
    ensures
        is_inventory(found.push(b), all, out.insert(p, b)),
{
    let f2 = found.push(b);
    let o2 = out.insert(p, b);
    let kb = key(b, all);
    lemma_lex_lt_irreflexive(kb);
    assert forall|q: int| p <= q < out.len() implies lex_lt(kb, #[trigger] key(out[q], all)) by {
        if q > p {
            lemma_lex_lt_transitive(kb, key(out[p], all), key(out[q], all));
        }
    }
    assert forall|i: int, j: int| 0 <= i < j < o2.len() implies lex_lt(
        #[trigger] key(o2[i], all),
        #[trigger] key(o2[j], all),
    ) by {
        let x = if i < p {
            i
        } else {
            i - 1
        };
        let y = if j < p {
            j
        } else {
            j - 1
        };
        if i != p {
            assert(o2[i] == out[x]);
        }
        if j != p {
            assert(o2[j] == out[y]);
        }
    }
    assert forall|j: int| 0 <= j < found.len() implies key(#[trigger] found[j], all) != kb by {
        assert(has_key(out, all, key(found[j], all)));
        let x = choose|x: int| 0 <= x < out.len() && #[trigger] key(out[x], all) == key(
            found[j],
            all,
        );
        assert(lex_lt(key(out[x], all), kb) || lex_lt(kb, key(out[x], all)));
    }
    assert forall|i: int| 0 <= i < o2.len() implies kept(f2, all, #[trigger] o2[i]) by {
        if i == p {
            assert(f2[found.len() as int] == b);
            assert(stays(f2, all, found.len() as int));
        } else {
            let x = if i < p {
                i
            } else {
                i - 1
            };
            assert(o2[i] == out[x]);
            assert(kept(found, all, out[x]));
            let j = choose|j: int| #[trigger] stays(found, all, j) && found[j] == out[x];
            assert(f2[j] == found[j]);
            assert forall|k: int| 0 <= k < f2.len() && k != j && (if all {
                j < k
            } else {
                k < j
            }) implies key(#[trigger] f2[k], all) != key(f2[j], all) by {
                if k < found.len() {
                    assert(f2[k] == found[k]);
                }
            }
            assert(stays(f2, all, j));
        }
    }
    assert forall|j: int| 0 <= j < f2.len() implies has_key(
        o2,
        all,
        key(#[trigger] f2[j], all),
    ) by {
        if j == found.len() {
            assert(key(o2[p], all) == kb);
        } else {
            assert(f2[j] == found[j]);
            assert(has_key(out, all, key(found[j], all)));
            let x = choose|x: int| 0 <= x < out.len() && #[trigger] key(out[x], all) == key(
                found[j],
                all,
            );
            let y = if x < p {
                x
            } else {
                x + 1
            };
            assert(o2[y] == out[x]);
            assert(key(o2[y], all) == key(f2[j], all));
        }
    }
}

/// An inventory that holds the key of a further browser is, where the first of a key stays,
/// the inventory of what was found with that browser after it; where the last of a key stays,
/// it is so once the further browser has taken the place of the one with its key.
pub proof fn lemma_enter_known(
    found: Seq<BrowserView>,
    all: bool,
    out: Seq<BrowserView>,
    b: BrowserView,
    p: int,
)
    requires
        is_inventory(found, all, out),
        0 <= p < out.len(),
        key(out[p], all) == key(b, all),
    ensures
        is_inventory(
            found.push(b),
            all,
            if all {
                out.update(p, b)
            } else {
                out
            },
        ),
{
    let f2 = found.push(b);
    let o2 = if all {
        out.update(p, b)
    } else {
        out
    };
    let kb = key(b, all);
    lemma_lex_lt_irreflexive(kb);
    assert forall|i: int| 0 <= i < o2.len() implies #[trigger] key(o2[i], all) == key(
        out[i],
        all,
    ) by {}
    assert forall|i: int, j: int| 0 <= i < j < o2.len() implies lex_lt(
        #[trigger] key(o2[i], all),
        #[trigger] key(o2[j], all),
    ) by {
        assert(lex_lt(key(out[i], all), key(out[j], all)));
    }
    assert forall|i: int| 0 <= i < o2.len() implies kept(f2, all, #[trigger] o2[i]) by {
        if all && i == p {
            assert(f2[found.len() as int] == b);
            assert(stays(f2, all, found.len() as int));
        } else {
            assert(o2[i] == out[i]);
            assert(kept(found, all, out[i]));
            let j = choose|j: int| #[trigger] stays(found, all, j) && found[j] == out[i];
            assert(f2[j] == found[j]);
            if all {
                assert(i != p);
                if i < p {
                    assert(lex_lt(key(out[i], all), key(out[p], all)));
                } else {
                    assert(lex_lt(key(out[p], all), key(out[i], all)));
                }
                assert(key(out[i], all) != kb);
            }
            assert forall|k: int| 0 <= k < f2.len() && k != j && (if all {
                j < k
            } else {
                k < j
            }) implies key(#[trigger] f2[k], all) != key(f2[j], all) by {
                if k < found.len() {
                    assert(f2[k] == found[k]);
                }
            }
            assert(stays(f2, all, j));
        }
    }
    assert forall|j: int| 0 <= j < f2.len() implies has_key(
        o2,
        all,
        key(#[trigger] f2[j], all),
    ) by {
        if j == found.len() {
            assert(key(o2[p], all) == kb);
        } else {
            assert(f2[j] == found[j]);
            assert(has_key(out, all, key(found[j], all)));
            let x = choose|x: int| 0 <= x < out.len() && #[trigger] key(out[x], all) == key(
                found[j],
                all,
            );
            assert(key(o2[x], all) == key(f2[j], all));
        }
    }
}

/// Two browsers of `found` that stay for the same key are the same browser.
pub proof fn lemma_one_stays(found: Seq<BrowserView>, all: bool, x: int, y: int)
    requires
        stays(found, all, x),
        stays(found, all, y),
        key(found[x], all) == key(found[y], all),
    ensures
        x == y,
{
}

/// As far as one inventory of `found` reaches, another has the same keys at the same places.
proof fn lemma_keys_agree(
    found: Seq<BrowserView>,
    all: bool,
    a: Seq<BrowserView>,
    b: Seq<BrowserView>,
    n: int,
)
    requires
        is_inventory(found, all, a),
        is_inventory(found, all, b),
        0 <= n <= a.len(),
    ensures
        n <= b.len(),
        forall|i: int| 0 <= i < n ==> key(#[trigger] a[i], all) == key(b[i], all),
    decreases n,
{
    if n > 0 {
        let m = n - 1;
        lemma_keys_agree(found, all, a, b, m);
        let ka = key(a[m], all);
        lemma_lex_lt_irreflexive(ka);
        // the key of a[m] is one of found, so b holds it, at y
        assert(kept(found, all, a[m]));
        let fa = choose|j: int| #[trigger] stays(found, all, j) && found[j] == a[m];
        assert(has_key(b, all, key(found[fa], all)));
        let y = choose|y: int| 0 <= y < b.len() && #[trigger] key(b[y], all) == ka;
        if y < m {
            assert(key(a[y], all) == key(b[y], all));
            assert(lex_lt(key(a[y], all), key(a[m], all)));
        }
        assert(y >= m);
        // the key of b[m] is one of found, so a holds it, at w
        let kb = key(b[m], all);
        lemma_lex_lt_irreflexive(kb);
        assert(kept(found, all, b[m]));
        let fb = choose|j: int| #[trigger] stays(found, all, j) && found[j] == b[m];
        assert(has_key(a, all, key(found[fb], all)));
        let w = choose|w: int| 0 <= w < a.len() && #[trigger] key(a[w], all) == kb;
        if w < m {
            assert(key(a[w], all) == key(b[w], all));
            assert(lex_lt(key(b[w], all), key(b[m], all)));
        }
        assert(w >= m);
        if y > m {
            assert(lex_lt(key(b[m], all), key(b[y], all)));
            if w > m {
                assert(lex_lt(key(a[m], all), key(a[w], all)));
                lemma_lex_lt_transitive(kb, ka, kb);
            }
        }
        assert(ka == kb);
    }
}

/// What was found has one inventory and no other: the list that is handed out depends on
/// nothing but the browsers that were found and their order.
pub proof fn lemma_inventory_is_unique(
    found: Seq<BrowserView>,
    all: bool,
    a: Seq<BrowserView>,
    b: Seq<BrowserView>,
)
    requires
        is_inventory(found, all, a),
        is_inventory(found, all, b),
    ensures
        a == b,
{
    lemma_keys_agree(found, all, a, b, a.len() as int);
    lemma_keys_agree(found, all, b, a, b.len() as int);
    assert forall|i: int| 0 <= i < a.len() implies a[i] == b[i] by {
        assert(kept(found, all, a[i]));
        assert(kept(found, all, b[i]));
        let x = choose|j: int| #[trigger] stays(found, all, j) && found[j] == a[i];
        let y = choose|j: int| #[trigger] stays(found, all, j) && found[j] == b[i];
        assert(key(a[i], all) == key(b[i], all));
        lemma_one_stays(found, all, x, y);
    }
    assert(a =~= b);
}

/// The characters of the key under which `b` is entered.
pub fn key_of(b: &Browser, all: bool) -> (r: Vec<char>)
    ensures
        r@ == key(b@, all),
{
    if all {
        to_chars(b.to_string().as_str())
    } else {
        to_chars(b.version().as_str())
    }
}

/// The inventory of `found`: one browser for each key, in the order of the keys. Where every
/// browser at every path is asked for (`all`), the key is the line that describes the
/// browser, and the last browser of a key stays; else the key is the name with the version,
/// and the first browser of a key stays.
pub fn inventory(found: &Vec<Browser>, all: bool) -> (r: Vec<Browser>)
    ensures
        is_inventory(found.deep_view(), all, r.deep_view()),
{
    let mut out: Vec<Browser> = Vec::new();
    let mut i: usize = 0;
    assert(found.deep_view().take(0) =~= Seq::<BrowserView>::empty());
    while i < found.len()
        invariant
            i <= found.len(),
            is_inventory(found.deep_view().take(i as int), all, out.deep_view()),
        decreases found.len() - i,
    {
        let b = found[i].clone();
        let kb = key_of(&b, all);
        let ghost before = out.deep_view();
        let ghost seen = found.deep_view().take(i as int);
        assert(found.deep_view().take(i + 1) =~= seen.push(b@));
        let mut p: usize = 0;
        let mut same = false;
        while p < out.len()
            invariant_except_break
                !same,
            invariant
                p <= out.len(),
                out.deep_view() == before,
                kb@ == key(b@, all),
                forall|q: int| 0 <= q < p ==> lex_lt(#[trigger] key(before[q], all), kb@),
            ensures
                same ==> p < out.len() && key(before[p as int], all) == kb@,
                !same && p < out.len() ==> lex_lt(kb@, key(before[p as int], all)),
            decreases out.len() - p,
        {
            let kp = key_of(&out[p], all);
            assert(kp@ == key(before[p as int], all));
            match order(&kb, &kp) {
                Order::Same => {
                    same = true;
                    break ;
                },
                Order::Before => {
                    break ;
                },
                Order::After => {
                    p += 1;
                },
            }
        }
        if same {
            proof {
                lemma_enter_known(seen, all, before, b@, p as int);
            }
            if all {
                out.set(p, b);
                assert(out.deep_view() =~= before.update(p as int, b@));
            }
        } else {
            proof {
                lemma_enter_new(seen, all, before, b@, p as int);
            }
            out.insert(p, b);
            assert(out.deep_view() =~= before.insert(p as int, b@));
        }
        i += 1;
    }
    assert(found.deep_view().take(found.deep_view().len() as int) =~= found.deep_view());
    out
}

} // verus!
