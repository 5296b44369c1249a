//! The algebra of name-keyed tables used throughout the library: memory
//! maps, device tables, and the on-disk catalog are association lists with
//! unique keys, merged so that the left (newer, or lower-level) side wins.

use vstd::prelude::*;

verus! {

/// Whether the table holds an entry under the key.
pub open spec fn assoc_has_key<V>(ms: Seq<(Seq<char>, V)>, k: Seq<char>) -> bool {
    exists|i: int| 0 <= i < ms.len() && ms[i].0 == k
}

/// The first entry under the key.
pub open spec fn assoc_lookup<V>(ms: Seq<(Seq<char>, V)>, k: Seq<char>) -> Option<V>
    decreases ms.len(),
{
    if ms.len() == 0 {
        None
    } else if ms[0].0 == k {
        Some(ms[0].1)
    } else {
        assoc_lookup(ms.drop_first(), k)
    }
}

/// Inserts under a key, replacing the first entry with that key in place,
/// or appending when the key is new.
pub open spec fn assoc_insert<V>(ms: Seq<(Seq<char>, V)>, k: Seq<char>, v: V) -> Seq<
    (Seq<char>, V),
>
    decreases ms.len(),
{
    if ms.len() == 0 {
        seq![(k, v)]
    } else if ms[0].0 == k {
        seq![(k, v)] + ms.drop_first()
    } else {
        seq![ms[0]] + assoc_insert(ms.drop_first(), k, v)
    }
}

/// The entries of `r` whose keys are absent from `l`, in order.
pub open spec fn assoc_missing<V>(l: Seq<(Seq<char>, V)>, r: Seq<(Seq<char>, V)>) -> Seq<
    (Seq<char>, V),
>
    decreases r.len(),
{
    if r.len() == 0 {
        Seq::empty()
    } else {
        let rest = assoc_missing(l, r.drop_first());
        if assoc_has_key(l, r[0].0) {
            rest
        } else {
            seq![r[0]] + rest
        }
    }
}

/// The merge in which the left side wins: every entry of `l`, and those
/// entries of `r` whose keys `l` lacks.
pub open spec fn assoc_merge<V>(l: Seq<(Seq<char>, V)>, r: Seq<(Seq<char>, V)>) -> Seq<
    (Seq<char>, V),
> {
    l + assoc_missing(l, r)
}

pub proof fn lemma_assoc_insert_found<V>(ms: Seq<(Seq<char>, V)>, k: Seq<char>, v: V, i: int)
    requires
        0 <= i < ms.len(),
        ms[i].0 == k,
        forall|j: int| 0 <= j < i ==> ms[j].0 != k,
    ensures
        assoc_insert(ms, k, v) == ms.update(i, (k, v)),
    decreases i,
{
    if i == 0 {
        assert(assoc_insert(ms, k, v) =~= ms.update(0, (k, v)));
    } else {
        lemma_assoc_insert_found(ms.drop_first(), k, v, i - 1);
        assert(ms.drop_first().update(i - 1, (k, v)) =~= ms.update(i, (k, v)).drop_first());
        assert(assoc_insert(ms, k, v) =~= ms.update(i, (k, v)));
    }
}

pub proof fn lemma_assoc_insert_new<V>(ms: Seq<(Seq<char>, V)>, k: Seq<char>, v: V)
    requires
        forall|j: int| 0 <= j < ms.len() ==> ms[j].0 != k,
    ensures
        assoc_insert(ms, k, v) == ms.push((k, v)),
    decreases ms.len(),
{
    if ms.len() == 0 {
        assert(assoc_insert(ms, k, v) =~= ms.push((k, v)));
    } else {
        lemma_assoc_insert_new(ms.drop_first(), k, v);
        assert(assoc_insert(ms, k, v) =~= ms.push((k, v)));
    }
}

/// Looking a key up in a concatenation reads the left part first.
pub proof fn lemma_assoc_lookup_concat<V>(
    l: Seq<(Seq<char>, V)>,
    m: Seq<(Seq<char>, V)>,
    k: Seq<char>,
)
    ensures
        assoc_lookup(l + m, k) == if assoc_has_key(l, k) {
            assoc_lookup(l, k)
        } else {
            assoc_lookup(m, k)
        },
    decreases l.len(),
{
    if l.len() == 0 {
        assert(l + m =~= m);
    } else {
        assert((l + m)[0] == l[0]);
        if l[0].0 == k {
        } else {
            assert((l + m).drop_first() =~= l.drop_first() + m);
            lemma_assoc_lookup_concat(l.drop_first(), m, k);
            assert(assoc_has_key(l, k) <==> assoc_has_key(l.drop_first(), k)) by {
                if assoc_has_key(l, k) {
                    let i = choose|i: int| 0 <= i < l.len() && l[i].0 == k;
                    assert(l.drop_first()[i - 1].0 == k);
                }
                if assoc_has_key(l.drop_first(), k) {
                    let i = choose|i: int| 0 <= i < l.drop_first().len() && l.drop_first()[i].0
                        == k;
                    assert(l[i + 1].0 == k);
                }
            }
        }
    }
}

/// The keys the missing-part carries are exactly those of `r` absent from
/// `l`, and their values are `r`'s.
pub proof fn lemma_assoc_missing_lookup<V>(
    l: Seq<(Seq<char>, V)>,
    r: Seq<(Seq<char>, V)>,
    k: Seq<char>,
)
    requires
        !assoc_has_key(l, k),
    ensures
        assoc_lookup(assoc_missing(l, r), k) == assoc_lookup(r, k),
        assoc_has_key(assoc_missing(l, r), k) <==> assoc_has_key(r, k),
    decreases r.len(),
{
    if r.len() == 0 {
        assert(!assoc_has_key(assoc_missing(l, r), k));
        assert(!assoc_has_key(r, k));
    } else {
        lemma_assoc_missing_lookup(l, r.drop_first(), k);
        let rest = assoc_missing(l, r.drop_first());
        if assoc_has_key(l, r[0].0) {
            assert(r[0].0 != k);
            assert(assoc_lookup(r, k) == assoc_lookup(r.drop_first(), k));
            assert(assoc_has_key(r, k) <==> assoc_has_key(r.drop_first(), k)) by {
                if assoc_has_key(r, k) {
                    let i = choose|i: int| 0 <= i < r.len() && r[i].0 == k;
                    assert(r.drop_first()[i - 1].0 == k);
                }
                if assoc_has_key(r.drop_first(), k) {
                    let i = choose|i: int|
                        0 <= i < r.drop_first().len() && r.drop_first()[i].0 == k;
                    assert(r[i + 1].0 == k);
                }
            }
        } else {
            assert(assoc_missing(l, r) =~= seq![r[0]] + rest);
            assert((seq![r[0]] + rest)[0] == r[0]);
            if r[0].0 == k {
                assert(assoc_lookup(assoc_missing(l, r), k) == Some(r[0].1));
                assert(assoc_has_key(assoc_missing(l, r), k));
            } else {
                assert((seq![r[0]] + rest).drop_first() =~= rest);
                assert(assoc_lookup(r, k) == assoc_lookup(r.drop_first(), k));
                assert(assoc_has_key(assoc_missing(l, r), k) <==> assoc_has_key(rest, k)) by {
                    let mr = assoc_missing(l, r);
                    if assoc_has_key(mr, k) {
                        let i = choose|i: int| 0 <= i < mr.len() && mr[i].0 == k;
                        assert(i != 0);
                        assert(rest[i - 1].0 == k);
                    }
                    if assoc_has_key(rest, k) {
                        let i = choose|i: int| 0 <= i < rest.len() && rest[i].0 == k;
                        assert(mr[i + 1].0 == k);
                    }
                }
                assert(assoc_has_key(r, k) <==> assoc_has_key(r.drop_first(), k)) by {
                    if assoc_has_key(r, k) {
                        let i = choose|i: int| 0 <= i < r.len() && r[i].0 == k;
                        assert(r.drop_first()[i - 1].0 == k);
                    }
                    if assoc_has_key(r.drop_first(), k) {
                        let i = choose|i: int|
                            0 <= i < r.drop_first().len() && r.drop_first()[i].0 == k;
                        assert(r[i + 1].0 == k);
                    }
                }
            }
        }
    }
}

/// What a merged table answers: a key of the left side answers with the
/// left value, any other with the right side's answer.
pub proof fn lemma_assoc_merge_lookup<V>(
    l: Seq<(Seq<char>, V)>,
    r: Seq<(Seq<char>, V)>,
    k: Seq<char>,
)
    ensures
        assoc_lookup(assoc_merge(l, r), k) == if assoc_has_key(l, k) {
            assoc_lookup(l, k)
        } else {
            assoc_lookup(r, k)
        },
        assoc_has_key(assoc_merge(l, r), k) <==> assoc_has_key(l, k) || assoc_has_key(r, k),
{
    lemma_assoc_lookup_concat(l, assoc_missing(l, r), k);
    if !assoc_has_key(l, k) {
        lemma_assoc_missing_lookup(l, r, k);
    }
    assert(assoc_has_key(assoc_merge(l, r), k) <==> assoc_has_key(l, k) || assoc_has_key(
        assoc_missing(l, r),
        k,
    )) by {
        let mg = assoc_merge(l, r);
        let ms = assoc_missing(l, r);
        if assoc_has_key(mg, k) {
            let i = choose|i: int| 0 <= i < mg.len() && mg[i].0 == k;
            if i < l.len() {
                assert(l[i].0 == k);
            } else {
                assert(ms[i - l.len()].0 == k);
            }
        }
        if assoc_has_key(l, k) {
            let i = choose|i: int| 0 <= i < l.len() && l[i].0 == k;
            assert(mg[i].0 == k);
        }
        if assoc_has_key(ms, k) {
            let i = choose|i: int| 0 <= i < ms.len() && ms[i].0 == k;
            assert(mg[l.len() + i].0 == k);
        }
    }
    if !assoc_has_key(l, k) {
        lemma_assoc_missing_lookup(l, r, k);
    }
}

} // verus!
