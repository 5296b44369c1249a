//! The cross-pack catalog: device and board rows collected from many
//! packages, merged over what an earlier run left on disk so that entries
//! from packs not present in this run survive.

use vstd::prelude::*;

use crate::assoc::{assoc_has_key, assoc_insert, assoc_lookup, assoc_merge, assoc_missing,
    lemma_assoc_merge_lookup};
use crate::pdsc::{spec_make_dump_devices, Board, BoardV, DumpDevice, DumpDeviceV, Package};

verus! {

pub open spec fn dview(v: Seq<(String, DumpDevice)>) -> Seq<(Seq<char>, DumpDeviceV)> {
    v.map_values(|p: (String, DumpDevice)| (p.0@, p.1@))
}

pub open spec fn bview(v: Seq<(String, Board)>) -> Seq<(Seq<char>, BoardV)> {
    v.map_values(|p: (String, Board)| (p.0@, p.1@))
}

/// Inserting a package's rows into the collection in order; a later row
/// under a known name overwrites.
pub open spec fn spec_insert_rows(
    acc: Seq<(Seq<char>, DumpDeviceV)>,
    rows: Seq<(Seq<char>, DumpDeviceV)>,
) -> Seq<(Seq<char>, DumpDeviceV)>
    decreases rows.len(),
{
    if rows.len() == 0 {
        acc
    } else {
        spec_insert_rows(assoc_insert(acc, rows[0].0, rows[0].1), rows.drop_first())
    }
}

/// The devices of many packages collected into one table, package by
/// package in order.
pub open spec fn spec_collect_devices(
    acc: Seq<(Seq<char>, DumpDeviceV)>,
    pkgs: Seq<crate::pdsc::PackageV>,
) -> Seq<(Seq<char>, DumpDeviceV)>
    decreases pkgs.len(),
{
    if pkgs.len() == 0 {
        acc
    } else {
        spec_collect_devices(
            spec_insert_rows(acc, spec_make_dump_devices(pkgs[0])),
            pkgs.drop_first(),
        )
    }
}

/// Inserts one row, overwriting the entry of the same name.
fn insert_row(table: &mut Vec<(String, DumpDevice)>, name: String, d: DumpDevice)
    ensures
        dview(final(table)@) == assoc_insert(dview(old(table)@), name@, d@),
{
    let ghost tv = dview(table@);
    let n = table.len();
    let mut i: usize = 0;
    while i < n
        invariant
            0 <= i <= n == table@.len(),
            forall|j: int| 0 <= j < i ==> tv[j].0 != name@,
            table@ == old(table)@,
            tv == dview(table@),
        decreases n - i,
    {
        if crate::numbers::str_eq(table[i].0.as_str(), name.as_str()) {
            assert(tv[i as int].0 == name@);
            let ghost nv = name@;
            let ghost dv = d@;
            table[i] = (name, d);
            proof {
                crate::assoc::lemma_assoc_insert_found(tv, nv, dv, i as int);
                assert(dview(table@) =~= tv.update(i as int, (nv, dv)));
            }
            return ;
        }
        i = i + 1;
    }
    proof {
        crate::assoc::lemma_assoc_insert_new(tv, name@, d@);
    }
    let ghost nv = name@;
    let ghost dv = d@;
    table.push((name, d));
    assert(dview(table@) =~= tv.push((nv, dv)));
}

/// Collects every device of every package into one name-keyed table, in
/// package order, a later package overwriting an earlier one's entry of
/// the same name. Every package must have a release for its provenance.
pub fn collect_devices(pkgs: &Vec<Package>) -> (r: Vec<(String, DumpDevice)>)
    requires
        forall|i: int| 0 <= i < pkgs@.len() ==> (#[trigger] pkgs@[i])@.releases.len() > 0,
    ensures
        dview(r@) == spec_collect_devices(
            Seq::empty(),
            pkgs@.map_values(|p: Package| p@),
        ),
{
    let ghost pv = pkgs@.map_values(|p: Package| p@);
    let n = pkgs.len();
    let mut out: Vec<(String, DumpDevice)> = Vec::new();
    let mut k: usize = 0;
    proof {
        assert(pv.skip(0) =~= pv);
        assert(dview(out@) =~= Seq::<(Seq<char>, DumpDeviceV)>::empty());
    }
    while k < n
        invariant
            0 <= k <= n == pkgs@.len(),
            pv == pkgs@.map_values(|p: Package| p@),
            forall|i: int| 0 <= i < pkgs@.len() ==> (#[trigger] pkgs@[i])@.releases.len() > 0,
            spec_collect_devices(dview(out@), pv.skip(k as int)) == spec_collect_devices(
                Seq::empty(),
                pv,
            ),
        decreases n - k,
    {
        let ghost pre = pv.skip(k as int);
        assert(pre[0] == pv[k as int]);
        assert(pre.drop_first() =~= pv.skip(k as int + 1));
        let rows = pkgs[k].make_dump_devices();
        let ghost rv = rows@.map_values(|p: (String, DumpDevice)| (p.0@, p.1@));
        let rn = rows.len();
        let mut m: usize = 0;
        let ghost at_entry = dview(out@);
        proof {
            assert(rv.skip(0) =~= rv);
        }
        while m < rn
            invariant
                0 <= m <= rn == rows@.len(),
                rv == rows@.map_values(|p: (String, DumpDevice)| (p.0@, p.1@)),
                spec_insert_rows(dview(out@), rv.skip(m as int)) == spec_insert_rows(
                    at_entry,
                    rv,
                ),
            decreases rn - m,
        {
            let ghost ipre = rv.skip(m as int);
            assert(ipre[0] == rv[m as int]);
            assert(ipre.drop_first() =~= rv.skip(m as int + 1));
            let name = rows[m].0.clone();
            let d = rows[m].1.clone();
            assert((name@, d@) == rv[m as int]);
            insert_row(&mut out, name, d);
            m = m + 1;
        }
        proof {
            assert(rv.skip(rn as int) =~= Seq::<(Seq<char>, DumpDeviceV)>::empty());
        }
        k = k + 1;
    }
    proof {
        assert(pv.skip(n as int) =~= Seq::<crate::pdsc::PackageV>::empty());
    }
    out
}

/// Merges the freshly collected rows over what an earlier run wrote: a
/// fresh row wins over a stored one of the same name, and every stored row
/// whose name is absent from this run survives.
pub fn merge_catalog(
    fresh: Vec<(String, DumpDevice)>,
    stored: &Vec<(String, DumpDevice)>,
) -> (r: Vec<(String, DumpDevice)>)
    ensures
        dview(r@) == assoc_merge(dview(fresh@), dview(stored@)),
{
    let ghost l = dview(fresh@);
    let ghost rv = dview(stored@);
    let mut added: Vec<(String, DumpDevice)> = Vec::new();
    let n = stored.len();
    let mut k: usize = 0;
    assert(rv.skip(0) =~= rv);
    while k < n
        invariant
            added@.map_values(|p: (String, DumpDevice)| (p.0@, p.1@)) + assoc_missing(
                l,
                rv.skip(k as int),
            ) == assoc_missing(l, rv),
            0 <= k <= n == stored@.len(),
            rv == dview(stored@),
            l == dview(fresh@),
        decreases n - k,
    {
        let ghost pre = rv.skip(k as int);
        assert(pre[0] == rv[k as int]);
        assert(pre.drop_first() =~= rv.skip(k as int + 1));
        let key = stored[k].0.clone();
        let d = stored[k].1.clone();
        assert((key@, d@) == rv[k as int]);
        if !has_name(&fresh, key.as_str()) {
            added.push((key, d));
            proof {
                assert(added@.map_values(|p: (String, DumpDevice)| (p.0@, p.1@)) + assoc_missing(
                    l,
                    rv.skip(k as int + 1),
                ) =~= assoc_missing(l, rv));
            }
        }
        k = k + 1;
    }
    assert(rv.skip(n as int) =~= Seq::<(Seq<char>, DumpDeviceV)>::empty());
    let mut out = fresh;
    let mut added = added;
    out.append(&mut added);
    proof {
        assert(dview(out@) =~= assoc_merge(l, rv));
    }
    out
}

/// Whether the table holds a row under the name.
fn has_name(v: &Vec<(String, DumpDevice)>, name: &str) -> (r: bool)
    ensures
        r == assoc_has_key(dview(v@), name@),
{
    let n = v.len();
    let mut i: usize = 0;
    while i < n
        invariant
            0 <= i <= n == v@.len(),
            forall|j: int| 0 <= j < i ==> dview(v@)[j].0 != name@,
        decreases n - i,
    {
        if crate::numbers::str_eq(v[i].0.as_str(), name) {
            assert(dview(v@)[i as int].0 == name@);
            return true;
        }
        i = i + 1;
    }
    false
}

/// A stored row survives a merge unless this run wrote the same name, and
/// every fresh row stands: what the merged catalog answers for any name.
pub proof fn lemma_catalog_merge_preserves(
    fresh: Seq<(Seq<char>, DumpDeviceV)>,
    stored: Seq<(Seq<char>, DumpDeviceV)>,
    name: Seq<char>,
)
    ensures
        assoc_lookup(assoc_merge(fresh, stored), name) == if assoc_has_key(fresh, name) {
            assoc_lookup(fresh, name)
        } else {
            assoc_lookup(stored, name)
        },
        assoc_has_key(assoc_merge(fresh, stored), name) <==> assoc_has_key(fresh, name)
            || assoc_has_key(stored, name),
{
    lemma_assoc_merge_lookup(fresh, stored, name);
}

/// Writing the same rows twice changes nothing: merging a catalog over
/// itself returns it unchanged.
pub proof fn lemma_catalog_merge_idempotent(rows: Seq<(Seq<char>, DumpDeviceV)>)
    ensures
        assoc_merge(rows, rows) == rows,
{
    lemma_missing_subsumed(rows, rows);
    assert(assoc_merge(rows, rows) =~= rows);
}

/// Nothing is missing from a table that already holds every key.
proof fn lemma_missing_subsumed(
    l: Seq<(Seq<char>, DumpDeviceV)>,
    r: Seq<(Seq<char>, DumpDeviceV)>,
)
    requires
        forall|i: int| 0 <= i < r.len() ==> assoc_has_key(l, (#[trigger] r[i]).0),
    ensures
        assoc_missing(l, r) == Seq::<(Seq<char>, DumpDeviceV)>::empty(),
    decreases r.len(),
{
    if r.len() > 0 {
        assert(assoc_has_key(l, r[0].0));
        assert forall|i: int|
            0 <= i < r.drop_first().len() implies assoc_has_key(
            l,
            (#[trigger] r.drop_first()[i]).0,
        ) by {
            assert(r.drop_first()[i] == r[i + 1]);
        }
        lemma_missing_subsumed(l, r.drop_first());
    }
}

/// Inserting one package's board rows in order; a later row under a
/// known name overwrites.
pub open spec fn spec_insert_boards(
    acc: Seq<(Seq<char>, BoardV)>,
    rows: Seq<BoardV>,
) -> Seq<(Seq<char>, BoardV)>
    decreases rows.len(),
{
    if rows.len() == 0 {
        acc
    } else {
        spec_insert_boards(assoc_insert(acc, rows[0].name, rows[0]), rows.drop_first())
    }
}

/// The boards of many packages collected into one table, package by
/// package in order.
pub open spec fn spec_collect_boards(
    acc: Seq<(Seq<char>, BoardV)>,
    pkgs: Seq<crate::pdsc::PackageV>,
) -> Seq<(Seq<char>, BoardV)>
    decreases pkgs.len(),
{
    if pkgs.len() == 0 {
        acc
    } else {
        spec_collect_boards(spec_insert_boards(acc, pkgs[0].boards), pkgs.drop_first())
    }
}

/// Collects every board of every package, keyed by board name, a later
/// package overwriting an earlier one's entry of the same name.
pub fn collect_boards(pkgs: &Vec<Package>) -> (r: Vec<(String, Board)>)
    ensures
        bview(r@) == spec_collect_boards(Seq::empty(), pkgs@.map_values(|p: Package| p@)),
{
    let ghost pv = pkgs@.map_values(|p: Package| p@);
    let n = pkgs.len();
    let mut out: Vec<(String, Board)> = Vec::new();
    let mut k: usize = 0;
    proof {
        assert(pv.skip(0) =~= pv);
        assert(bview(out@) =~= Seq::<(Seq<char>, BoardV)>::empty());
    }
    while k < n
        invariant
            0 <= k <= n == pkgs@.len(),
            pv == pkgs@.map_values(|p: Package| p@),
            spec_collect_boards(bview(out@), pv.skip(k as int)) == spec_collect_boards(
                Seq::empty(),
                pv,
            ),
        decreases n - k,
    {
        let ghost pre = pv.skip(k as int);
        assert(pre[0] == pv[k as int]);
        assert(pre.drop_first() =~= pv.skip(k as int + 1));
        let ghost rows = pv[k as int].boards;
        let bn = pkgs[k].boards.len();
        let mut m: usize = 0;
        let ghost at_entry = bview(out@);
        proof {
            assert(rows.skip(0) =~= rows);
        }
        while m < bn
            invariant
                0 <= m <= bn == pkgs@[k as int].boards@.len(),
                k < pkgs@.len(),
                pv == pkgs@.map_values(|p: Package| p@),
                rows == pv[k as int].boards,
                spec_insert_boards(bview(out@), rows.skip(m as int)) == spec_insert_boards(
                    at_entry,
                    rows,
                ),
            decreases bn - m,
        {
            let ghost ipre = rows.skip(m as int);
            assert(ipre[0] == rows[m as int]);
            assert(ipre.drop_first() =~= rows.skip(m as int + 1));
            let b = &pkgs[k].boards[m];
            assert(b@ == rows[m as int]);
            let name = b.name.clone();
            let copy = Board {
                name: b.name.clone(),
                mounted_devices: clone_strings(&b.mounted_devices),
            };
            assert(copy@ =~= rows[m as int]);
            insert_board(&mut out, name, copy);
            m = m + 1;
        }
        proof {
            assert(rows.skip(bn as int) =~= Seq::<BoardV>::empty());
        }
        k = k + 1;
    }
    proof {
        assert(pv.skip(n as int) =~= Seq::<crate::pdsc::PackageV>::empty());
    }
    out
}

/// A copy of a list of strings.
fn clone_strings(v: &Vec<String>) -> (r: Vec<String>)
    ensures
        r@.map_values(|s: String| s@) == v@.map_values(|s: String| s@),
{
    let n = v.len();
    let mut out: Vec<String> = Vec::new();
    let mut i: usize = 0;
    while i < n
        invariant
            0 <= i <= n == v@.len(),
            out@.len() == i,
            forall|j: int| 0 <= j < i ==> #[trigger] out@[j]@ == v@[j]@,
        decreases n - i,
    {
        out.push(v[i].clone());
        i = i + 1;
    }
    assert(out@.map_values(|s: String| s@) =~= v@.map_values(|s: String| s@));
    out
}

/// Inserts one board row, overwriting the entry of the same name.
fn insert_board(table: &mut Vec<(String, Board)>, name: String, b: Board)
    ensures
        bview(final(table)@) == assoc_insert(bview(old(table)@), name@, b@),
{
    let ghost tv = bview(table@);
    let n = table.len();
    let mut i: usize = 0;
    while i < n
        invariant
            0 <= i <= n == table@.len(),
            forall|j: int| 0 <= j < i ==> tv[j].0 != name@,
            table@ == old(table)@,
            tv == bview(table@),
        decreases n - i,
    {
        if crate::numbers::str_eq(table[i].0.as_str(), name.as_str()) {
            assert(tv[i as int].0 == name@);
            let ghost nv = name@;
            let ghost bv2 = b@;
            table[i] = (name, b);
            proof {
                crate::assoc::lemma_assoc_insert_found(tv, nv, bv2, i as int);
                assert(bview(table@) =~= tv.update(i as int, (nv, bv2)));
            }
            return ;
        }
        i = i + 1;
    }
    proof {
        crate::assoc::lemma_assoc_insert_new(tv, name@, b@);
    }
    let ghost nv = name@;
    let ghost bv2 = b@;
    table.push((name, b));
    assert(bview(table@) =~= tv.push((nv, bv2)));
}

/// Merges freshly collected board rows over stored ones, the fresh side
/// winning.
pub fn merge_boards(
    fresh: Vec<(String, Board)>,
    stored: &Vec<(String, Board)>,
) -> (r: Vec<(String, Board)>)
    ensures
        bview(r@) == assoc_merge(bview(fresh@), bview(stored@)),
{
    let ghost l = bview(fresh@);
    let ghost rv = bview(stored@);
    let mut added: Vec<(String, Board)> = Vec::new();
    let n = stored.len();
    let mut k: usize = 0;
    assert(rv.skip(0) =~= rv);
    while k < n
        invariant
            added@.map_values(|p: (String, Board)| (p.0@, p.1@)) + assoc_missing(
                l,
                rv.skip(k as int),
            ) == assoc_missing(l, rv),
            0 <= k <= n == stored@.len(),
            rv == bview(stored@),
            l == bview(fresh@),
        decreases n - k,
    {
        let ghost pre = rv.skip(k as int);
        assert(pre[0] == rv[k as int]);
        assert(pre.drop_first() =~= rv.skip(k as int + 1));
        let key = stored[k].0.clone();
        let b = &stored[k].1;
        let copy = Board { name: b.name.clone(), mounted_devices: clone_strings(
            &b.mounted_devices,
        ) };
        assert(copy@ == rv[k as int].1);
        if !board_has_name(&fresh, key.as_str()) {
            assert(key@ == rv[k as int].0);
            added.push((key, copy));
            proof {
                assert(added@.map_values(|p: (String, Board)| (p.0@, p.1@)) + assoc_missing(
                    l,
                    rv.skip(k as int + 1),
                ) =~= assoc_missing(l, rv));
            }
        }
        k = k + 1;
    }
    assert(rv.skip(n as int) =~= Seq::<(Seq<char>, BoardV)>::empty());
    let mut out = fresh;
    let mut added = added;
    out.append(&mut added);
    proof {
        assert(bview(out@) =~= assoc_merge(l, rv));
    }
    out
}

/// Whether the board table holds a row under the name.
fn board_has_name(v: &Vec<(String, Board)>, name: &str) -> (r: bool)
    ensures
        r == assoc_has_key(bview(v@), name@),
{
    let n = v.len();
    let mut i: usize = 0;
    while i < n
        invariant
            0 <= i <= n == v@.len(),
            forall|j: int| 0 <= j < i ==> bview(v@)[j].0 != name@,
        decreases n - i,
    {
        if crate::numbers::str_eq(v[i].0.as_str(), name) {
            assert(bview(v@)[i as int].0 == name@);
            return true;
        }
        i = i + 1;
    }
    false
}

} // verus!
