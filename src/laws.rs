use vstd::prelude::*;
use crate::fs::{is_first_match, lookup, names_of, read_len, written, EasyFileSystem};

verus! {

/// After `create(name)` has appended `(name, id)` to a directory that held no entry
/// `name`, looking `name` up finds `id`, and every other name is found as before;
/// in particular a name that was absent stays absent.
pub proof fn lemma_create_then_find(
    es: Seq<(Seq<char>, u32)>,
    name: Seq<char>,
    id: u32,
    other: Seq<char>,
)
    requires
        lookup(es, name).is_none(),
    ensures
        lookup(es.push((name, id)), name) == Some(id),
        other != name ==> lookup(es.push((name, id)), other) == lookup(es, other),
{
    let es2 = es.push((name, id));
    let n = es.len() as int;
    assert(forall|k: int| 0 <= k < n ==> es[k].0 != name) by {
        assert forall|k: int| 0 <= k < n implies es[k].0 != name by {
            if es[k].0 == name {
                assert(exists|j: int| 0 <= j <= k && es[j].0 == name);
                lemma_first_exists(es, name, k);
            }
        }
    }
    assert(is_first_match(es2, name, n));
    let j = choose|j: int| is_first_match(es2, name, j);
    crate::fs::lemma_first_match_unique(es2, name, n, j);
    if other != name {
        if exists|i: int| is_first_match(es, other, i) {
            let i = choose|i: int| is_first_match(es, other, i);
            assert(is_first_match(es2, other, i));
            let j2 = choose|j: int| is_first_match(es2, other, j);
            crate::fs::lemma_first_match_unique(es2, other, i, j2);
        } else {
            if exists|i: int| is_first_match(es2, other, i) {
                let i = choose|i: int| is_first_match(es2, other, i);
                assert(es2[n].0 == name);
                assert(i != n);
                assert(forall|k: int| 0 <= k < i ==> es2[k] == es[k]);
                assert(is_first_match(es, other, i));
            }
        }
    }
}

/// Where some entry is named `name`, a first such entry exists.
proof fn lemma_first_exists(es: Seq<(Seq<char>, u32)>, name: Seq<char>, k: int)
    requires
        0 <= k < es.len(),
        es[k].0 == name,
    ensures
        exists|i: int| is_first_match(es, name, i),
    decreases k,
{
    if forall|j: int| 0 <= j < k ==> es[j].0 != name {
        assert(is_first_match(es, name, k));
    } else {
        let j = choose|j: int| 0 <= j < k && es[j].0 == name;
        lemma_first_exists(es, name, j);
    }
}

/// Once `create(name)` has appended its entry, the name is taken: a second
/// `create(name)` in that directory finds it and returns no value.
pub proof fn lemma_create_twice(es: Seq<(Seq<char>, u32)>, name: Seq<char>, id: u32)
    ensures
        lookup(es.push((name, id)), name).is_some(),
{
    let es2 = es.push((name, id));
    lemma_first_exists(es2, name, es.len() as int);
}

/// Writing `b` at offset 0 and then reading `b.len()` bytes at offset 0 copies
/// exactly `b`; no read copies more bytes than it asks for.
pub proof fn lemma_write_then_read(data: Seq<u8>, b: Seq<u8>, size: int, offset: int, want: int)
    requires
        0 <= want,
    ensures
        read_len(written(data, 0, b).len() as int, 0, b.len() as int) == b.len(),
        written(data, 0, b).subrange(0, b.len() as int) == b,
        read_len(size, offset, want) <= want,
{
    assert(written(data, 0, b).subrange(0, b.len() as int) =~= b);
}

/// Writing past the end leaves the gap between the old end and the write's offset
/// reading as zero bytes.
pub proof fn lemma_sparse_write_zero_fill(data: Seq<u8>, offset: int, b: Seq<u8>)
    requires
        offset > data.len(),
    ensures
        forall|k: int| data.len() <= k < offset ==> written(data, offset, b)[k] == 0u8,
        written(data, offset, b).len() == offset + b.len(),
{
}

/// An inode id that is free again can be taken by a later `create`: the
/// filesystem has a free id, the least of which is no greater than it.
pub proof fn lemma_freed_id_reusable(fs: &EasyFileSystem, id: u32)
    requires
        fs.wf(),
        fs.valid_id(id),
        !fs.used(id),
    ensures
        fs.has_free(),
        exists|k: u32| k <= id && fs.is_least_free(k),
{
    lemma_least_free_exists(fs, id);
}

proof fn lemma_least_free_exists(fs: &EasyFileSystem, id: u32)
    requires
        fs.wf(),
        fs.valid_id(id),
        !fs.used(id),
    ensures
        exists|k: u32| k <= id && fs.is_least_free(k),
    decreases id,
{
    if forall|j: int| 0 <= j < id ==> fs.inode_bitmap@[j] {
        assert(fs.is_least_free(id));
    } else {
        let j = choose|j: int| 0 <= j < id && !fs.inode_bitmap@[j];
        lemma_least_free_exists(fs, j as u32);
    }
}

/// Appending entries `a` and then `b` lists their names after the old ones, in
/// that order, whatever the names are.
pub proof fn lemma_listing_order(
    es: Seq<(Seq<char>, u32)>,
    a: Seq<char>,
    ida: u32,
    b: Seq<char>,
    idb: u32,
)
    ensures
        names_of(es.push((a, ida)).push((b, idb))) == names_of(es).push(a).push(b),
{
    assert(names_of(es.push((a, ida)).push((b, idb))) =~= names_of(es).push(a).push(b));
}

} // verus!
