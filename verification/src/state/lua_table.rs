//! Tables: an array part for the keys 1, 2, 3 and so on, and a hash part
//! for every other key.
use vstd::prelude::*;
use crate::error::LuaError;
use crate::number::float::{float_to_integer, is_nan, spec_float_to_integer, spec_is_nan};
use crate::state::lua_value::{vals, LuaValue, Val};

verus! {

/// A key with its value in the hash part.
#[derive(Debug, Clone)]
pub struct Entry {
    pub key: LuaValue,
    pub val: LuaValue,
}

/// A table. The array part holds the values of the keys 1 to its length.
/// The hash part is a list of entries with distinct keys.
#[derive(Debug, Clone)]
pub struct LuaTable {
    pub arr: Vec<LuaValue>,
    pub map: Vec<Entry>,
}

/// A table, as a mathematical value.
pub struct TableView {
    pub arr: Seq<Val>,
    pub map: Map<Val, Val>,
}

/// May `k` be a key: it is not nil and no NaN.
pub open spec fn is_key(k: Val) -> bool {
    match k {
        Val::Nil => false,
        Val::Number(n) => !spec_is_nan(n),
        _ => true,
    }
}

/// The key under which `k` is filed: a float that stands for an integer is
/// filed under that integer, so that both find the same slot.
pub open spec fn norm_key(k: Val) -> Val {
    match k {
        Val::Number(n) => match spec_float_to_integer(n) {
            Some(i) => Val::Integer(i),
            None => k,
        },
        _ => k,
    }
}

/// Is the key of some entry `k`?
pub open spec fn has_key(e: Seq<Entry>, k: Val) -> bool {
    exists|i: int| 0 <= i < e.len() && (#[trigger] e[i]).key@ == k
}

/// The place of an entry whose key is `k`.
pub open spec fn key_index(e: Seq<Entry>, k: Val) -> int {
    choose|i: int| 0 <= i < e.len() && (#[trigger] e[i]).key@ == k
}

/// No two entries have the same key.
pub open spec fn distinct_keys(e: Seq<Entry>) -> bool {
    forall|i: int, j: int| 0 <= i < j < e.len() ==> (#[trigger] e[i]).key@ != (#[trigger] e[j]).key@
}

/// The map that a list of entries stands for.
pub open spec fn entries_map(e: Seq<Entry>) -> Map<Val, Val> {
    Map::new(|k: Val| has_key(e, k), |k: Val| e[key_index(e, k)].val@)
}

/// The array part without the nils at its end.
pub open spec fn shrink(arr: Seq<Val>) -> Seq<Val>
    decreases arr.len(),
{
    if arr.len() > 0 && arr.last() == Val::Nil {
        shrink(arr.drop_last())
    } else {
        arr
    }
}

impl TableView {
    /// What holds of every table: the hash part holds no nil value and no
    /// key that is nil, a NaN, or a float that stands for an integer; it
    /// holds none of the integers from 1 to one past the length of the array
    /// part; and the array part does not end in nil.
    pub open spec fn wf(self) -> bool {
        &&& forall|k: Val| #[trigger]
            self.map.contains_key(k) ==> is_key(k) && norm_key(k) == k && self.map[k] != Val::Nil
        &&& forall|i: i64|
            1 <= i <= self.arr.len() + 1 ==> !#[trigger] self.map.contains_key(Val::Integer(i))
        &&& (self.arr.len() > 0 ==> self.arr.last() != Val::Nil)
    }

    /// The length of the table: that of its array part.
    pub open spec fn len(self) -> nat {
        self.arr.len()
    }

    /// The table that holds nothing.
    pub open spec fn empty() -> TableView {
        TableView { arr: Seq::empty(), map: Map::empty() }
    }

    /// The table with another hash part.
    pub open spec fn with_map(self, map: Map<Val, Val>) -> TableView {
        TableView { arr: self.arr, map }
    }

    /// Is `nk` an integer from 1 to one past the length of the array part?
    pub open spec fn near_array(self, nk: Val) -> bool {
        match nk {
            Val::Integer(i) => 1 <= i <= self.arr.len() + 1,
            _ => false,
        }
    }

    /// The value under `k`: that of the array part where `k` stands for one
    /// of its positions, else that of the hash part; nil where there is none.
    pub open spec fn get(self, k: Val) -> Val {
        match norm_key(k) {
            Val::Integer(i) if 1 <= i <= self.arr.len() => self.arr[i - 1],
            nk => if self.map.contains_key(nk) {
                self.map[nk]
            } else {
                Val::Nil
            },
        }
    }

    /// The table after the values of the keys that follow the array part
    /// have moved from the hash part to the end of the array part, one by
    /// one, up to the first key that the hash part does not hold.
    pub open spec fn expand(self) -> TableView
        decreases i64::MAX - self.arr.len(),
    {
        let next = Val::Integer((self.arr.len() + 1) as i64);
        if self.arr.len() < i64::MAX && self.map.contains_key(next) {
            TableView { arr: self.arr.push(self.map[next]), map: self.map.remove(next) }.expand()
        } else {
            self
        }
    }

    /// The table after `v` was put under `k`, which is a key. A nil value
    /// takes the key out.
    pub open spec fn put(self, k: Val, v: Val) -> TableView {
        let nk = norm_key(k);
        match nk {
            Val::Integer(i) if 1 <= i <= self.arr.len() => {
                let arr = self.arr.update(i - 1, v);
                if i == self.arr.len() && v == Val::Nil {
                    TableView { arr: shrink(arr), map: self.map }
                } else {
                    TableView { arr, map: self.map }
                }
            },
            Val::Integer(i) if i == self.arr.len() + 1 => {
                if v == Val::Nil {
                    TableView { arr: self.arr, map: self.map.remove(nk) }
                } else {
                    TableView { arr: self.arr.push(v), map: self.map.remove(nk) }.expand()
                }
            },
            _ => if v == Val::Nil {
                TableView { arr: self.arr, map: self.map.remove(nk) }
            } else {
                TableView { arr: self.arr, map: self.map.insert(nk, v) }
            },
        }
    }
}

/// Shrinking leaves a prefix, which does not end in nil.
pub proof fn lemma_shrink(arr: Seq<Val>)
    ensures
        shrink(arr).len() <= arr.len(),
        shrink(arr) == arr.subrange(0, shrink(arr).len() as int),
        shrink(arr).len() > 0 ==> shrink(arr).last() != Val::Nil,
        forall|j: int| shrink(arr).len() <= j < arr.len() ==> arr[j] == Val::Nil,
    decreases arr.len(),
{
    if arr.len() > 0 && arr.last() == Val::Nil {
        lemma_shrink(arr.drop_last());
        let s = shrink(arr);
        assert(s =~= arr.subrange(0, s.len() as int));
        assert forall|j: int| s.len() <= j < arr.len() implies arr[j] == Val::Nil by {
            if j < arr.len() - 1 {
                assert(arr.drop_last()[j] == Val::Nil);
            }
        }
    } else {
        assert(arr =~= arr.subrange(0, arr.len() as int));
    }
}

/// Expanding keeps what the array part held, keeps the table well formed,
/// and changes the value under no key.
pub proof fn lemma_expand(t: TableView)
    requires
        forall|k: Val| #[trigger]
            t.map.contains_key(k) ==> is_key(k) && norm_key(k) == k && t.map[k] != Val::Nil,
        forall|i: i64| 1 <= i <= t.arr.len() ==> !#[trigger] t.map.contains_key(Val::Integer(i)),
        t.arr.len() > 0 ==> t.arr.last() != Val::Nil,
    ensures
        t.expand().wf(),
        t.expand().arr.len() >= t.arr.len(),
        t.expand().arr.subrange(0, t.arr.len() as int) == t.arr,
        forall|k: Val| t.expand().get(k) == t.get(k),
    decreases i64::MAX - t.arr.len(),
{
    let next = Val::Integer((t.arr.len() + 1) as i64);
    if t.arr.len() < i64::MAX && t.map.contains_key(next) {
        let u = TableView { arr: t.arr.push(t.map[next]), map: t.map.remove(next) };
        assert forall|i: i64| 1 <= i <= u.arr.len() implies !#[trigger] u.map.contains_key(
            Val::Integer(i),
        ) by {
            if i <= t.arr.len() {
                assert(!t.map.contains_key(Val::Integer(i)));
            }
        }
        lemma_expand(u);
        assert(t.expand().arr.subrange(0, t.arr.len() as int) =~= t.arr) by {
            assert(u.expand().arr.subrange(0, u.arr.len() as int) == u.arr);
            assert forall|j: int| 0 <= j < t.arr.len() implies t.expand().arr[j] == t.arr[j] by {
                assert(u.expand().arr.subrange(0, u.arr.len() as int)[j] == u.arr[j]);
            }
        }
        assert forall|k: Val| t.expand().get(k) == t.get(k) by {
            assert(u.expand().get(k) == u.get(k));
            let nk = norm_key(k);
            lemma_norm_key(k);
            if nk == next {
            } else {
                match nk {
                    Val::Integer(i) => {
                        if 1 <= i <= t.arr.len() {
                        } else {
                            assert(i != t.arr.len() + 1);
                        }
                    },
                    _ => {},
                }
            }
        }
    } else {
        assert(t.arr.subrange(0, t.arr.len() as int) =~= t.arr);
        assert forall|i: i64| 1 <= i <= t.arr.len() + 1 implies !#[trigger] t.map.contains_key(
            Val::Integer(i),
        ) by {
            if i <= t.arr.len() {
                assert(!t.map.contains_key(Val::Integer(i)));
            }
        }
    }
}

/// A key is filed under a key that is filed under itself.
pub proof fn lemma_norm_key(k: Val)
    ensures
        norm_key(norm_key(k)) == norm_key(k),
        is_key(k) ==> is_key(norm_key(k)),
        norm_key(k) == Val::Nil <==> k == Val::Nil,
{
}

/// Putting a value under a key leaves the table well formed.
pub proof fn lemma_put_wf(t: TableView, k: Val, v: Val)
    requires
        t.wf(),
        is_key(k),
    ensures
        t.put(k, v).wf(),
{
    let nk = norm_key(k);
    lemma_norm_key(k);
    match nk {
        Val::Integer(i) => {
            if 1 <= i <= t.arr.len() {
                let arr = t.arr.update(i - 1, v);
                if i == t.arr.len() && v == Val::Nil {
                    lemma_shrink(arr);
                    let r = TableView { arr: shrink(arr), map: t.map };
                    assert forall|j: i64| 1 <= j <= r.arr.len() + 1 implies !#[trigger] r.map.contains_key(
                        Val::Integer(j),
                    ) by {
                        assert(!t.map.contains_key(Val::Integer(j)));
                    }
                } else {
                    let r = TableView { arr, map: t.map };
                    assert forall|j: i64| 1 <= j <= r.arr.len() + 1 implies !#[trigger] r.map.contains_key(
                        Val::Integer(j),
                    ) by {
                        assert(!t.map.contains_key(Val::Integer(j)));
                    }
                }
            } else if i == t.arr.len() + 1 {
                if v == Val::Nil {
                    let r = TableView { arr: t.arr, map: t.map.remove(nk) };
                    assert forall|j: i64| 1 <= j <= r.arr.len() + 1 implies !#[trigger] r.map.contains_key(
                        Val::Integer(j),
                    ) by {
                        assert(!t.map.contains_key(Val::Integer(j)));
                    }
                } else {
                    let u = TableView { arr: t.arr.push(v), map: t.map.remove(nk) };
                    assert forall|j: i64| 1 <= j <= u.arr.len() implies !#[trigger] u.map.contains_key(
                        Val::Integer(j),
                    ) by {
                        if j <= t.arr.len() {
                            assert(!t.map.contains_key(Val::Integer(j)));
                        }
                    }
                    lemma_expand(u);
                }
            } else {
                lemma_put_hash_wf(t, nk, v);
            }
        },
        _ => {
            lemma_put_hash_wf(t, nk, v);
        },
    }
}

/// Putting a value into the hash part leaves the table well formed.
proof fn lemma_put_hash_wf(t: TableView, nk: Val, v: Val)
    requires
        t.wf(),
        is_key(nk),
        norm_key(nk) == nk,
        !t.near_array(nk),
    ensures
        v == Val::Nil ==> t.with_map(t.map.remove(nk)).wf(),
        v != Val::Nil ==> t.with_map(t.map.insert(nk, v)).wf(),
{
    if v == Val::Nil {
        let r = TableView { arr: t.arr, map: t.map.remove(nk) };
        assert forall|j: i64| 1 <= j <= r.arr.len() + 1 implies !#[trigger] r.map.contains_key(
            Val::Integer(j),
        ) by {
            assert(!t.map.contains_key(Val::Integer(j)));
        }
    } else {
        let r = TableView { arr: t.arr, map: t.map.insert(nk, v) };
        assert forall|j: i64| 1 <= j <= r.arr.len() + 1 implies !#[trigger] r.map.contains_key(
            Val::Integer(j),
        ) by {
            assert(!t.map.contains_key(Val::Integer(j)));
        }
    }
}

/// What was put under a key is what is found under it: the value, or nil
/// after a nil was put, which takes the key out.
pub proof fn lemma_put_get(t: TableView, k: Val, v: Val)
    requires
        t.wf(),
        is_key(k),
    ensures
        t.put(k, v).get(k) == v,
{
    let nk = norm_key(k);
    lemma_norm_key(k);
    match nk {
        Val::Integer(i) => {
            if 1 <= i <= t.arr.len() {
                let arr = t.arr.update(i - 1, v);
                if i == t.arr.len() && v == Val::Nil {
                    lemma_shrink(arr);
                    assert(shrink(arr).len() < i) by {
                        if shrink(arr).len() >= i {
                            assert(shrink(arr).last() == arr.subrange(0, shrink(arr).len() as int)[i - 1]);
                        }
                    }
                    assert(!t.map.contains_key(Val::Integer(i)));
                }
            } else if i == t.arr.len() + 1 {
                if v != Val::Nil {
                    let u = TableView { arr: t.arr.push(v), map: t.map.remove(nk) };
                    assert forall|j: i64| 1 <= j <= u.arr.len() implies !#[trigger] u.map.contains_key(
                        Val::Integer(j),
                    ) by {
                        if j <= t.arr.len() {
                            assert(!t.map.contains_key(Val::Integer(j)));
                        }
                    }
                    lemma_expand(u);
                    assert(u.expand().get(k) == u.get(k));
                }
            }
        },
        _ => {},
    }
}

/// Putting a value under a key changes the value under no other key.
pub proof fn lemma_put_keeps_other_keys(t: TableView, k: Val, v: Val, other: Val)
    requires
        t.wf(),
        is_key(k),
        norm_key(other) != norm_key(k),
    ensures
        t.put(k, v).get(other) == t.get(other),
{
    let nk = norm_key(k);
    let no = norm_key(other);
    lemma_norm_key(k);
    lemma_norm_key(other);
    match nk {
        Val::Integer(i) => {
            if 1 <= i <= t.arr.len() {
                let arr = t.arr.update(i - 1, v);
                if i == t.arr.len() && v == Val::Nil {
                    lemma_shrink(arr);
                    let r = shrink(arr);
                    match no {
                        Val::Integer(j) => {
                            if 1 <= j <= t.arr.len() {
                                assert(!t.map.contains_key(Val::Integer(j)));
                                if j <= r.len() {
                                    assert(r[j - 1] == arr.subrange(0, r.len() as int)[j - 1]);
                                } else {
                                    assert(arr[j - 1] == Val::Nil);
                                }
                            }
                        },
                        _ => {},
                    }
                }
            } else if i == t.arr.len() + 1 {
                if v != Val::Nil {
                    let u = TableView { arr: t.arr.push(v), map: t.map.remove(nk) };
                    assert forall|j: i64| 1 <= j <= u.arr.len() implies !#[trigger] u.map.contains_key(
                        Val::Integer(j),
                    ) by {
                        if j <= t.arr.len() {
                            assert(!t.map.contains_key(Val::Integer(j)));
                        }
                    }
                    lemma_expand(u);
                    assert(u.expand().get(other) == u.get(other));
                }
            }
        },
        _ => {},
    }
}

/// Where the array part holds the positions 1 to `l` and no nil among
/// them, the length of the table is `l`. It is then a border: the table
/// holds a value under each of the keys 1 to `l` and none under the next.
pub proof fn lemma_len_is_border(t: TableView, l: nat)
    requires
        t.wf(),
        t.arr.len() == l,
        forall|j: int| 0 <= j < l ==> t.arr[j] != Val::Nil,
        l < i64::MAX,
    ensures
        t.len() == l,
        forall|i: i64| 1 <= i <= l ==> #[trigger] t.get(Val::Integer(i)) != Val::Nil,
        t.get(Val::Integer((l + 1) as i64)) == Val::Nil,
{
    assert(!t.map.contains_key(Val::Integer((l + 1) as i64)));
}

/// An entry of a list with distinct keys is what the map holds under its key.
pub proof fn lemma_entries_at(e: Seq<Entry>, i: int)
    requires
        distinct_keys(e),
        0 <= i < e.len(),
    ensures
        entries_map(e).contains_key(e[i].key@),
        entries_map(e)[e[i].key@] == e[i].val@,
{
    let k = e[i].key@;
    assert(has_key(e, k));
    let j = key_index(e, k);
    assert(0 <= j < e.len() && e[j].key@ == k);
    if i < j {
        assert(e[i].key@ != e[j].key@);
    } else if j < i {
        assert(e[j].key@ != e[i].key@);
    }
}

/// An entry with a new key, added at the end, adds its key and value to the map.
pub proof fn lemma_entries_push(e: Seq<Entry>, x: Entry)
    requires
        distinct_keys(e),
        !has_key(e, x.key@),
    ensures
        distinct_keys(e.push(x)),
        entries_map(e.push(x)) == entries_map(e).insert(x.key@, x.val@),
{
    let f = e.push(x);
    assert forall|i: int, j: int| 0 <= i < j < f.len() implies (#[trigger] f[i]).key@ != (
    #[trigger] f[j]).key@ by {
        if j == e.len() {
            assert(f[i] == e[i]);
            if e[i].key@ == x.key@ {
                assert(has_key(e, x.key@));
            }
        } else {
            assert(f[i] == e[i] && f[j] == e[j]);
        }
    }
    assert forall|k: Val| entries_map(f).contains_key(k) <==> entries_map(e).insert(
        x.key@,
        x.val@,
    ).contains_key(k) by {
        if has_key(f, k) {
            let i = key_index(f, k);
            if i < e.len() {
                assert(f[i] == e[i]);
                assert(has_key(e, k));
            }
        }
        if has_key(e, k) {
            let i = key_index(e, k);
            assert(f[i] == e[i]);
            assert(has_key(f, k));
        }
        if k == x.key@ {
            assert(f[e.len() as int] == x);
            assert(has_key(f, k));
        }
    }
    assert forall|k: Val| entries_map(f).contains_key(k) implies entries_map(f)[k] == entries_map(
        e,
    ).insert(x.key@, x.val@)[k] by {
        let i = key_index(f, k);
        lemma_entries_at(f, i);
        if i < e.len() {
            assert(f[i] == e[i]);
            lemma_entries_at(e, i);
            if e[i].key@ == x.key@ {
                assert(has_key(e, x.key@));
            }
        }
    }
    assert(entries_map(f) =~= entries_map(e).insert(x.key@, x.val@));
}

/// Another value in an entry changes the value under its key in the map.
pub proof fn lemma_entries_update(e: Seq<Entry>, i: int, x: Entry)
    requires
        distinct_keys(e),
        0 <= i < e.len(),
        x.key@ == e[i].key@,
    ensures
        distinct_keys(e.update(i, x)),
        entries_map(e.update(i, x)) == entries_map(e).insert(x.key@, x.val@),
{
    let f = e.update(i, x);
    assert forall|a: int, b: int| 0 <= a < b < f.len() implies (#[trigger] f[a]).key@ != (
    #[trigger] f[b]).key@ by {
        assert(f[a].key@ == e[a].key@ && f[b].key@ == e[b].key@);
        assert(e[a].key@ != e[b].key@);
    }
    assert forall|k: Val| entries_map(f).contains_key(k) <==> entries_map(e).insert(
        x.key@,
        x.val@,
    ).contains_key(k) by {
        if has_key(f, k) {
            let j = key_index(f, k);
            assert(f[j].key@ == e[j].key@);
            assert(has_key(e, k));
        }
        if has_key(e, k) {
            let j = key_index(e, k);
            assert(f[j].key@ == e[j].key@);
            assert(has_key(f, k));
        }
        if k == x.key@ {
            assert(f[i].key@ == k);
            assert(has_key(f, k));
        }
    }
    assert forall|k: Val| entries_map(f).contains_key(k) implies entries_map(f)[k] == entries_map(
        e,
    ).insert(x.key@, x.val@)[k] by {
        let j = key_index(f, k);
        lemma_entries_at(f, j);
        if j != i {
            assert(f[j] == e[j]);
            lemma_entries_at(e, j);
            if j < i {
                assert(e[j].key@ != e[i].key@);
            } else {
                assert(e[i].key@ != e[j].key@);
            }
        }
    }
    assert(entries_map(f) =~= entries_map(e).insert(x.key@, x.val@));
}

/// Taking an entry out takes its key out of the map.
pub proof fn lemma_entries_remove(e: Seq<Entry>, i: int)
    requires
        distinct_keys(e),
        0 <= i < e.len(),
    ensures
        distinct_keys(e.remove(i)),
        entries_map(e.remove(i)) == entries_map(e).remove(e[i].key@),
{
    let f = e.remove(i);
    let at = |a: int|
        if a < i {
            a
        } else {
            a + 1
        };
    assert forall|a: int| 0 <= a < f.len() implies #[trigger] f[a] == e[at(a)] by {}
    assert forall|a: int, b: int| 0 <= a < b < f.len() implies (#[trigger] f[a]).key@ != (
    #[trigger] f[b]).key@ by {
        assert(f[a] == e[at(a)] && f[b] == e[at(b)]);
        assert(e[at(a)].key@ != e[at(b)].key@);
    }
    assert forall|k: Val| entries_map(f).contains_key(k) <==> entries_map(e).remove(
        e[i].key@,
    ).contains_key(k) by {
        if has_key(f, k) {
            let j = key_index(f, k);
            assert(f[j] == e[at(j)]);
            assert(has_key(e, k));
            if at(j) < i {
                assert(e[at(j)].key@ != e[i].key@);
            } else {
                assert(e[i].key@ != e[at(j)].key@);
            }
        }
        if has_key(e, k) && k != e[i].key@ {
            let j = key_index(e, k);
            if j < i {
                assert(f[j] == e[j]);
            } else {
                assert(f[j - 1] == e[j]);
            }
            assert(has_key(f, k));
        }
    }
    assert forall|k: Val| entries_map(f).contains_key(k) implies entries_map(f)[k] == entries_map(
        e,
    ).remove(e[i].key@)[k] by {
        let j = key_index(f, k);
        lemma_entries_at(f, j);
        assert(f[j] == e[at(j)]);
        lemma_entries_at(e, at(j));
    }
    assert(entries_map(f) =~= entries_map(e).remove(e[i].key@));
}

impl View for LuaTable {
    type V = TableView;

    open spec fn view(&self) -> TableView {
        TableView { arr: vals(self.arr@), map: entries_map(self.map@) }
    }
}

/// The most slots that a new table reserves when it is made.
pub const MAX_RESERVE: usize = 1024;

impl LuaTable {
    /// The entries have distinct keys, and the table that they stand for is
    /// well formed.
    pub open spec fn wf(&self) -> bool {
        distinct_keys(self.map@) && self@.wf()
    }

    /// An empty table. `narr` and `nrec` say how many values the array part
    /// and the hash part are expected to hold.
    pub fn new(narr: usize, nrec: usize) -> (r: Self)
        ensures
            r.wf(),
            r@ == TableView::empty(),
    {
        let narr = if narr > MAX_RESERVE {
            MAX_RESERVE
        } else {
            narr
        };
        let nrec = if nrec > MAX_RESERVE {
            MAX_RESERVE
        } else {
            nrec
        };
        let r = LuaTable { arr: Vec::with_capacity(narr), map: Vec::with_capacity(nrec) };
        assert(r@.map =~= Map::<Val, Val>::empty());
        assert(r@.arr =~= Seq::<Val>::empty());
        r
    }

    /// The length of the array part.
    pub fn len(&self) -> (r: usize)
        ensures
            r == self@.len(),
    {
        self.arr.len()
    }

    /// The place of the entry with the given key, if there is one.
    fn find(&self, key: &LuaValue) -> (r: Option<usize>)
        ensures
            match r {
                Some(i) => i < self.map.len() && self.map[i as int].key@ == key@,
                None => !has_key(self.map@, key@),
            },
    {
        let mut i: usize = 0;
        while i < self.map.len()
            invariant
                i <= self.map.len(),
                forall|j: int| 0 <= j < i ==> (#[trigger] self.map@[j]).key@ != key@,
            decreases self.map.len() - i,
        {
            if self.map[i].key.same(key) {
                return Some(i);
            }
            i += 1;
        }
        None
    }

    /// The value under `key`, or nil where there is none.
    pub fn get(&self, key: &LuaValue) -> (r: LuaValue)
        requires
            self.wf(),
        ensures
            r@ == self@.get(key@),
    {
        let nk = normal_key(key);
        match nk {
            LuaValue::Integer(i) => {
                if i >= 1 && i as u64 <= self.arr.len() as u64 {
                    return self.arr[(i - 1) as usize].duplicate();
                }
            },
            _ => {},
        }
        match self.find(&nk) {
            Some(j) => {
                proof {
                    lemma_entries_at(self.map@, j as int);
                }
                self.map[j].val.duplicate()
            },
            None => LuaValue::Nil,
        }
    }

    /// Takes the entry with the given key out of the hash part, if there is one.
    fn remove_key(&mut self, key: &LuaValue)
        requires
            distinct_keys(old(self).map@),
        ensures
            distinct_keys(final(self).map@),
            final(self).arr == old(self).arr,
            final(self)@.map == old(self)@.map.remove(key@),
            final(self).map.len() <= old(self).map.len(),
            old(self)@.map.contains_key(key@) ==> final(self).map.len() < old(self).map.len(),
    {
        match self.find(key) {
            Some(j) => {
                proof {
                    lemma_entries_remove(self.map@, j as int);
                    lemma_entries_at(self.map@, j as int);
                }
                self.map.remove(j);
            },
            None => {
                assert(self@.map.remove(key@) =~= self@.map);
            },
        }
    }

    /// Puts `val` under `key` in the hash part; a nil takes the key out.
    fn put_hash(&mut self, key: LuaValue, val: LuaValue)
        requires
            distinct_keys(old(self).map@),
        ensures
            distinct_keys(final(self).map@),
            final(self).arr == old(self).arr,
            val@ == Val::Nil ==> final(self)@.map == old(self)@.map.remove(key@),
            val@ != Val::Nil ==> final(self)@.map == old(self)@.map.insert(key@, val@),
    {
        if val.is_nil() {
            self.remove_key(&key);
        } else {
            match self.find(&key) {
                Some(j) => {
                    let ghost x = Entry { key: self.map[j as int].key, val };
                    proof {
                        lemma_entries_update(self.map@, j as int, x);
                    }
                    self.map[j].val = val;
                    assert(self.map@ =~= old(self).map@.update(j as int, x));
                },
                None => {
                    let x = Entry { key, val };
                    proof {
                        lemma_entries_push(self.map@, x);
                    }
                    self.map.push(x);
                },
            }
        }
    }

    /// Takes the nils off the end of the array part.
    fn shrink_array(&mut self)
        ensures
            final(self).map == old(self).map,
            vals(final(self).arr@) == shrink(vals(old(self).arr@)),
    {
        while self.arr.len() > 0 && self.arr[self.arr.len() - 1].is_nil()
            invariant
                self.map == old(self).map,
                shrink(vals(self.arr@)) == shrink(vals(old(self).arr@)),
            decreases self.arr.len(),
        {
            let ghost before = vals(self.arr@);
            self.arr.pop();
            assert(vals(self.arr@) =~= before.drop_last());
        }
    }

    /// Moves the values of the keys that follow the array part from the hash
    /// part to the end of the array part, up to the first key that is not there.
    fn expand_array(&mut self)
        requires
            distinct_keys(old(self).map@),
        ensures
            distinct_keys(final(self).map@),
            final(self)@ == old(self)@.expand(),
    {
        loop
            invariant
                distinct_keys(self.map@),
                self@.expand() == old(self)@.expand(),
            decreases self.map.len(),
        {
            if self.arr.len() as u64 >= i64::MAX as u64 {
                return ;
            }
            let idx: i64 = self.arr.len() as i64 + 1;
            let key = LuaValue::Integer(idx);
            match self.find(&key) {
                Some(j) => {
                    let ghost before = *self;
                    proof {
                        lemma_entries_remove(self.map@, j as int);
                        lemma_entries_at(self.map@, j as int);
                    }
                    let entry = self.map.remove(j);
                    self.arr.push(entry.val);
                    assert(self@.arr =~= before@.arr.push(before@.map[key@]));
                    assert(self@.map =~= before@.map.remove(key@));
                },
                None => {
                    return ;
                },
            }
        }
    }

    /// Puts `val` under `key`; a nil takes the key out. A key that is nil
    /// or a NaN is refused, and the table stays as it is.
    pub fn put(&mut self, key: LuaValue, val: LuaValue) -> (r: Result<(), LuaError>)
        requires
            old(self).wf(),
        ensures
            final(self).wf(),
            match r {
                Ok(_) => is_key(key@) && final(self)@ == old(self)@.put(key@, val@),
                Err(e) => e == LuaError::TableError && !is_key(key@) && *final(self) == *old(self),
            },
    {
        match &key {
            LuaValue::Nil => {
                return Err(LuaError::TableError);
            },
            LuaValue::Number(n) => {
                if is_nan(*n) {
                    return Err(LuaError::TableError);
                }
            },
            _ => {},
        }
        proof {
            lemma_put_wf(self@, key@, val@);
            lemma_norm_key(key@);
        }
        let nk = normal_key(&key);
        match nk {
            LuaValue::Integer(i) => {
                let len = self.arr.len();
                if i >= 1 && i as u64 <= len as u64 {
                    let val_is_nil = val.is_nil();
                    let ghost before = vals(self.arr@);
                    self.arr[(i - 1) as usize] = val;
                    assert(vals(self.arr@) =~= before.update(i - 1, val@));
                    if i as u64 == len as u64 && val_is_nil {
                        self.shrink_array();
                    }
                    return Ok(());
                }
                if i >= 1 && (i - 1) as u64 == len as u64 {
                    self.remove_key(&nk);
                    if !val.is_nil() {
                        let ghost before = vals(self.arr@);
                        self.arr.push(val);
                        assert(vals(self.arr@) =~= before.push(val@));
                        self.expand_array();
                    }
                    return Ok(());
                }
            },
            _ => {},
        }
        self.put_hash(nk, val);
        Ok(())
    }
}

/// The key under which `key` is filed.
fn normal_key(key: &LuaValue) -> (r: LuaValue)
    ensures
        r@ == norm_key(key@),
{
    match key {
        LuaValue::Number(n) => match float_to_integer(*n) {
            Some(i) => LuaValue::Integer(i),
            None => LuaValue::Number(*n),
        },
        _ => key.duplicate(),
    }
}

} // verus!
