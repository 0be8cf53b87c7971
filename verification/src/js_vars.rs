use vstd::prelude::*;

use crate::js_ast::VarEntry;
use crate::text::eq_str;

verus! {

/// Index of the first entry with key `k`, if any.
pub open spec fn key_index(items: Seq<VarEntry>, k: Seq<char>) -> Option<int>
    decreases items.len(),
{
    if items.len() == 0 {
        None
    } else if items[0].0 == k {
        Some(0)
    } else {
        match key_index(items.skip(1), k) {
            Some(i) => Some(i + 1),
            None => None,
        }
    }
}

/// The value recorded under `k`, if any.
pub open spec fn lookup_assoc(items: Seq<VarEntry>, k: Seq<char>) -> Option<Seq<char>> {
    match key_index(items, k) {
        Some(i) => Some(items[i].1),
        None => None,
    }
}

/// Recording `k = v`: the existing entry for `k` is overwritten in place,
/// a new key goes to the end.
pub open spec fn insert_assoc(items: Seq<VarEntry>, k: Seq<char>, v: Seq<char>) -> Seq<VarEntry> {
    match key_index(items, k) {
        Some(i) => items.update(i, (k, v)),
        None => items.push((k, v)),
    }
}

/// A sequence of recordings applied in order.
pub open spec fn apply_entries(items: Seq<VarEntry>, es: Seq<VarEntry>) -> Seq<VarEntry>
    decreases es.len(),
{
    if es.len() == 0 {
        items
    } else {
        insert_assoc(apply_entries(items, es.drop_last()), es.last().0, es.last().1)
    }
}

/// Applying concatenated recordings applies them in sequence.
pub proof fn lemma_apply_append(items: Seq<VarEntry>, a: Seq<VarEntry>, b: Seq<VarEntry>)
    ensures
        apply_entries(items, a + b) == apply_entries(apply_entries(items, a), b),
    decreases b.len(),
{
    if b.len() == 0 {
        assert(a + b =~= a);
    } else {
        lemma_apply_append(items, a, b.drop_last());
        assert((a + b).drop_last() =~= a + b.drop_last());
        assert((a + b).last() == b.last());
    }
}

/// The characterization of `key_index`: the least index holding `k`.
pub proof fn lemma_key_index(items: Seq<VarEntry>, k: Seq<char>)
    ensures
        match key_index(items, k) {
            Some(i) => 0 <= i < items.len() && items[i].0 == k && forall|j: int|
                0 <= j < i ==> (#[trigger] items[j]).0 != k,
            None => forall|j: int| 0 <= j < items.len() ==> (#[trigger] items[j]).0 != k,
        },
    decreases items.len(),
{
    if items.len() > 0 && items[0].0 != k {
        lemma_key_index(items.skip(1), k);
        assert forall|j: int| 1 <= j < items.len() implies items.skip(1)[j - 1] == items[j] by {}
    }
}

/// One rendered variable line: `key=value`.
pub open spec fn line_fn() -> spec_fn(VarEntry) -> Seq<char> {
    |kv: VarEntry| kv.0 + "="@ + kv.1
}

/// The variable environment of the JS analysis: fully-qualified keys and
/// their best-effort string values, in first-insertion order, later
/// recordings for a key overwriting in place.
pub struct VarMap {
    items: Vec<(String, String)>,
}

impl VarMap {
    /// The entries, in order.
    pub closed spec fn items_view(&self) -> Seq<VarEntry> {
        self.items.deep_view()
    }

    pub fn new() -> (r: Self)
        ensures
            r.items_view() == Seq::<VarEntry>::empty(),
    {
        let m = VarMap { items: Vec::new() };
        proof {
            assert(m.items_view() =~= Seq::<VarEntry>::empty());
        }
        m
    }

    pub fn is_empty(&self) -> (r: bool)
        ensures
            r == (self.items_view().len() == 0),
    {
        proof {
            assert(self.items_view().len() == self.items@.len());
        }
        self.items.len() == 0
    }

    /// Records `key = value`, overwriting in place.
    pub fn insert(&mut self, key: String, value: String)
        ensures
            final(self).items_view() == insert_assoc(old(self).items_view(), key@, value@),
    {
        let ghost dv0 = self.items.deep_view();
        let ghost kv = key@;
        let mut i: usize = 0;
        proof {
            lemma_key_index(dv0, kv);
        }
        while i < self.items.len()
            invariant
                dv0 == old(self).items_view(),
                kv == key@,
                self.items.deep_view() == dv0,
                self.items.deep_view().len() == self.items.len(),
                0 <= i <= self.items.len(),
                forall|j: int| 0 <= j < i ==> (#[trigger] dv0[j]).0 != kv,
                match key_index(dv0, kv) {
                    Some(n) => 0 <= n < dv0.len() && dv0[n].0 == kv && forall|j: int|
                        0 <= j < n ==> (#[trigger] dv0[j]).0 != kv,
                    None => forall|j: int| 0 <= j < dv0.len() ==> (#[trigger] dv0[j]).0 != kv,
                },
            decreases self.items.len() - i,
        {
            proof {
                assert(dv0[i as int] == (self.items@[i as int].0@, self.items@[i as int].1@));
            }
            if eq_str(self.items[i].0.as_str(), key.as_str()) {
                proof {
                    match key_index(dv0, kv) {
                        Some(n) => {
                            assert(!(n < i));
                            assert(!(n > i)) by {
                                if n > i {
                                    assert(dv0[i as int].0 != kv);
                                }
                            }
                        },
                        None => {
                            assert(dv0[i as int].0 != kv);
                        },
                    }
                }
                let ghost pre = self.items.deep_view();
                self.items.remove(i);
                self.items.insert(i, (key, value));
                proof {
                    assert(self.items.deep_view() =~= pre.update(i as int, (kv, value@)));
                }
                return;
            }
            i = i + 1;
        }
        proof {
            if key_index(dv0, kv) is Some {
                let n = key_index(dv0, kv)->Some_0;
                assert(dv0[n].0 == kv);
            }
        }
        let ghost pre = self.items.deep_view();
        self.items.push((key, value));
        proof {
            assert(self.items.deep_view() =~= pre.push((kv, value@)));
        }
    }

    /// The value recorded under `key`, if any.
    pub fn get(&self, key: &str) -> (r: Option<String>)
        ensures
            match r {
                Some(v) => lookup_assoc(self.items_view(), key@) == Some(v@),
                None => lookup_assoc(self.items_view(), key@) is None,
            },
    {
        let ghost dv = self.items.deep_view();
        proof {
            lemma_key_index(dv, key@);
        }
        let mut i: usize = 0;
        while i < self.items.len()
            invariant
                dv == self.items_view(),
                self.items.deep_view() == dv,
                dv.len() == self.items.len(),
                0 <= i <= self.items.len(),
                forall|j: int| 0 <= j < i ==> (#[trigger] dv[j]).0 != key@,
                match key_index(dv, key@) {
                    Some(n) => 0 <= n < dv.len() && dv[n].0 == key@ && forall|j: int|
                        0 <= j < n ==> (#[trigger] dv[j]).0 != key@,
                    None => forall|j: int| 0 <= j < dv.len() ==> (#[trigger] dv[j]).0 != key@,
                },
            decreases self.items.len() - i,
        {
            proof {
                assert(dv[i as int] == (self.items@[i as int].0@, self.items@[i as int].1@));
            }
            if eq_str(self.items[i].0.as_str(), key) {
                proof {
                    match key_index(dv, key@) {
                        Some(n) => {
                            assert(!(n < i));
                            assert(!(n > i)) by {
                                if n > i {
                                    assert(dv[i as int].0 != key@);
                                }
                            }
                        },
                        None => {
                            assert(dv[i as int].0 != key@);
                        },
                    }
                }
                return Some(crate::text::clone_string(&self.items[i].1));
            }
            i = i + 1;
        }
        proof {
            if key_index(dv, key@) is Some {
                let n = key_index(dv, key@)->Some_0;
                assert(dv[n].0 == key@);
            }
        }
        None
    }

    /// The entries rendered as `key=value` lines, in entry order.
    pub fn render_lines(&self) -> (r: Vec<String>)
        ensures
            r.deep_view() == self.items_view().map_values(line_fn()),
    {
        let ghost dv = self.items.deep_view();
        let mut out: Vec<String> = Vec::new();
        let mut i: usize = 0;
        proof {
            assert(out.deep_view() =~= dv.take(0).map_values(line_fn()));
        }
        while i < self.items.len()
            invariant
                dv == self.items_view(),
                self.items.deep_view() == dv,
                dv.len() == self.items.len(),
                0 <= i <= self.items.len(),
                out.deep_view() == dv.take(i as int).map_values(line_fn()),
            decreases self.items.len() - i,
        {
            let ghost pre = out.deep_view();
            let mut line = crate::text::clone_string(&self.items[i].0);
            line.append("=");
            line.append(self.items[i].1.as_str());
            proof {
                assert(dv[i as int] == (self.items@[i as int].0@, self.items@[i as int].1@));
                assert(line@ =~= line_fn()(dv[i as int]));
            }
            out.push(line);
            proof {
                assert(out.deep_view() =~= pre.push(dv[i as int].0 + "="@ + dv[i as int].1));
                assert(out.deep_view() =~= dv.take(i + 1).map_values(
                    |kv: VarEntry| kv.0 + "="@ + kv.1,
                ));
            }
            i = i + 1;
        }
        proof {
            assert(dv.take(dv.len() as int) =~= dv);
        }
        out
    }
}

} // verus!
