use vstd::prelude::*;

use vstd::pervasive::VecAdditionalExecFns;

use crate::model::Port;
use crate::model::PortView;

verus! {

/// No two entries share a key.
pub open spec fn distinct_keys(s: Seq<(Seq<char>, PortView)>) -> bool {
    forall|i: int, j: int| 0 <= i < j < s.len() ==> s[i].0 != s[j].0
}

/// The keys of a sequence of entries, in entry order.
pub open spec fn keys_of(s: Seq<(Seq<char>, PortView)>) -> Seq<Seq<char>> {
    s.map_values(|e: (Seq<char>, PortView)| e.0)
}

/// The port values of a sequence of entries, in entry order.
pub open spec fn values_of(s: Seq<(Seq<char>, PortView)>) -> Seq<PortView> {
    s.map_values(|e: (Seq<char>, PortView)| e.1)
}

/// The mapping reached by upserting each entry of `s`, in order, into `m`:
/// a later entry for a key fully replaces an earlier value (last-writer-wins).
pub open spec fn applied(
    m: Map<Seq<char>, PortView>,
    s: Seq<(Seq<char>, PortView)>,
) -> Map<Seq<char>, PortView>
    decreases s.len(),
{
    if s.len() == 0 {
        m
    } else {
        applied(m, s.drop_last()).insert(s.last().0, s.last().1)
    }
}

/// Upserting a sequence of entries adds exactly its keys to the domain.
pub proof fn lemma_applied_dom(m: Map<Seq<char>, PortView>, s: Seq<(Seq<char>, PortView)>)
    ensures
        applied(m, s).dom() =~= m.dom() + keys_of(s).to_set(),
    decreases s.len(),
{
    if s.len() == 0 {
        assert forall|k: Seq<char>| !(keys_of(s).to_set().contains(k)) by {
            if keys_of(s).to_set().contains(k) {
                let i = choose|i: int| 0 <= i < keys_of(s).len() && keys_of(s)[i] == k;
            }
        }
    } else {
        let t = s.drop_last();
        lemma_applied_dom(m, t);
        assert forall|k: Seq<char>| keys_of(s).to_set().contains(k) implies
            k == s.last().0 || keys_of(t).to_set().contains(k) by {
            let i = choose|i: int| 0 <= i < keys_of(s).len() && keys_of(s)[i] == k;
            if i < s.len() - 1 {
                assert(keys_of(t)[i] == k);
            }
        }
        assert forall|k: Seq<char>| keys_of(t).to_set().contains(k) implies
            keys_of(s).to_set().contains(k) by {
            let i = choose|i: int| 0 <= i < keys_of(t).len() && keys_of(t)[i] == k;
            assert(keys_of(s)[i] == k);
        }
        assert(keys_of(s)[s.len() - 1] == s.last().0);
    }
}

/// Under distinct keys, the domain of the denoted mapping has exactly one
/// element per entry.
pub proof fn lemma_applied_len(s: Seq<(Seq<char>, PortView)>)
    requires
        distinct_keys(s),
    ensures
        applied(Map::<Seq<char>, PortView>::empty(), s).dom().finite(),
        applied(Map::<Seq<char>, PortView>::empty(), s).dom().len() == s.len(),
    decreases s.len(),
{
    let m = Map::<Seq<char>, PortView>::empty();
    if s.len() == 0 {
        assert(applied(m, s).dom() =~= Set::<Seq<char>>::empty());
    } else {
        let t = s.drop_last();
        lemma_applied_len(t);
        lemma_applied_dom(m, t);
        assert(!applied(m, t).dom().contains(s.last().0)) by {
            if keys_of(t).to_set().contains(s.last().0) {
                let i = choose|i: int| 0 <= i < keys_of(t).len() && keys_of(t)[i] == s.last().0;
                assert(s[i].0 == s[s.len() - 1].0);
            }
        }
    }
}

/// Under distinct keys, every entry is present in the denoted mapping.
pub proof fn lemma_applied_index(
    m: Map<Seq<char>, PortView>,
    s: Seq<(Seq<char>, PortView)>,
    i: int,
)
    requires
        distinct_keys(s),
        0 <= i < s.len(),
    ensures
        applied(m, s).dom().contains(s[i].0),
        applied(m, s)[s[i].0] == s[i].1,
    decreases s.len(),
{
    if i < s.len() - 1 {
        let t = s.drop_last();
        lemma_applied_index(m, t, i);
        assert(s[i].0 != s.last().0);
    }
}

/// Replacing the value of the entry that holds a key denotes the same mapping
/// as inserting the new value for that key.
pub proof fn lemma_applied_update(
    m: Map<Seq<char>, PortView>,
    s: Seq<(Seq<char>, PortView)>,
    i: int,
    v: PortView,
)
    requires
        distinct_keys(s),
        0 <= i < s.len(),
    ensures
        applied(m, s.update(i, (s[i].0, v))) == applied(m, s).insert(s[i].0, v),
    decreases s.len(),
{
    let k = s[i].0;
    let s2 = s.update(i, (k, v));
    if i == s.len() - 1 {
        assert(s2.drop_last() =~= s.drop_last());
        assert(s2.last() == (k, v));
        assert(applied(m, s2) =~= applied(m, s).insert(k, v));
    } else {
        assert(s2.drop_last() =~= s.drop_last().update(i, (s[i].0, v)));
        lemma_applied_update(m, s.drop_last(), i, v);
        assert(k != s.last().0);
        assert(s2.last() == s.last());
        assert(applied(m, s2) =~= applied(m, s).insert(k, v));
    }
}

/// Under distinct keys, the entries and the denoted mapping carry exactly
/// the same pairs: each entry is in the mapping, and each pair of the
/// mapping is some entry.
pub proof fn lemma_entries_agree_with_map(s: Seq<(Seq<char>, PortView)>)
    requires
        distinct_keys(s),
    ensures
        applied(Map::<Seq<char>, PortView>::empty(), s).dom().len() == s.len(),
        forall|i: int|
            0 <= i < s.len() ==> applied(Map::<Seq<char>, PortView>::empty(), s).dom().contains(
                #[trigger] s[i].0,
            ) && applied(Map::<Seq<char>, PortView>::empty(), s)[s[i].0] == s[i].1,
        forall|k: Seq<char>|
            #[trigger] applied(Map::<Seq<char>, PortView>::empty(), s).dom().contains(k)
                ==> exists|i: int|
                0 <= i < s.len() && s[i].0 == k && s[i].1 == applied(
                    Map::<Seq<char>, PortView>::empty(),
                    s,
                )[k],
{
    let m = Map::<Seq<char>, PortView>::empty();
    lemma_applied_len(s);
    lemma_applied_dom(m, s);
    assert forall|i: int| 0 <= i < s.len() implies applied(m, s).dom().contains(#[trigger] s[i].0)
        && applied(m, s)[s[i].0] == s[i].1 by {
        lemma_applied_index(m, s, i);
    }
    assert forall|k: Seq<char>| #[trigger] applied(m, s).dom().contains(k) implies exists|i: int|
        0 <= i < s.len() && s[i].0 == k && s[i].1 == applied(m, s)[k] by {
        let i = choose|i: int| 0 <= i < keys_of(s).len() && keys_of(s)[i] == k;
        lemma_applied_index(m, s, i);
        assert(s[i].0 == k && s[i].1 == applied(m, s)[k]);
    }
}

/// The shared in-memory store: a mapping from a unique textual key to a
/// `Port`. Entries are added or overwritten by upsert and never deleted.
pub struct Registry {
    pairs: Vec<(String, Port)>,
}

impl View for Registry {
    type V = Map<Seq<char>, PortView>;

    /// The mapping a registry denotes; the single source of truth for reads.
    open spec fn view(&self) -> Map<Seq<char>, PortView> {
        applied(Map::empty(), self.entries())
    }
}

impl Registry {
    /// The stored entries, as mathematical values, in iteration order.
    pub closed spec fn entries(self) -> Seq<(Seq<char>, PortView)> {
        self.pairs.deep_view()
    }

    /// Well-formed: keys are unique by construction.
    pub open spec fn wf(self) -> bool {
        distinct_keys(self.entries())
    }

    /// A registry starts empty.
    pub fn new() -> (r: Registry)
        ensures
            r.wf(),
            r.entries() == Seq::<(Seq<char>, PortView)>::empty(),
            r@ == Map::<Seq<char>, PortView>::empty(),
    {
        let r = Registry { pairs: Vec::new() };
        proof {
            assert(r.entries() =~= Seq::<(Seq<char>, PortView)>::empty());
        }
        r
    }

    /// The number of stored entries, which under `wf` is the size of the
    /// denoted mapping's domain.
    pub fn len(&self) -> (n: usize)
        ensures
            n == self.entries().len(),
            self.wf() ==> n == self@.dom().len(),
    {
        proof {
            if self.wf() {
                lemma_applied_len(self.entries());
            }
        }
        self.pairs.len()
    }

    /// Inserts or overwrites the entry for `key`. Never fails for
    /// structurally valid input; last writer wins.
    pub fn upsert(&mut self, key: String, port: Port)
        requires
            old(self).wf(),
        ensures
            final(self).wf(),
            final(self)@ == old(self)@.insert(key@, port@),
    {
        let ghost s0 = self.entries();
        let n = self.pairs.len();
        let mut i: usize = 0;
        while i < n
            invariant
                *self == *old(self),
                s0 == self.entries(),
                n == self.pairs.len(),
                n == s0.len(),
                distinct_keys(s0),
                i <= n,
                forall|j: int| 0 <= j < i ==> self.entries()[j].0 != key@,
            decreases n - i,
        {
            if self.pairs[i].0 == key {
                proof {
                    assert(s0[i as int].0 == key@);
                }
                self.pairs.set(i, (key, port));
                proof {
                    let s1 = self.entries();
                    assert(s1 =~= s0.update(i as int, (key@, port@)));
                    lemma_applied_update(Map::empty(), s0, i as int, port@);
                    assert forall|a: int, b: int| 0 <= a < b < s1.len() implies
                        s1[a].0 != s1[b].0 by {
                        assert(s1[a].0 == s0[a].0 && s1[b].0 == s0[b].0);
                    }
                }
                return;
            }
            i += 1;
        }
        self.pairs.push((key, port));
        proof {
            let s1 = self.entries();
            assert(s1 =~= s0.push((key@, port@)));
            assert(s1.drop_last() =~= s0);
            assert(s1.last() == (key@, port@));
            assert forall|a: int, b: int| 0 <= a < b < s1.len() implies s1[a].0 != s1[b].0 by {
                if b < s1.len() - 1 {
                    assert(s1[a].0 == s0[a].0 && s1[b].0 == s0[b].0);
                } else {
                    assert(s1[a].0 == s0[a].0 && s1[b].0 == key@);
                }
            }
        }
    }

    /// Returns every currently stored port value, in iteration order of the
    /// underlying entries: one consistent snapshot of the mapping.
    pub fn list(&self) -> (r: Vec<Port>)
        ensures
            r.deep_view() == values_of(self.entries()),
    {
        let ghost s = self.entries();
        let mut r: Vec<Port> = Vec::new();
        let n = self.pairs.len();
        let mut i: usize = 0;
        while i < n
            invariant
                n == self.pairs.len(),
                s == self.entries(),
                n == s.len(),
                i <= n,
                r.deep_view() == values_of(s.subrange(0, i as int)),
            decreases n - i,
        {
            let port = self.pairs[i].1.clone();
            let ghost r0 = r@;
            let ghost d0 = r.deep_view();
            r.push(port);
            proof {
                let t = s.subrange(0, (i + 1) as int);
                assert(d0.len() == i);
                assert(s[i as int] == self.pairs@[i as int].deep_view());
                assert forall|j: int| 0 <= j < i + 1 implies
                    r.deep_view()[j] == values_of(t)[j] by {
                    assert(t[j] == s[j]);
                    if j < i {
                        assert(r@[j] == r0[j]);
                        assert(r.deep_view()[j] == r0[j].deep_view());
                        assert(d0[j] == r0[j].deep_view());
                        assert(d0[j] == values_of(s.subrange(0, i as int))[j]);
                    } else {
                        assert(r.deep_view()[j] == port.deep_view());
                    }
                }
                assert(r.deep_view() =~= values_of(t));
            }
            i += 1;
        }
        proof {
            assert(s.subrange(0, n as int) =~= s);
        }
        r
    }
}

} // verus!
