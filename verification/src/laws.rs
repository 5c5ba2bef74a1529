use vstd::prelude::*;

use vstd::map::*;

use crate::handler::health_checker_core;
use crate::model::PortView;
use crate::registry::applied;
use crate::registry::keys_of;
use crate::registry::lemma_applied_dom;
use crate::response::GenericResponse;

verus! {

/// The port value carried by the last entry of `b` that holds key `k`.
pub open spec fn last_value_for(b: Seq<(Seq<char>, PortView)>, k: Seq<char>) -> PortView
    decreases b.len(),
{
    if b.len() == 0 {
        arbitrary()
    } else if b.last().0 == k {
        b.last().1
    } else {
        last_value_for(b.drop_last(), k)
    }
}

/// Law: the liveness probe is deterministic — any two responses it can
/// return carry the same payload, so repeating it changes nothing.
pub proof fn lemma_ping_idempotent(r1: GenericResponse, r2: GenericResponse)
    requires
        call_ensures(health_checker_core, (), r1),
        call_ensures(health_checker_core, (), r2),
    ensures
        r1.status@ == r2.status@,
        r1.message@ == r2.message@,
{
}

/// Law: after any sequence of upserts into an initially empty registry, the
/// domain of the mapping is exactly the set of keys ever upserted, so a
/// listing counts each distinct key once — duplicates collapse.
pub proof fn lemma_count_distinct_keys(b: Seq<(Seq<char>, PortView)>)
    ensures
        applied(Map::<Seq<char>, PortView>::empty(), b).dom() =~= keys_of(b).to_set(),
{
    lemma_applied_dom(Map::<Seq<char>, PortView>::empty(), b);
}

/// Law (round trip): after upserting a batch, every key the batch mentions
/// maps to the last value the batch carries for it.
pub proof fn lemma_batch_round_trip(
    m: Map<Seq<char>, PortView>,
    b: Seq<(Seq<char>, PortView)>,
    k: Seq<char>,
)
    requires
        keys_of(b).to_set().contains(k),
    ensures
        applied(m, b).dom().contains(k),
        applied(m, b)[k] == last_value_for(b, k),
    decreases b.len(),
{
    let i = choose|i: int| 0 <= i < keys_of(b).len() && keys_of(b)[i] == k;
    if b.last().0 != k {
        assert(i < b.len() - 1);
        assert(keys_of(b.drop_last())[i] == k);
        assert(keys_of(b.drop_last()).to_set().contains(k));
        lemma_batch_round_trip(m, b.drop_last(), k);
    }
}

/// Law (frame): a batch leaves every key it does not mention untouched.
pub proof fn lemma_batch_frame(
    m: Map<Seq<char>, PortView>,
    b: Seq<(Seq<char>, PortView)>,
    k: Seq<char>,
)
    requires
        !keys_of(b).to_set().contains(k),
    ensures
        applied(m, b).dom().contains(k) == m.dom().contains(k),
        m.dom().contains(k) ==> applied(m, b)[k] == m[k],
    decreases b.len(),
{
    if b.len() > 0 {
        assert(b.last().0 != k) by {
            if b.last().0 == k {
                assert(keys_of(b)[b.len() - 1] == k);
            }
        }
        assert(!keys_of(b.drop_last()).to_set().contains(k)) by {
            if keys_of(b.drop_last()).to_set().contains(k) {
                let i = choose|i: int|
                    0 <= i < keys_of(b.drop_last()).len() && keys_of(b.drop_last())[i] == k;
                assert(keys_of(b)[i] == k);
            }
        }
        lemma_batch_frame(m, b.drop_last(), k);
    }
}

/// Law (no lost writes): two batches with disjoint key sets, applied one
/// after the other in either order, leave every key of each batch at its own
/// batch's last value, and reach the same mapping either way.
pub proof fn lemma_disjoint_batches_commute(
    m: Map<Seq<char>, PortView>,
    a: Seq<(Seq<char>, PortView)>,
    b: Seq<(Seq<char>, PortView)>,
)
    requires
        keys_of(a).to_set().disjoint(keys_of(b).to_set()),
    ensures
        forall|k: Seq<char>|
            keys_of(a).to_set().contains(k) ==> applied(applied(m, a), b).dom().contains(k)
                && applied(applied(m, a), b)[k] == last_value_for(a, k),
        forall|k: Seq<char>|
            keys_of(b).to_set().contains(k) ==> applied(applied(m, a), b).dom().contains(k)
                && applied(applied(m, a), b)[k] == last_value_for(b, k),
        applied(applied(m, a), b) == applied(applied(m, b), a),
{
    let l = applied(applied(m, a), b);
    let r = applied(applied(m, b), a);
    assert forall|k: Seq<char>| keys_of(a).to_set().contains(k) implies l.dom().contains(k)
        && l[k] == last_value_for(a, k) && r.dom().contains(k) && r[k] == last_value_for(
        a,
        k,
    ) by {
        lemma_batch_round_trip(m, a, k);
        lemma_batch_frame(applied(m, a), b, k);
        lemma_batch_round_trip(applied(m, b), a, k);
    }
    assert forall|k: Seq<char>| keys_of(b).to_set().contains(k) implies l.dom().contains(k)
        && l[k] == last_value_for(b, k) && r.dom().contains(k) && r[k] == last_value_for(
        b,
        k,
    ) by {
        lemma_batch_round_trip(applied(m, a), b, k);
        lemma_batch_round_trip(m, b, k);
        lemma_batch_frame(applied(m, b), a, k);
    }
    assert_maps_equal!(l, r, k => {
        if keys_of(a).to_set().contains(k) {
            lemma_batch_round_trip(m, a, k);
            lemma_batch_frame(applied(m, a), b, k);
            lemma_batch_round_trip(applied(m, b), a, k);
        } else if keys_of(b).to_set().contains(k) {
            lemma_batch_round_trip(applied(m, a), b, k);
            lemma_batch_round_trip(m, b, k);
            lemma_batch_frame(applied(m, b), a, k);
        } else {
            lemma_batch_frame(m, a, k);
            lemma_batch_frame(applied(m, a), b, k);
            lemma_batch_frame(m, b, k);
            lemma_batch_frame(applied(m, b), a, k);
        }
    });
}

} // verus!
