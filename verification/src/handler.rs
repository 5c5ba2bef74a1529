use vstd::prelude::*;

use crate::model::Port;
use crate::registry::Registry;
use crate::registry::applied;
use crate::registry::values_of;
use crate::response::GenericResponse;
use crate::response::PortListResponse;

verus! {

/// Core of the liveness probe: no state access, cannot fail, and always
/// returns the fixed acknowledgment payload.
pub fn health_checker_core() -> (r: GenericResponse)
    ensures
        r.status@ == "success"@,
        r.message@ == "pong"@,
{
    GenericResponse { status: "success".to_owned(), message: "pong".to_owned() }
}

/// Core of the listing handler: reads one consistent snapshot of the
/// registry and reports its full contents together with their count.
pub fn port_list_core(reg: &Registry) -> (r: PortListResponse)
    requires
        reg.wf(),
    ensures
        r.status@ == "success"@,
        r.results == reg@.dom().len(),
        r.ports.deep_view() == values_of(reg.entries()),
{
    let ports = reg.list();
    let results = reg.len();
    PortListResponse { status: "success".to_owned(), results, ports }
}

/// Core of the bulk-upsert handler: applies every pair of the decoded batch
/// to the registry, in batch order (so a duplicate key resolves to the last
/// value), and returns the fixed acknowledgment. Decoding failures terminate
/// before this point, so the registry is only touched by a valid batch.
pub fn create_port_core(reg: &mut Registry, batch: &Vec<(String, Port)>) -> (r: GenericResponse)
    requires
        old(reg).wf(),
    ensures
        final(reg).wf(),
        final(reg)@ == applied(old(reg)@, batch.deep_view()),
        r.status@ == "success"@,
        r.message@ == "Ports uploaded successfully"@,
{
    let ghost b = batch.deep_view();
    let ghost m0 = old(reg)@;
    let n = batch.len();
    let mut i: usize = 0;
    while i < n
        invariant
            reg.wf(),
            b == batch.deep_view(),
            n == batch.len(),
            n == b.len(),
            i <= n,
            reg@ == applied(m0, b.subrange(0, i as int)),
        decreases n - i,
    {
        let key = batch[i].0.clone();
        let port = batch[i].1.clone();
        proof {
            assert(b[i as int] == batch@[i as int].deep_view());
            assert(key@ == b[i as int].0);
            assert(port@ == b[i as int].1);
        }
        reg.upsert(key, port);
        proof {
            let t = b.subrange(0, (i + 1) as int);
            assert(t.drop_last() =~= b.subrange(0, i as int));
            assert(t.last() == b[i as int]);
        }
        i += 1;
    }
    proof {
        assert(b.subrange(0, n as int) =~= b);
    }
    GenericResponse {
        status: "success".to_owned(),
        message: "Ports uploaded successfully".to_owned(),
    }
}

} // verus!
