use vstd::prelude::*;

use crate::registry::{Slot, Status, endpoint_at, held};
use crate::reverse_proxy::{Event, GatewayError, Phase, ReverseProxy, Step, lemma_first_free};

verus! {

/// A request for a name that is neither configured nor `echo` fails with
/// `UnknownService` and changes nothing: no claim, no port, no launch.
pub proof fn lemma_unknown_service(g: ReverseProxy, n: Seq<char>)
    requires
        g.wf(),
        !g.registry.known(n),
    ensures
        g.open_spec(n) == (
            g.registry@,
            g.ports.cursor,
            Phase::Closed,
            (Step::Fail { error: GatewayError::UnknownService }),
        ),
        !g.open_spec(n).0.contains_key(n),
{
}

/// Every port handed out lies in the gateway's range and is held by no other
/// service, running or starting: the candidate of a request that opens on
/// `n`, the next candidate after a probe of `port` finds it taken, and the
/// port that a successful probe hands to the launch.
pub proof fn lemma_allocated_port_fresh(g: ReverseProxy, n: Seq<char>, port: u16)
    requires
        g.wf(),
    ensures
        g.open_spec(n).3 matches (Step::Probe { port: p }) ==> g.ports.low <= p < g.ports.high
            && !held(g.registry@, p as int),
        g.accepts(n, (Phase::Probing { port }), (Event::Probed { free: false })) ==> (g.advance_spec(
            n,
            (Phase::Probing { port }),
            (Event::Probed { free: false }),
        ).2 matches (Step::Probe { port: q }) ==> g.ports.low <= q < g.ports.high && forall|m: Seq<char>|
            g.registry@.contains_key(m) && m != n ==> #[trigger] g.registry@[m].port != q),
        g.accepts(n, (Phase::Probing { port }), (Event::Probed { free: true })) ==> (g.advance_spec(
            n,
            (Phase::Probing { port }),
            (Event::Probed { free: true }),
        ).2 == (Step::Launch { port }) && g.ports.low <= port < g.ports.high && forall|m: Seq<char>|
            g.registry@.contains_key(m) && m != n ==> #[trigger] g.registry@[m].port != port),
{
    g.registry.lemma_ports_distinct();
    lemma_first_free(g.registry@, g.ports.cursor as int, g.ports.high as int);
    lemma_first_free(g.registry@, port + 1, g.ports.high as int);
    if g.accepts(n, (Phase::Probing { port }), (Event::Probed { free: false })) {
        if let Some(q) = crate::reverse_proxy::first_free(g.registry@, port + 1, g.ports.high as int) {
            assert forall|m: Seq<char>| g.registry@.contains_key(m) && m != n implies #[trigger] g.registry@[m].port != q by {
                if g.registry@[m].port == q {
                    assert(held(g.registry@, q as int));
                }
            }
        }
    }
}

/// At most one start per name: once a request has claimed a name, every
/// other request for it waits and changes nothing, until the claim ends.
/// The request that claims a name is the one whose open finds it absent.
pub proof fn lemma_single_flight(g: ReverseProxy, n: Seq<char>)
    requires
        g.wf(),
        g.registry.known(n),
    ensures
        !g.registry@.contains_key(n) ==> (g.open_spec(n).3 is Probe ==> g.open_spec(n).0.contains_key(n)
            && g.open_spec(n).0[n].status == Status::Starting),
        !g.registry@.contains_key(n) ==> (g.open_spec(n).3 is Probe || g.open_spec(n).3 == (Step::Fail {
            error: GatewayError::PortExhausted,
        })),
        g.registry@.contains_key(n) && g.registry@[n].status == Status::Starting ==> g.open_spec(n) == (
            g.registry@,
            g.ports.cursor,
            Phase::Closed,
            Step::Wait,
        ),
{
}

/// The request that finds its backend listening commits it as running, and
/// every request that comes after gets that same endpoint.
pub proof fn lemma_commit_shared(g: ReverseProxy, n: Seq<char>, port: u16, h: ReverseProxy)
    requires
        g.wf(),
        g.accepts(n, (Phase::Verifying { port }), (Event::Verified { free: false })),
        h.registry.config == g.registry.config,
        h.registry@ == g.advance_spec(n, (Phase::Verifying { port }), (Event::Verified { free: false })).0,
    ensures
        g.advance_spec(n, (Phase::Verifying { port }), (Event::Verified { free: false })).2 == (Step::Ready {
            endpoint: endpoint_at(port),
        }),
        h.open_spec(n).3 == (Step::Ready { endpoint: endpoint_at(port) }),
        h.open_spec(n).0 == h.registry@,
{
    assert(h.registry@.contains_key(n));
}

/// Resolving a running service launches nothing and returns its recorded
/// endpoint, leaving the gateway as it was.
pub proof fn lemma_running_is_reused(g: ReverseProxy, n: Seq<char>)
    requires
        g.wf(),
        g.registry.known(n),
        g.registry@.contains_key(n),
        g.registry@[n].status == Status::Running,
    ensures
        g.open_spec(n) == (
            g.registry@,
            g.ports.cursor,
            Phase::Closed,
            (Step::Ready { endpoint: endpoint_at(g.registry@[n].port) }),
        ),
{
}

/// A backend whose port is still free after the grace period is
/// terminated, its claim is dropped, and the request fails with
/// `LaunchFailure`.
pub proof fn lemma_unbound_port_aborts(g: ReverseProxy, n: Seq<char>, port: u16)
    requires
        g.wf(),
        g.accepts(n, (Phase::Verifying { port }), (Event::Verified { free: true })),
    ensures
        g.advance_spec(n, (Phase::Verifying { port }), (Event::Verified { free: true })) == (
            g.registry@.remove(n),
            Phase::Closed,
            (Step::Abort { error: GatewayError::LaunchFailure }),
        ),
        !g.advance_spec(n, (Phase::Verifying { port }), (Event::Verified { free: true })).0.contains_key(n),
{
}

} // verus!
