//! Properties that hold across the pool's operations.

use crate::proxy_pool::maintenance::{
    lemma_queue_add_unique, lemma_queue_remove_absent, queue_add, queue_remove, queue_unique,
};
use crate::proxy_pool::maintenance::after_rate_limit;
use crate::proxy_pool::pool::{sat_dec, sat_inc};
use crate::proxy_pool::routing::{lemma_cyclic_index, pass_eligible, rr_start, scan, selection};
use crate::proxy_pool::types::{EgressRole, ProxyEntry, ProxyPool};
use vstd::prelude::*;

verus! {

/// The nodes after a lease is taken on node `index` (as `begin_lease`
/// states it).
pub open spec fn leased(nodes: Seq<ProxyEntry>, index: usize) -> Seq<ProxyEntry> {
    nodes.update(
        index as int,
        ProxyEntry { active_requests: sat_inc(nodes[index as int].active_requests), ..nodes[index as int] },
    )
}

/// The nodes after a lease on node `index` is handed back (as
/// `release_lease` states it).
pub open spec fn released(nodes: Seq<ProxyEntry>, index: usize) -> Seq<ProxyEntry> {
    nodes.update(
        index as int,
        ProxyEntry { active_requests: sat_dec(nodes[index as int].active_requests), ..nodes[index as int] },
    )
}

/// Handing a lease back undoes taking it: the nodes are as they were
/// (below the saturation bound of the lease counter).
pub proof fn releasing_a_lease_undoes_taking_it(nodes: Seq<ProxyEntry>, index: usize)
    requires
        index < nodes.len(),
        nodes[index as int].active_requests < usize::MAX,
    ensures
        released(leased(nodes, index), index) == nodes,
{
    assert(released(leased(nodes, index), index) =~= nodes);
}

/// Cancelling a drain undoes it: a node that was not draining is left as it
/// was, health and circuit included.
pub proof fn cancelling_a_drain_undoes_it(nodes: Seq<ProxyEntry>, index: usize)
    requires
        index < nodes.len(),
        !nodes[index as int].draining,
    ensures
        ({
            let drained = nodes.update(index as int, ProxyEntry { draining: true, ..nodes[index as int] });
            drained.update(index as int, ProxyEntry { draining: false, ..drained[index as int] }) == nodes
        }),
{
    let drained = nodes.update(index as int, ProxyEntry { draining: true, ..nodes[index as int] });
    assert(drained.update(index as int, ProxyEntry { draining: false, ..drained[index as int] }) =~= nodes);
}

/// The restart queue never holds an index twice: queueing and dequeueing
/// (the only ways the operations change it) keep a queue free of repeats.
pub proof fn restart_queue_stays_free_of_repeats(queue: Seq<usize>, index: usize)
    requires
        queue_unique(queue),
    ensures
        queue_unique(queue_add(queue, index)),
        queue_unique(queue_remove(queue, index)),
{
    lemma_queue_add_unique(queue, index);
    lemma_queue_remove_unique(queue, index);
}

proof fn lemma_queue_remove_unique(queue: Seq<usize>, index: usize)
    requires
        queue_unique(queue),
    ensures
        queue_unique(queue_remove(queue, index)),
    decreases queue.len(),
{
    if queue.len() > 0 {
        let rest = queue.drop_last();
        let last = queue.last();
        assert(queue_unique(rest));
        lemma_queue_remove_unique(rest, index);
        if last != index {
            lemma_queue_remove_absent(rest, index);
            assert(!rest.contains(last)) by {
                if rest.contains(last) {
                    let k = choose|k: int| 0 <= k < rest.len() && rest[k] == last;
                    assert(queue[k] == queue[queue.len() - 1]);
                }
            }
            let r = queue_remove(rest, index);
            assert(!r.contains(last));
            assert forall|a: int, b: int| 0 <= a < b < r.push(last).len() implies r.push(last)[a] != r.push(
                last,
            )[b] by {
                if b == r.len() {
                    assert(r.push(last)[a] == r[a]);
                    if r[a] == last {
                        assert(r.contains(last));
                    }
                }
            }
        }
    }
}

/// Once a provider rate limit is recorded on a node, the node is not queued
/// for a restart: `mark_rate_limited` takes it off the queue.
pub proof fn rate_limited_node_is_not_queued(queue: Seq<usize>, index: usize)
    ensures
        !queue_remove(queue, index).contains(index),
{
    lemma_queue_remove_absent(queue, index);
}


/// A provider rate limit leaves the node's transport state alone: health,
/// circuit, transport cooldown and restart budget are as they were.
pub proof fn rate_limit_leaves_transport_health_alone(node: ProxyEntry, secs: u64, now: u64)
    ensures
        after_rate_limit(node, secs, now).health == node.health,
        after_rate_limit(node, secs, now).circuit == node.circuit,
        after_rate_limit(node, secs, now).cooldown_until == node.cooldown_until,
        after_rate_limit(node, secs, now).restart_attempts == node.restart_attempts,
        after_rate_limit(node, secs, now).lifecycle == node.lifecycle,
        after_rate_limit(node, secs, now).role == node.role,
{
}

proof fn lemma_scan_none(pool: ProxyPool, now: u64, excluded: Option<usize>, pass: nat, start: int, off: int)
    requires
        0 <= off,
        scan(pool, now, excluded, pass, start, off) is None,
    ensures
        forall|o: int| off <= o < pool.proxies@.len() ==> !pass_eligible(
            pool,
            now,
            excluded,
            pass,
            #[trigger] ((start + o) % (pool.proxies@.len() as int)),
        ),
    decreases pool.proxies@.len() - off,
{
    if off < pool.proxies@.len() {
        lemma_scan_none(pool, now, excluded, pass, start, off + 1);
    }
}

/// A warm standby takes traffic only when no primary can: whenever the
/// selection picks a warm standby, no node was eligible as a serving
/// primary.
pub proof fn standby_serves_only_when_no_primary_can(pool: ProxyPool, now: u64, excluded: Option<usize>)
    requires
        selection(pool, now, excluded) is Some,
        pool.proxies@[selection(pool, now, excluded).unwrap().0].role == EgressRole::WarmStandby,
    ensures
        forall|j: int| 0 <= j < pool.proxies@.len() ==> !pass_eligible(pool, now, excluded, 1, j),
{
    let total = pool.proxies@.len() as int;
    let start = rr_start(pool);
    assert(total > 0);
    let picked = selection(pool, now, excluded).unwrap();
    if scan(pool, now, excluded, 1, start, 0) is Some {
        let i = scan(pool, now, excluded, 1, start, 0).unwrap();
        lemma_scan_some(pool, now, excluded, 1, start, 0);
        if scan(pool, now, excluded, 0, 0, 0) is Some {
            lemma_scan_some(pool, now, excluded, 0, 0, 0);
        }
        assert(false);
    }
    lemma_scan_none(pool, now, excluded, 1, start, 0);
    assert forall|j: int| 0 <= j < total implies !pass_eligible(pool, now, excluded, 1, j) by {
        let o = if j >= start { j - start } else { j + total - start };
        lemma_cyclic_index(start, o, total, j);
        assert(((start + o) % total) == j);
    }
}

proof fn lemma_scan_some(pool: ProxyPool, now: u64, excluded: Option<usize>, pass: nat, start: int, off: int)
    requires
        0 <= off,
        scan(pool, now, excluded, pass, start, off) is Some,
    ensures
        pass_eligible(pool, now, excluded, pass, scan(pool, now, excluded, pass, start, off).unwrap()),
    decreases pool.proxies@.len() - off,
{
    let total = pool.proxies@.len() as int;
    if off < total && !pass_eligible(pool, now, excluded, pass, (start + off) % total) {
        lemma_scan_some(pool, now, excluded, pass, start, off + 1);
    }
}

} // verus!
