//! The walk up the process table finds the launcher's ancestors: held against
//! any process table, it collects the launcher and every ancestor within the
//! hops allowed.
use crate::ancestry::{parent_pid, WalkView, MAX_ANCESTOR_HOPS};
use crate::cleanup::{candidates_of, law_candidates_spare_ancestors};
use crate::gateway::ClientView;
use crate::workspace::ContextView;
use crate::gateway::{ReplyView, RequestView};
use vstd::prelude::*;

verus! {

/// A process table: the status record of each process that has a readable
/// one.
pub type Table = Map<i32, Seq<char>>;

/// What the driver answers when asked for the record of `pid`.
pub open spec fn record_reply(table: Table, pid: i32) -> ReplyView {
    if table.contains_key(pid) {
        ReplyView::Status(Some(table[pid]))
    } else {
        ReplyView::Status(None)
    }
}

/// The parent of `pid` in the table, if its record names one above process 1.
pub open spec fn parent_in(table: Table, pid: i32) -> Option<i32> {
    if table.contains_key(pid) {
        match parent_pid(table[pid]) {
            Some(parent) => if parent > 1 {
                Some(parent)
            } else {
                None
            },
            None => None,
        }
    } else {
        None
    }
}

/// The ancestor `k` hops above `pid`; `pid` itself for no hop.
pub open spec fn ancestor(table: Table, pid: i32, k: nat) -> Option<i32>
    decreases k,
{
    if k == 0 {
        Some(pid)
    } else {
        match ancestor(table, pid, (k - 1) as nat) {
            Some(a) => parent_in(table, a),
            None => None,
        }
    }
}

/// The walk carried to its end against a table, from a state in which the
/// record of `asked` was asked for.
pub open spec fn walk_on(w: WalkView, asked: i32, table: Table) -> WalkView
    decreases MAX_ANCESTOR_HOPS + 1 - w.hops,
{
    if w.done || w.hops > MAX_ANCESTOR_HOPS {
        w
    } else {
        let (w2, ask) = w.step(record_reply(table, asked));
        match ask {
            Some(RequestView::ProcessStatus(next)) => walk_on(w2, next, table),
            _ => w2,
        }
    }
}

/// The processes that the walk from the launcher collects in a table.
pub open spec fn collected(table: Table, self_pid: i32) -> Seq<i32> {
    walk_on(WalkView::begin(self_pid).0, self_pid, table).pids
}

spec fn on_chain(w: WalkView, asked: i32, table: Table, self_pid: i32) -> bool {
    &&& !w.done
    &&& w.hops <= MAX_ANCESTOR_HOPS
    &&& w.pids.len() == w.hops + 1
    &&& asked == w.pids[w.hops as int]
    &&& forall|j: int|
        0 <= j <= w.hops ==> ancestor(table, self_pid, j as nat) == Some(#[trigger] w.pids[j])
}

proof fn lemma_no_ancestor_above(table: Table, pid: i32, h: nat, k: nat)
    requires
        ancestor(table, pid, h) is None,
        h <= k,
    ensures
        ancestor(table, pid, k) is None,
    decreases k,
{
    if k > h {
        lemma_no_ancestor_above(table, pid, h, (k - 1) as nat);
    }
}

proof fn lemma_closed_chain(table: Table, self_pid: i32, pids: Seq<i32>, h: nat, k: nat)
    requires
        pids.len() == h + 1,
        forall|j: int| 0 <= j <= h ==> ancestor(table, self_pid, j as nat) == Some(#[trigger] pids[j]),
        parent_in(table, pids[h as int]) matches Some(p) && pids.contains(p),
        ancestor(table, self_pid, k) is Some,
    ensures
        pids.contains(ancestor(table, self_pid, k)->0),
    decreases k,
{
    if k <= h {
        assert(pids[k as int] == ancestor(table, self_pid, k)->0);
    } else {
        let prev = ancestor(table, self_pid, (k - 1) as nat);
        lemma_closed_chain(table, self_pid, pids, h, (k - 1) as nat);
        let j = choose|j: int| 0 <= j < pids.len() && pids[j] == prev->0;
        if j < h {
            assert(ancestor(table, self_pid, (j + 1) as nat) == Some(pids[j + 1]));
            assert(ancestor(table, self_pid, j as nat) == Some(pids[j]));
        } else {
            assert(pids[j] == pids[h as int]);
        }
    }
}

proof fn lemma_walk_collects(w: WalkView, asked: i32, table: Table, self_pid: i32, k: nat)
    requires
        on_chain(w, asked, table, self_pid),
        k <= MAX_ANCESTOR_HOPS,
        ancestor(table, self_pid, k) is Some,
    ensures
        walk_on(w, asked, table).pids.contains(ancestor(table, self_pid, k)->0),
    decreases MAX_ANCESTOR_HOPS + 1 - w.hops,
{
    let h = w.hops as nat;
    let (w2, ask) = w.step(record_reply(table, asked));
    let wanted = ancestor(table, self_pid, k)->0;
    assert(ancestor(table, self_pid, h) == Some(asked));
    match ask {
        Some(RequestView::ProcessStatus(next)) => {
            assert(parent_in(table, asked) == Some(next));
            assert(ancestor(table, self_pid, h + 1) == Some(next));
            assert forall|j: int| 0 <= j <= w2.hops implies ancestor(table, self_pid, j as nat)
                == Some(#[trigger] w2.pids[j]) by {
                if j <= h {
                    assert(w2.pids[j] == w.pids[j]);
                }
            }
            lemma_walk_collects(w2, next, table, self_pid, k);
        },
        _ => {
            assert(w2.pids == w.pids);
            if k <= h {
                assert(w.pids[k as int] == wanted);
            } else {
                match parent_in(table, asked) {
                    Some(p) => {
                        assert(w.pids.contains(p));
                        lemma_closed_chain(table, self_pid, w.pids, h, k);
                    },
                    None => {
                        assert(ancestor(table, self_pid, h + 1) is None);
                        lemma_no_ancestor_above(table, self_pid, h + 1, k);
                    },
                }
            }
        },
    }
}

/// The walk collects the launcher itself and every ancestor up to the last
/// hop allowed, whatever the process table holds.
pub proof fn law_walk_collects_ancestors(table: Table, self_pid: i32, k: nat)
    requires
        k <= MAX_ANCESTOR_HOPS,
        ancestor(table, self_pid, k) is Some,
    ensures
        collected(table, self_pid).contains(ancestor(table, self_pid, k)->0),
{
    let w = WalkView::begin(self_pid).0;
    assert(w.pids[0] == self_pid);
    lemma_walk_collects(w, self_pid, table, self_pid, k);
}


/// No window of the launcher or of one of its ancestors, up to the last hop
/// allowed, is among the windows that a cleanup would close, whatever the
/// process table and the windows are.
pub proof fn law_cleanup_spares_ancestors(
    table: Table,
    self_pid: i32,
    clients: Seq<ClientView>,
    ctx: ContextView,
    k: nat,
)
    requires
        k <= MAX_ANCESTOR_HOPS,
        ancestor(table, self_pid, k) is Some,
    ensures
        forall|i: int|
            0 <= i < candidates_of(clients, ctx, self_pid, collected(table, self_pid)).len()
                ==> (#[trigger] candidates_of(
                clients,
                ctx,
                self_pid,
                collected(table, self_pid),
            )[i]).pid != ancestor(table, self_pid, k)->0,
{
    law_walk_collects_ancestors(table, self_pid, k);
    law_candidates_spare_ancestors(clients, ctx, self_pid, collected(table, self_pid));
}

} // verus!
