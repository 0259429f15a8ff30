use vstd::prelude::*;

use crate::table::{
    ClientSeconds, lemma_listed_all, lemma_listed_step, lemma_not_listed_before, lists_exactly,
    listed_before,
};
use crate::types::{RawClientData, RawClientDataCollection};
use crate::text::same_text;

verus! {

/// What one tick of the timer does outside the table of open connections:
/// the seconds it writes back to the store for each connection that was open,
/// and the connections that it ends at the gateway.
pub struct TimerTick {
    pub written: ClientSeconds,
    pub deauth: Vec<String>,
}

/// The store holds seconds for every open connection.
pub open spec fn tick_defined(active: Map<Seq<char>, i32>, stored: Map<Seq<char>, i32>) -> bool {
    forall|k: Seq<char>| #[trigger] active.contains_key(k) ==> stored.contains_key(k)
}

/// The stored seconds counted down by one, as `i32` arithmetic wraps
/// (`i32::MIN` becomes `i32::MAX`).
pub open spec fn counted_down(seconds: i32) -> i32 {
    seconds.wrapping_sub(1)
}

/// The seconds that a tick writes back: one less than the store held, for
/// each connection that was open.
pub open spec fn ticked_seconds(active: Map<Seq<char>, i32>, stored: Map<Seq<char>, i32>) -> Map<
    Seq<char>,
    i32,
> {
    Map::new(|k: Seq<char>| active.contains_key(k), |k: Seq<char>| counted_down(stored[k]))
}

/// The connections that stay open after a tick, with their seconds.
pub open spec fn still_active(active: Map<Seq<char>, i32>, stored: Map<Seq<char>, i32>) -> Map<
    Seq<char>,
    i32,
> {
    Map::new(
        |k: Seq<char>| active.contains_key(k) && counted_down(stored[k]) > 0,
        |k: Seq<char>| counted_down(stored[k]),
    )
}

/// The connections that a tick ends: those left with no second.
pub open spec fn expired(active: Map<Seq<char>, i32>, stored: Map<Seq<char>, i32>) -> Set<
    Seq<char>,
> {
    Set::new(|k: Seq<char>| active.contains_key(k) && counted_down(stored[k]) <= 0)
}

/// One tick of the timer. For each open connection, the seconds that the
/// store holds for it, less one (wrapping as `i32` does), are written back
/// and kept as its seconds left; a connection left with no second is ended at
/// the gateway and leaves the table.
pub fn decrement_active_user(active: &mut ClientSeconds, stored: &ClientSeconds) -> (r: TimerTick)
    requires
        tick_defined(old(active)@, stored@),
    ensures
        final(active)@ == still_active(old(active)@, stored@),
        r.written@ == ticked_seconds(old(active)@, stored@),
        lists_exactly(r.deauth@, expired(old(active)@, stored@)),
{
    let ghost start = active@;
    let macs = active.macs();
    let mut written = ClientSeconds::new();
    let mut deauth: Vec<String> = Vec::new();
    let mut i: usize = 0;
    while i < macs.len()
        invariant
            tick_defined(start, stored@),
            i <= macs@.len(),
            forall|a: int, b: int| 0 <= a < b < macs@.len() ==> #[trigger] macs@[a]@ != #[trigger] macs@[b]@,
            forall|a: int| 0 <= a < macs@.len() ==> start.contains_key(#[trigger] macs@[a]@),
            forall|k: Seq<char>| #[trigger] start.contains_key(k) ==> exists|a: int|
                0 <= a < macs@.len() && #[trigger] macs@[a]@ == k,
            forall|k: Seq<char>| #[trigger]
                written@.contains_key(k) <==> listed_before(macs@, i as int, k),
            forall|k: Seq<char>| #[trigger]
                written@.contains_key(k) ==> written@[k] == counted_down(stored@[k]),
            forall|k: Seq<char>| #[trigger]
                active@.contains_key(k) <==> (start.contains_key(k) && (listed_before(
                    macs@,
                    i as int,
                    k,
                ) ==> counted_down(stored@[k]) > 0)),
            forall|k: Seq<char>| #[trigger]
                active@.contains_key(k) ==> active@[k] == (if listed_before(macs@, i as int, k) {
                    counted_down(stored@[k]) as int
                } else {
                    start[k] as int
                }),
            forall|a: int, b: int| 0 <= a < b < deauth@.len() ==> #[trigger] deauth@[a]@ != #[trigger] deauth@[b]@,
            forall|a: int| 0 <= a < deauth@.len() ==> {
                &&& listed_before(macs@, i as int, #[trigger] deauth@[a]@)
                &&& expired(start, stored@).contains(deauth@[a]@)
            },
            forall|k: Seq<char>|
                listed_before(macs@, i as int, k) && #[trigger] expired(start, stored@).contains(k)
                    ==> exists|a: int| 0 <= a < deauth@.len() && #[trigger] deauth@[a]@ == k,
        decreases macs@.len() - i,
    {
        let mac = &macs[i];
        let ghost key = mac@;
        proof {
            assert(start.contains_key(key));
        }
        let seconds = *stored.get(mac.as_str()).unwrap();
        let left = seconds.wrapping_sub(1);
        let ghost before_deauth = deauth@;
        written.insert(mac.clone(), left);
        if left <= 0 {
            active.remove(mac.as_str());
            deauth.push(mac.clone());
        } else {
            active.insert(mac.clone(), left);
        }
        proof {
            lemma_listed_step(macs@, i as int);
            lemma_not_listed_before(macs@, i as int);
            assert forall|a: int, b: int| 0 <= a < b < deauth@.len() implies #[trigger] deauth@[a]@
                != #[trigger] deauth@[b]@ by {
                if b == before_deauth.len() && left <= 0 {
                    assert(deauth@[a] == before_deauth[a]);
                    assert(listed_before(macs@, i as int, before_deauth[a]@));
                } else {
                    assert(deauth@[a] == before_deauth[a]);
                    assert(deauth@[b] == before_deauth[b]);
                }
            }
            assert forall|k: Seq<char>|
                listed_before(macs@, i + 1, k) && #[trigger] expired(start, stored@).contains(k)
                    implies exists|a: int| 0 <= a < deauth@.len() && #[trigger] deauth@[a]@ == k by {
                if k == key {
                    assert(deauth@[deauth@.len() - 1]@ == k);
                } else {
                    let a = choose|a: int| 0 <= a < before_deauth.len() && #[trigger] before_deauth[a]@ == k;
                    assert(deauth@[a]@ == k);
                }
            }
        }
        i = i + 1;
    }
    proof {
        lemma_listed_all(macs@, start);
        assert(active@ =~= still_active(start, stored@));
        assert(written@ =~= ticked_seconds(start, stored@));
    }
    TimerTick { written, deauth }
}

/// The gateway reports `k` and reports it authenticated.
pub open spec fn is_authenticated(clients: Map<Seq<char>, RawClientData>, k: Seq<char>) -> bool {
    clients.contains_key(k) && clients[k].state@ == "Authenticated"@
}

/// Clients that the gateway reports authenticated but that have no open
/// connection in the table.
pub open spec fn unknown_authenticated(
    users: Map<Seq<char>, i32>,
    clients: Map<Seq<char>, RawClientData>,
) -> Set<Seq<char>> {
    Set::new(|k: Seq<char>| is_authenticated(clients, k) && !users.contains_key(k))
}

/// Open connections of which the gateway reports nothing.
pub open spec fn vanished(users: Map<Seq<char>, i32>, clients: Map<Seq<char>, RawClientData>) -> Set<
    Seq<char>,
> {
    Set::new(|k: Seq<char>| users.contains_key(k) && !clients.contains_key(k))
}

/// The open connections that the gateway reports authenticated, with their
/// seconds unchanged.
pub open spec fn reconciled(
    users: Map<Seq<char>, i32>,
    clients: Map<Seq<char>, RawClientData>,
) -> Map<Seq<char>, i32> {
    Map::new(|k: Seq<char>| users.contains_key(k) && is_authenticated(clients, k), |k: Seq<char>| users[k])
}

/// The open connections that the gateway reports, with their seconds
/// unchanged.
pub open spec fn reported(users: Map<Seq<char>, i32>, clients: Map<Seq<char>, RawClientData>) -> Map<
    Seq<char>,
    i32,
> {
    Map::new(|k: Seq<char>| users.contains_key(k) && clients.contains_key(k), |k: Seq<char>| users[k])
}

/// The clients that the gateway reports authenticated but that have no open
/// connection in the table, each once.
pub fn unknown_authenticated_clients(users: &ClientSeconds, report: &RawClientDataCollection) -> (r: Vec<String>)
    ensures
        lists_exactly(r@, unknown_authenticated(users@, report.client_map())),
{
    let clients = report.clients();
    let ghost cmap = clients@;
    let ghost start = users@;
    let authenticated = "Authenticated";
    let cmacs = clients.macs();
    let mut deauth: Vec<String> = Vec::new();
    let mut i: usize = 0;
    while i < cmacs.len()
        invariant
            users@ == start,
            clients@ == cmap,
            authenticated@ == "Authenticated"@,
            i <= cmacs@.len(),
            forall|a: int, b: int| 0 <= a < b < cmacs@.len() ==> #[trigger] cmacs@[a]@ != #[trigger] cmacs@[b]@,
            forall|a: int| 0 <= a < cmacs@.len() ==> cmap.contains_key(#[trigger] cmacs@[a]@),
            forall|k: Seq<char>| #[trigger] cmap.contains_key(k) ==> exists|a: int|
                0 <= a < cmacs@.len() && #[trigger] cmacs@[a]@ == k,
            forall|a: int, b: int| 0 <= a < b < deauth@.len() ==> #[trigger] deauth@[a]@ != #[trigger] deauth@[b]@,
            forall|a: int| 0 <= a < deauth@.len() ==> {
                &&& listed_before(cmacs@, i as int, #[trigger] deauth@[a]@)
                &&& unknown_authenticated(start, cmap).contains(deauth@[a]@)
            },
            forall|k: Seq<char>|
                listed_before(cmacs@, i as int, k) && #[trigger] unknown_authenticated(start, cmap).contains(k)
                    ==> exists|a: int| 0 <= a < deauth@.len() && #[trigger] deauth@[a]@ == k,
        decreases cmacs@.len() - i,
    {
        let mac = &cmacs[i];
        let ghost key = mac@;
        let data = clients.get(mac.as_str()).unwrap();
        let ghost before_deauth = deauth@;
        if same_text(data.state.as_str(), authenticated) && !users.contains_key(mac.as_str()) {
            deauth.push(mac.clone());
        }
        proof {
            lemma_listed_step(cmacs@, i as int);
            lemma_not_listed_before(cmacs@, i as int);
            assert forall|a: int, b: int| 0 <= a < b < deauth@.len() implies #[trigger] deauth@[a]@
                != #[trigger] deauth@[b]@ by {
                assert(deauth@[a] == before_deauth[a]);
                if b < before_deauth.len() {
                    assert(deauth@[b] == before_deauth[b]);
                } else {
                    assert(listed_before(cmacs@, i as int, before_deauth[a]@));
                }
            }
            assert forall|k: Seq<char>|
                listed_before(cmacs@, i + 1, k) && #[trigger] unknown_authenticated(start, cmap).contains(k)
                    implies exists|a: int| 0 <= a < deauth@.len() && #[trigger] deauth@[a]@ == k by {
                if k == key {
                    assert(deauth@[deauth@.len() - 1]@ == k);
                } else {
                    let a = choose|a: int| 0 <= a < before_deauth.len() && #[trigger] before_deauth[a]@ == k;
                    assert(deauth@[a]@ == k);
                }
            }
        }
        i = i + 1;
    }
    proof {
        assert forall|k: Seq<char>| #[trigger] unknown_authenticated(start, cmap).contains(k) implies exists|a: int|
            0 <= a < deauth@.len() && #[trigger] deauth@[a]@ == k by {
            assert(cmap.contains_key(k));
            let a = choose|a: int| 0 <= a < cmacs@.len() && #[trigger] cmacs@[a]@ == k;
            assert(listed_before(cmacs@, i as int, k));
        }
    }
    deauth
}

/// Ends the open connections of which the gateway reports nothing: they
/// leave the table and are returned, each once.
pub fn drop_vanished(users: &mut ClientSeconds, report: &RawClientDataCollection) -> (r: Vec<String>)
    ensures
        final(users)@ == reported(old(users)@, report.client_map()),
        lists_exactly(r@, vanished(old(users)@, report.client_map())),
{
    let ghost start = users@;
    let clients = report.clients();
    let ghost cmap = clients@;
    let umacs = users.macs();
    let mut deauth: Vec<String> = Vec::new();
    let mut j: usize = 0;
    while j < umacs.len()
        invariant
            clients@ == cmap,
            j <= umacs@.len(),
            forall|a: int, b: int| 0 <= a < b < umacs@.len() ==> #[trigger] umacs@[a]@ != #[trigger] umacs@[b]@,
            forall|a: int| 0 <= a < umacs@.len() ==> start.contains_key(#[trigger] umacs@[a]@),
            forall|k: Seq<char>| #[trigger] start.contains_key(k) ==> exists|a: int|
                0 <= a < umacs@.len() && #[trigger] umacs@[a]@ == k,
            forall|k: Seq<char>| #[trigger]
                users@.contains_key(k) <==> (start.contains_key(k) && (listed_before(
                    umacs@,
                    j as int,
                    k,
                ) ==> cmap.contains_key(k))),
            forall|k: Seq<char>| #[trigger] users@.contains_key(k) ==> users@[k] == start[k],
            forall|a: int, b: int| 0 <= a < b < deauth@.len() ==> #[trigger] deauth@[a]@ != #[trigger] deauth@[b]@,
            forall|a: int| 0 <= a < deauth@.len() ==> {
                &&& listed_before(umacs@, j as int, #[trigger] deauth@[a]@)
                &&& vanished(start, cmap).contains(deauth@[a]@)
            },
            forall|k: Seq<char>|
                listed_before(umacs@, j as int, k) && #[trigger] vanished(start, cmap).contains(k)
                    ==> exists|a: int| 0 <= a < deauth@.len() && #[trigger] deauth@[a]@ == k,
        decreases umacs@.len() - j,
    {
        let mac = &umacs[j];
        let ghost key = mac@;
        let ghost before_deauth = deauth@;
        if !clients.contains_key(mac.as_str()) {
            deauth.push(mac.clone());
            users.remove(mac.as_str());
        }
        proof {
            lemma_listed_step(umacs@, j as int);
            lemma_not_listed_before(umacs@, j as int);
            assert forall|a: int, b: int| 0 <= a < b < deauth@.len() implies #[trigger] deauth@[a]@
                != #[trigger] deauth@[b]@ by {
                assert(deauth@[a] == before_deauth[a]);
                if b < before_deauth.len() {
                    assert(deauth@[b] == before_deauth[b]);
                } else {
                    assert(listed_before(umacs@, j as int, before_deauth[a]@));
                }
            }
            assert forall|k: Seq<char>|
                listed_before(umacs@, j + 1, k) && #[trigger] vanished(start, cmap).contains(k)
                    implies exists|a: int| 0 <= a < deauth@.len() && #[trigger] deauth@[a]@ == k by {
                if k == key {
                    assert(deauth@[deauth@.len() - 1]@ == k);
                } else {
                    let a = choose|a: int| 0 <= a < before_deauth.len() && #[trigger] before_deauth[a]@ == k;
                    assert(deauth@[a]@ == k);
                }
            }
        }
        j = j + 1;
    }
    proof {
        lemma_listed_all(umacs@, start);
        assert(users@ =~= reported(start, cmap));
    }
    deauth
}

/// Keeps only the open connections that the gateway reports authenticated.
/// Every open connection must be one that the gateway reports.
pub fn keep_authenticated(users: &mut ClientSeconds, report: &RawClientDataCollection)
    requires
        forall|k: Seq<char>| #[trigger]
            old(users)@.contains_key(k) ==> report.client_map().contains_key(k),
    ensures
        final(users)@ == reconciled(old(users)@, report.client_map()),
{
    let ghost start = users@;
    let clients = report.clients();
    let ghost cmap = clients@;
    let authenticated = "Authenticated";
    let umacs = users.macs();
    let mut j: usize = 0;
    while j < umacs.len()
        invariant
            clients@ == cmap,
            authenticated@ == "Authenticated"@,
            j <= umacs@.len(),
            forall|k: Seq<char>| #[trigger] start.contains_key(k) ==> cmap.contains_key(k),
            forall|a: int, b: int| 0 <= a < b < umacs@.len() ==> #[trigger] umacs@[a]@ != #[trigger] umacs@[b]@,
            forall|a: int| 0 <= a < umacs@.len() ==> start.contains_key(#[trigger] umacs@[a]@),
            forall|k: Seq<char>| #[trigger] start.contains_key(k) ==> exists|a: int|
                0 <= a < umacs@.len() && #[trigger] umacs@[a]@ == k,
            forall|k: Seq<char>| #[trigger]
                users@.contains_key(k) <==> (start.contains_key(k) && (listed_before(
                    umacs@,
                    j as int,
                    k,
                ) ==> is_authenticated(cmap, k))),
            forall|k: Seq<char>| #[trigger] users@.contains_key(k) ==> users@[k] == start[k],
        decreases umacs@.len() - j,
    {
        let mac = &umacs[j];
        let ghost key = mac@;
        proof {
            assert(start.contains_key(key));
        }
        let data = clients.get(mac.as_str()).unwrap();
        if !same_text(data.state.as_str(), authenticated) {
            users.remove(mac.as_str());
        }
        proof {
            lemma_listed_step(umacs@, j as int);
        }
        j = j + 1;
    }
    proof {
        lemma_listed_all(umacs@, start);
        assert(users@ =~= reconciled(start, cmap));
    }
}

/// Brings the table of open connections in line with the gateway's report,
/// in three steps: every client that the gateway reports authenticated
/// without an open connection is ended; every open connection that the
/// gateway does not report is ended and leaves the table; the table then
/// keeps only the connections that the gateway reports authenticated. The
/// connections ended are returned, each once: the unknown authenticated
/// clients first, then the vanished connections.
pub fn assure_auth_client_state(users: &mut ClientSeconds, report: &RawClientDataCollection) -> (deauth: Vec<String>)
    ensures
        final(users)@ == reconciled(old(users)@, report.client_map()),
        exists|n: int|
            0 <= n <= deauth@.len() && lists_exactly(
                #[trigger] deauth@.take(n),
                unknown_authenticated(old(users)@, report.client_map()),
            ) && lists_exactly(deauth@.skip(n), vanished(old(users)@, report.client_map())),
        lists_exactly(
            deauth@,
            unknown_authenticated(old(users)@, report.client_map()).union(
                vanished(old(users)@, report.client_map()),
            ),
        ),
{
    let ghost start = users@;
    let ghost cmap = report.client_map();
    let mut deauth = unknown_authenticated_clients(users, report);
    let ghost first = deauth@;
    let mut vanished_list = drop_vanished(users, report);
    let ghost second = vanished_list@;
    proof {
        assert forall|k: Seq<char>| #[trigger] users@.contains_key(k) implies cmap.contains_key(k) by {}
    }
    keep_authenticated(users, report);
    deauth.append(&mut vanished_list);
    proof {
        assert(reconciled(reported(start, cmap), cmap) =~= reconciled(start, cmap));
        let all = unknown_authenticated(start, cmap).union(vanished(start, cmap));
        assert(deauth@ =~= first + second);
        assert(deauth@.take(first.len() as int) =~= first);
        assert(deauth@.skip(first.len() as int) =~= second);
        assert forall|a: int, b: int| 0 <= a < b < deauth@.len() implies #[trigger] deauth@[a]@
            != #[trigger] deauth@[b]@ by {
            if a < first.len() && b >= first.len() {
                assert(unknown_authenticated(start, cmap).contains(first[a]@));
                assert(vanished(start, cmap).contains(second[b - first.len()]@));
            } else if b < first.len() {
                assert(deauth@[a] == first[a]);
                assert(deauth@[b] == first[b]);
            } else {
                assert(deauth@[a] == second[a - first.len()]);
                assert(deauth@[b] == second[b - first.len()]);
            }
        }
        assert forall|a: int| 0 <= a < deauth@.len() implies all.contains(#[trigger] deauth@[a]@) by {
            if a < first.len() {
                assert(deauth@[a] == first[a]);
                assert(unknown_authenticated(start, cmap).contains(first[a]@));
            } else {
                assert(deauth@[a] == second[a - first.len()]);
                assert(vanished(start, cmap).contains(second[a - first.len()]@));
            }
        }
        assert forall|k: Seq<char>| #[trigger] all.contains(k) implies exists|a: int|
            0 <= a < deauth@.len() && #[trigger] deauth@[a]@ == k by {
            if unknown_authenticated(start, cmap).contains(k) {
                let a = choose|a: int| 0 <= a < first.len() && #[trigger] first[a]@ == k;
                assert(deauth@[a] == first[a]);
            } else {
                assert(vanished(start, cmap).contains(k));
                let a = choose|a: int| 0 <= a < second.len() && #[trigger] second[a]@ == k;
                assert(deauth@[a + first.len()] == second[a]);
            }
        }
    }
    deauth
}

} // verus!
