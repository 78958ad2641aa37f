//! Check-in watcher: turns a periodically fetched roster snapshot into
//! discrete new-arrival events. An arrival is an identity present in the
//! current snapshot but absent from the immediately preceding one; the
//! stored snapshot is replaced unconditionally after every successful
//! poll, so each arrival is reported exactly once.

use vstd::prelude::*;

verus! {

use vstd::seq_lib::group_seq_properties;

/// The nested identifier a roster record carries.
#[derive(Clone, Copy, PartialEq, Eq, Structural, Debug)]
pub struct PersonId {
    pub id: u32,
}

/// One record of the fetched roster.
#[derive(Clone, Copy, PartialEq, Eq, Structural, Debug)]
pub struct CheckInRecord {
    pub person: PersonId,
}

/// Why one roster poll failed. Both kinds are recoverable: the watcher
/// keeps its snapshot and retries at the next tick.
#[derive(Clone, Copy, PartialEq, Eq, Structural, Debug)]
pub enum RosterError {
    /// The fetch itself failed (no response, or a non-success status).
    Transport,
    /// The response could not be decoded into roster records.
    Decode,
}

/// Extract the identifier of every record, in order.
pub fn ids_of_records(records: &Vec<CheckInRecord>) -> (ids: Vec<u32>)
    ensures
        ids@.len() == records@.len(),
        forall|j: int| 0 <= j < records@.len() ==> #[trigger] ids@[j] == records@[j].person.id,
{
    let mut ids: Vec<u32> = Vec::new();
    let mut i: usize = 0;
    while i < records.len()
        invariant
            i <= records@.len(),
            ids@.len() == i,
            forall|j: int| 0 <= j < i ==> #[trigger] ids@[j] == records@[j].person.id,
        decreases records@.len() - i,
    {
        ids.push(records[i].person.id);
        i = i + 1;
    }
    ids
}

/// Whether `v` holds `x`.
fn vec_contains(v: &Vec<u32>, x: u32) -> (found: bool)
    ensures
        found == v@.contains(x),
{
    let mut i: usize = 0;
    while i < v.len()
        invariant
            i <= v@.len(),
            forall|j: int| 0 <= j < i ==> v@[j] != x,
        decreases v@.len() - i,
    {
        if v[i] == x {
            return true;
        }
        i = i + 1;
    }
    false
}

/// A set of opaque identities checked in at one poll: no ordering
/// semantics, each identity held once.
pub struct Snapshot {
    ids: Vec<u32>,
}

impl View for Snapshot {
    type V = Set<u32>;

    closed spec fn view(&self) -> Set<u32> {
        self.ids@.to_set()
    }
}

impl Snapshot {
    #[verifier::type_invariant]
    spec fn inv(self) -> bool {
        self.ids@.no_duplicates()
    }

    /// The snapshot before anything was fetched: empty.
    pub fn empty() -> (s: Snapshot)
        ensures
            s@ == Set::<u32>::empty(),
    {
        let s = Snapshot { ids: Vec::new() };
        proof {
            assert(s@ =~= Set::<u32>::empty());
        }
        s
    }

    /// Collect fetched identifiers into a snapshot, dropping duplicates.
    pub fn from_ids(ids: &Vec<u32>) -> (s: Snapshot)
        ensures
            s@ == ids@.to_set(),
    {
        let mut unique: Vec<u32> = Vec::new();
        let mut i: usize = 0;
        while i < ids.len()
            invariant
                i <= ids@.len(),
                unique@.no_duplicates(),
                forall|x: u32|
                    #[trigger] unique@.contains(x) <==> ids@.take(i as int).contains(x),
            decreases ids@.len() - i,
        {
            let id = ids[i];
            let have = vec_contains(&unique, id);
            if !have {
                unique.push(id);
            }
            proof {
                broadcast use group_seq_properties;

                assert(ids@.take(i + 1) =~= ids@.take(i as int).push(ids@[i as int]));
            }
            i = i + 1;
        }
        proof {
            assert(ids@.take(ids@.len() as int) =~= ids@);
        }
        let s = Snapshot { ids: unique };
        proof {
            assert(s@ =~= ids@.to_set());
        }
        s
    }

    /// Whether identity `id` is in the snapshot.
    pub fn contains(&self, id: u32) -> (present: bool)
        ensures
            present == self@.contains(id),
    {
        vec_contains(&self.ids, id)
    }
}

/// The arrivals of one poll: the identities of the current snapshot that
/// the previous snapshot lacked.
pub open spec fn arrivals_of(last: Set<u32>, current: Set<u32>) -> Set<u32> {
    current.difference(last)
}

/// A roster identical to the previous snapshot yields no arrivals.
pub proof fn lemma_no_arrivals_when_unchanged(s: Set<u32>)
    ensures
        arrivals_of(s, s) == Set::<u32>::empty(),
{
    assert(arrivals_of(s, s) =~= Set::<u32>::empty());
}

/// A poll that returns a roster equal to the stored snapshot announces
/// nothing: any reported arrivals that satisfy the watcher's contract
/// make an empty sequence.
pub proof fn lemma_unchanged_roster_reports_nothing(
    last: Set<u32>,
    ids: Seq<u32>,
    arrivals: Seq<u32>,
)
    requires
        ids.to_set() == last,
        forall|x: u32| #[trigger] arrivals.contains(x) <==> ids.to_set().contains(x) && !last.contains(x),
    ensures
        arrivals == Seq::<u32>::empty(),
{
    if arrivals.len() > 0 {
        assert(arrivals.contains(arrivals[0]));
    }
    assert(arrivals =~= Seq::<u32>::empty());
}

/// Compute the new-arrival set: each identity of `current` that `last`
/// lacks, each exactly once, in implementation-defined order.
pub fn new_arrivals(last: &Snapshot, current: &Snapshot) -> (fresh: Vec<u32>)
    ensures
        fresh@.no_duplicates(),
        forall|x: u32|
            #[trigger] fresh@.contains(x) <==> current@.contains(x) && !last@.contains(x),
        fresh@.to_set() == arrivals_of(last@, current@),
{
    proof {
        use_type_invariant(current);
    }
    let mut fresh: Vec<u32> = Vec::new();
    let mut i: usize = 0;
    while i < current.ids.len()
        invariant
            current.ids@.no_duplicates(),
            i <= current.ids@.len(),
            fresh@.no_duplicates(),
            forall|x: u32|
                #[trigger] fresh@.contains(x) <==> current.ids@.take(i as int).contains(x)
                    && !last@.contains(x),
        decreases current.ids@.len() - i,
    {
        let id = current.ids[i];
        let seen = last.contains(id);
        let ghost fresh0 = fresh@;
        if !seen {
            proof {
                broadcast use group_seq_properties;

                if current.ids@.take(i as int).contains(id) {
                    let j = choose|j: int|
                        0 <= j < current.ids@.take(i as int).len() && current.ids@.take(
                            i as int,
                        )[j] == id;
                    assert(current.ids@[j] == id);
                    assert(false);
                }
                assert(!fresh0.contains(id));
            }
            fresh.push(id);
            proof {
                broadcast use group_seq_properties;

                assert forall|a: int, b: int|
                    0 <= a < fresh@.len() && 0 <= b < fresh@.len() && a != b implies fresh@[a]
                    != fresh@[b] by {
                    if a < fresh0.len() && b < fresh0.len() {
                        assert(fresh0[a] != fresh0[b]);
                    } else if b == fresh0.len() {
                        assert(fresh@[b] == id);
                        if fresh0[a] == id {
                            assert(fresh0.contains(id));
                        }
                    } else {
                        assert(fresh@[a] == id);
                        if fresh0[b] == id {
                            assert(fresh0.contains(id));
                        }
                    }
                }
                assert(fresh@.no_duplicates());
            }
        }
        proof {
            broadcast use group_seq_properties;

            assert(current.ids@.take(i + 1) =~= current.ids@.take(i as int).push(
                current.ids@[i as int],
            ));
        }
        i = i + 1;
    }
    proof {
        assert(current.ids@.take(current.ids@.len() as int) =~= current.ids@);
        assert(fresh@.to_set() =~= arrivals_of(last@, current@));
    }
    fresh
}

/// The check-in watcher's state: the snapshot of the previous poll.
pub struct CheckinWatcher {
    last: Snapshot,
}

impl CheckinWatcher {
    /// The identities stored by the previous poll.
    pub closed spec fn last_snapshot(self) -> Set<u32> {
        self.last@
    }

    /// A fresh watcher that has seen nobody yet, so the first successful
    /// poll reports everyone present as an arrival.
    pub fn new() -> (w: CheckinWatcher)
        ensures
            w.last_snapshot() == Set::<u32>::empty(),
    {
        CheckinWatcher { last: Snapshot::empty() }
    }

    /// A watcher seeded with a first fetch, so the identities already
    /// present at startup are not announced.
    pub fn seeded(ids: &Vec<u32>) -> (w: CheckinWatcher)
        ensures
            w.last_snapshot() == ids@.to_set(),
    {
        CheckinWatcher { last: Snapshot::from_ids(ids) }
    }

    /// One poll cycle. On a successful fetch, report each identity that
    /// the previous snapshot lacked, exactly once, and replace the stored
    /// snapshot with the fetched one unconditionally. On a failed fetch,
    /// report nothing and keep the stored snapshot unchanged, so the
    /// failure stays invisible beyond a delayed reaction.
    pub fn step(&mut self, fetch: Result<Vec<u32>, RosterError>) -> (arrivals: Vec<u32>)
        ensures
            fetch matches Ok(ids) ==> {
                &&& final(self).last_snapshot() == ids@.to_set()
                &&& arrivals@.no_duplicates()
                &&& forall|x: u32|
                    #[trigger] arrivals@.contains(x) <==> ids@.to_set().contains(x) && !old(
                        self,
                    ).last_snapshot().contains(x)
                &&& arrivals@.to_set() == arrivals_of(old(self).last_snapshot(), ids@.to_set())
            },
            fetch matches Err(e) ==> {
                &&& *final(self) == *old(self)
                &&& arrivals@.len() == 0
            },
    {
        match fetch {
            Ok(ids) => {
                let current = Snapshot::from_ids(&ids);
                let arrivals = new_arrivals(&self.last, &current);
                self.last = current;
                arrivals
            },
            Err(_) => Vec::new(),
        }
    }
}

} // verus!
