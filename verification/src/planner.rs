//! The interactive core: one durable store and its in-memory mirror,
//! mutated in lockstep. Every mutation goes to the store first; the
//! registry is touched only once the write is confirmed, so a failed
//! store operation leaves the mirror exactly as it was.

use vstd::prelude::*;
use crate::appointment::{Appointment, Date, Time, valid_date, valid_records, valid_time};
use crate::monitor::{Notice, scan, scan_matches};
use crate::registry::{Registry, first_with_id, lemma_first_with_id, remove_first_with_id};
use crate::store::{PersistenceError, Store, parsed_appointments, skipped_count, RawRow};

verus! {

/// The planner a caller (the UI) talks to, and the monitor reads.
pub struct Planner {
    store: Store,
    registry: Registry,
}

impl View for Planner {
    type V = Seq<Appointment>;

    closed spec fn view(&self) -> Seq<Appointment> {
        self.registry@
    }
}

impl Planner {
    /// Every mirrored record has been persisted (it has an id) and holds
    /// a valid date and time.
    pub closed spec fn wf(&self) -> bool {
        valid_records(self.registry@)
    }

    fn from_store(store: Store) -> (r: Result<(Planner, usize), PersistenceError>)
        ensures
            match r {
                Ok(p) => p.0.wf() && exists|rows: Seq<RawRow>|
                    p.0@ == parsed_appointments(rows) && p.1 as nat == #[trigger] skipped_count(
                        rows,
                    ),
                Err(_) => true,
            },
    {
        match store.load() {
            Ok(outcome) => {
                let registry = Registry::from_records(outcome.appointments);
                Ok((Planner { store, registry }, outcome.skipped))
            },
            Err(e) => Err(e),
        }
    }

    /// Open the store at `path`, load every readable row into a fresh
    /// registry (in stored order), and report how many malformed rows
    /// were skipped.
    pub fn open(path: &str) -> (r: Result<(Planner, usize), PersistenceError>)
        ensures
            match r {
                Ok(p) => p.0.wf() && exists|rows: Seq<RawRow>|
                    p.0@ == parsed_appointments(rows) && p.1 as nat == #[trigger] skipped_count(
                        rows,
                    ),
                Err(_) => true,
            },
    {
        match Store::open(path) {
            Ok(store) => Planner::from_store(store),
            Err(e) => Err(e),
        }
    }

    /// A planner over a fresh in-memory store.
    pub fn open_in_memory() -> (r: Result<(Planner, usize), PersistenceError>)
        ensures
            match r {
                Ok(p) => p.0.wf() && exists|rows: Seq<RawRow>|
                    p.0@ == parsed_appointments(rows) && p.1 as nat == #[trigger] skipped_count(
                        rows,
                    ),
                Err(_) => true,
            },
    {
        match Store::open_in_memory() {
            Ok(store) => Planner::from_store(store),
            Err(e) => Err(e),
        }
    }

    /// Persist a new appointment, then — only on confirmed success —
    /// mirror it at the end of the registry, carrying the id the store
    /// assigned. On failure the registry is exactly unchanged.
    pub fn add(&mut self, date: Date, time: Time, description: String, location: String) -> (r:
        Result<i64, PersistenceError>)
        requires
            old(self).wf(),
            valid_date(date),
            valid_time(time),
        ensures
            final(self).wf(),
            match r {
                Ok(id) => final(self)@ == old(self)@.push(
                    Appointment { id: Some(id), date, time, description, location },
                ),
                Err(_) => final(self)@ == old(self)@,
            },
    {
        let mut a = Appointment { id: None, date, time, description, location };
        match self.store.create(&a) {
            Ok(id) => {
                a.id = Some(id);
                self.registry.insert(a);
                proof {
                    assert forall|i: int| 0 <= i < self@.len() implies {
                        let e = #[trigger] self@[i];
                        e.id is Some && valid_date(e.date) && valid_time(e.time)
                    } by {
                        if i < old(self)@.len() {
                            assert(self@[i] == old(self)@[i]);
                        }
                    }
                }
                Ok(id)
            },
            Err(e) => Err(e),
        }
    }

    /// Delete by id from the store, then — only on confirmed success —
    /// take the first entry with that id out of the registry. An absent
    /// id succeeds and leaves the registry exactly unchanged.
    pub fn remove(&mut self, id: i64) -> (r: Result<(), PersistenceError>)
        requires
            old(self).wf(),
        ensures
            final(self).wf(),
            match r {
                Ok(_) => final(self)@ == remove_first_with_id(old(self)@, id),
                Err(_) => final(self)@ == old(self)@,
            },
    {
        match self.store.delete(id) {
            Ok(_) => {
                self.registry.remove(id);
                proof {
                    let pre = old(self)@;
                    lemma_first_with_id(pre, id);
                    let f = first_with_id(pre, id);
                    if f != -1 {
                        assert forall|i: int| 0 <= i < self@.len() implies {
                            let e = #[trigger] self@[i];
                            e.id is Some && valid_date(e.date) && valid_time(e.time)
                        } by {
                            if i < f {
                                assert(self@[i] == pre[i]);
                            } else {
                                assert(self@[i] == pre[i + 1]);
                            }
                        }
                    }
                }
                Ok(())
            },
            Err(e) => Err(e),
        }
    }

    /// A consistent copy of the mirrored records, in insertion order.
    pub fn list(&self) -> (r: Vec<Appointment>)
        ensures
            r@ == self@,
    {
        self.registry.snapshot()
    }

    /// One monitor scan of the registry against the given "now": exactly
    /// one notice per due appointment, in registry order.
    pub fn scan(&self, now_date: Date, now_time: Time) -> (r: Vec<Notice>)
        requires
            self.wf(),
        ensures
            scan_matches(self@, now_date, now_time, r@),
    {
        let snap = self.registry.snapshot();
        scan(&snap, now_date, now_time)
    }

    /// One monitor scan of the registry against the local clock: whatever
    /// instant the clock reports, the notices are exactly the scan for it.
    pub fn scan_now(&self) -> (r: Vec<Notice>)
        requires
            self.wf(),
        ensures
            exists|now_date: Date, now_time: Time|
                valid_time(now_time) && scan_matches(self@, now_date, now_time, r@),
    {
        let snap = self.registry.snapshot();
        let r = crate::monitor::scan_now(&snap);
        proof {
            let (nd, nt) = choose|nd: Date, nt: Time|
                valid_time(nt) && scan_matches(snap@, nd, nt, r@);
            assert(valid_time(nt) && scan_matches(self@, nd, nt, r@));
        }
        r
    }
}

} // verus!
