//! The in-memory registry: an ordered collection of appointments,
//! insertion order preserved, mirrored from the store. A caller shares one
//! registry between the interactive layer and the monitor behind a single
//! exclusive lock; every operation here is a whole step, so any snapshot
//! taken under that lock reflects a consistent prefix of completed
//! operations and never a torn state.

use vstd::prelude::*;
use crate::appointment::Appointment;

verus! {

/// Whether some entry of `s` carries the id `id`.
pub open spec fn has_id(s: Seq<Appointment>, id: i64) -> bool {
    exists|i: int| 0 <= i < s.len() && s[i].id == Some(id)
}

/// Index of the first entry of `s` with id `id`, or `-1` if there is none.
pub open spec fn first_with_id(s: Seq<Appointment>, id: i64) -> int
    decreases s.len(),
{
    if s.len() == 0 {
        -1
    } else if s[0].id == Some(id) {
        0
    } else {
        let r = first_with_id(s.drop_first(), id);
        if r == -1 {
            -1
        } else {
            r + 1
        }
    }
}

/// `s` with the first entry carrying `id` taken out; `s` itself if no
/// entry carries it.
pub open spec fn remove_first_with_id(s: Seq<Appointment>, id: i64) -> Seq<Appointment> {
    let i = first_with_id(s, id);
    if i == -1 {
        s
    } else {
        s.remove(i)
    }
}

/// How many entries of `s` carry the id `id`.
pub open spec fn count_with_id(s: Seq<Appointment>, id: i64) -> nat
    decreases s.len(),
{
    if s.len() == 0 {
        0
    } else {
        count_with_id(s.drop_last(), id) + (if s.last().id == Some(id) {
            1nat
        } else {
            0nat
        })
    }
}

/// `first_with_id` finds exactly the first match: a result of `-1` means
/// no entry carries the id, and any other result is the least index that
/// does.
pub proof fn lemma_first_with_id(s: Seq<Appointment>, id: i64)
    ensures
        first_with_id(s, id) == -1 ==> !has_id(s, id),
        first_with_id(s, id) != -1 ==> 0 <= first_with_id(s, id) < s.len() && s[first_with_id(
            s,
            id,
        )].id == Some(id) && (forall|j: int|
            0 <= j < first_with_id(s, id) ==> s[j].id != Some(id)),
    decreases s.len(),
{
    if s.len() == 0 {
    } else if s[0].id == Some(id) {
    } else {
        let rest = s.drop_first();
        lemma_first_with_id(rest, id);
        if first_with_id(s, id) == -1 {
            assert forall|i: int| 0 <= i < s.len() implies s[i].id != Some(id) by {
                if i > 0 {
                    assert(rest[i - 1] == s[i]);
                }
            }
        } else {
            let r = first_with_id(rest, id);
            assert(s[r + 1] == rest[r]);
            assert forall|j: int| 0 <= j < r + 1 implies s[j].id != Some(id) by {
                if j > 0 {
                    assert(rest[j - 1] == s[j]);
                }
            }
        }
    }
}

/// The least index carrying an id is, conversely, what `first_with_id`
/// computes.
pub proof fn lemma_first_with_id_is(s: Seq<Appointment>, id: i64, i: int)
    requires
        0 <= i < s.len(),
        s[i].id == Some(id),
        forall|j: int| 0 <= j < i ==> s[j].id != Some(id),
    ensures
        first_with_id(s, id) == i,
    decreases s.len(),
{
    if i == 0 {
    } else {
        let rest = s.drop_first();
        assert(rest[i - 1] == s[i]);
        assert forall|j: int| 0 <= j < i - 1 implies rest[j].id != Some(id) by {
            assert(rest[j] == s[j + 1]);
        }
        lemma_first_with_id_is(rest, id, i - 1);
    }
}

/// Counting distributes over taking one entry out.
proof fn lemma_count_remove(s: Seq<Appointment>, id: i64, i: int)
    requires
        0 <= i < s.len(),
    ensures
        count_with_id(s, id) == count_with_id(s.remove(i), id) + (if s[i].id == Some(id) {
            1nat
        } else {
            0nat
        }),
    decreases s.len(),
{
    if i == s.len() - 1 {
        assert(s.remove(i) =~= s.drop_last());
    } else {
        let t = s.drop_last();
        lemma_count_remove(t, id, i);
        assert(s.remove(i).drop_last() =~= t.remove(i));
        assert(s.remove(i).last() == s.last());
    }
}

/// A sequence with no entry carrying an id counts zero of it, and the
/// other way round.
pub proof fn lemma_count_zero(s: Seq<Appointment>, id: i64)
    ensures
        count_with_id(s, id) == 0 <==> !has_id(s, id),
    decreases s.len(),
{
    if s.len() == 0 {
    } else {
        let t = s.drop_last();
        lemma_count_zero(t, id);
        if has_id(t, id) {
            let i = choose|i: int| 0 <= i < t.len() && t[i].id == Some(id);
            assert(s[i] == t[i]);
        }
        if has_id(s, id) && s.last().id != Some(id) {
            let i = choose|i: int| 0 <= i < s.len() && s[i].id == Some(id);
            assert(t[i] == s[i]);
        }
    }
}

/// The in-memory mirror of the persisted appointment set.
pub struct Registry {
    appts: Vec<Appointment>,
}

impl View for Registry {
    type V = Seq<Appointment>;

    closed spec fn view(&self) -> Seq<Appointment> {
        self.appts@
    }
}

impl Registry {
    /// An empty registry.
    pub fn new() -> (r: Registry)
        ensures
            r@ == Seq::<Appointment>::empty(),
    {
        Registry { appts: Vec::new() }
    }

    /// The registry built from already-persisted records, in their stored
    /// order.
    pub fn from_records(records: Vec<Appointment>) -> (r: Registry)
        ensures
            r@ == records@,
    {
        Registry { appts: records }
    }

    pub fn len(&self) -> (n: usize)
        ensures
            n == self@.len(),
    {
        self.appts.len()
    }

    /// Append one appointment; display order is insertion order.
    pub fn insert(&mut self, a: Appointment)
        ensures
            final(self)@ == old(self)@.push(a),
    {
        self.appts.push(a);
    }

    /// Take out the first entry carrying `id`; an absent id leaves the
    /// registry exactly as it was (idempotent by design).
    pub fn remove(&mut self, id: i64)
        ensures
            final(self)@ == remove_first_with_id(old(self)@, id),
    {
        let n = self.appts.len();
        let mut i: usize = 0;
        while i < n
            invariant
                self@ == old(self)@,
                n == self.appts@.len(),
                i <= n,
                forall|j: int| 0 <= j < i ==> self.appts@[j].id != Some(id),
            decreases n - i,
        {
            let found = match self.appts[i].id {
                Some(x) => x == id,
                None => false,
            };
            if found {
                proof {
                    lemma_first_with_id_is(self@, id, i as int);
                }
                self.appts.remove(i);
                return ;
            }
            i += 1;
        }
        proof {
            lemma_first_with_id(self@, id);
            assert(first_with_id(self@, id) == -1);
        }
    }

    /// A consistent point-in-time copy of the whole registry.
    pub fn snapshot(&self) -> (r: Vec<Appointment>)
        ensures
            r@ == self@,
    {
        let n = self.appts.len();
        let mut out: Vec<Appointment> = Vec::new();
        let mut i: usize = 0;
        while i < n
            invariant
                n == self.appts@.len(),
                i <= n,
                out@ == self.appts@.subrange(0, i as int),
            decreases n - i,
        {
            out.push(self.appts[i].clone());
            proof {
                assert(out@ =~= self.appts@.subrange(0, i + 1));
            }
            i += 1;
        }
        proof {
            assert(out@ =~= self@);
        }
        out
    }
}

/// One completed mutation of the registry.
pub enum RegistryOp {
    Insert(Appointment),
    Remove(i64),
}

/// The registry state after one completed operation.
pub open spec fn apply_op(s: Seq<Appointment>, op: RegistryOp) -> Seq<Appointment> {
    match op {
        RegistryOp::Insert(a) => s.push(a),
        RegistryOp::Remove(id) => remove_first_with_id(s, id),
    }
}

/// The registry state after a sequence of completed operations, oldest
/// first.
pub open spec fn apply_ops(s: Seq<Appointment>, ops: Seq<RegistryOp>) -> Seq<Appointment>
    decreases ops.len(),
{
    if ops.len() == 0 {
        s
    } else {
        apply_ops(apply_op(s, ops[0]), ops.drop_first())
    }
}

/// Law: when inserts and removes execute one at a time — which the
/// registry's single exclusive lock forces on concurrent callers — the
/// final contents equal the fold of the completed operations, in their
/// serialization order, over the initial contents. Snapshots mutate
/// nothing, so interleaved monitor scans drop out of the fold.
pub proof fn lemma_serialized_ops(states: Seq<Seq<Appointment>>, ops: Seq<RegistryOp>)
    requires
        states.len() == ops.len() + 1,
        forall|i: int| 0 <= i < ops.len() ==> states[i + 1] == apply_op(states[i], ops[i]),
    ensures
        states.last() == apply_ops(states[0], ops),
    decreases ops.len(),
{
    if ops.len() == 0 {
    } else {
        let states2 = states.drop_first();
        let ops2 = ops.drop_first();
        assert forall|i: int| 0 <= i < ops2.len() implies states2[i + 1] == apply_op(
            states2[i],
            ops2[i],
        ) by {
            assert(states2[i + 1] == states[i + 2]);
            assert(states2[i] == states[i + 1]);
            assert(ops2[i] == ops[i + 1]);
        }
        lemma_serialized_ops(states2, ops2);
        assert(states2[0] == states[1]);
        assert(states2.last() == states.last());
    }
}

/// Whether `s` holds exactly one entry with id `id`, and that entry is
/// exactly the record `a`.
pub open spec fn present_exactly(s: Seq<Appointment>, a: Appointment, id: i64) -> bool {
    a.id == Some(id) && count_with_id(s, id) == 1 && exists|i: int| 0 <= i < s.len() && s[i] == a
}

/// Law: an appointment inserted with a fresh id is afterwards present
/// exactly once, and that entry is the inserted record itself.
pub proof fn lemma_insert_fresh_id(s: Seq<Appointment>, a: Appointment, id: i64)
    requires
        a.id == Some(id),
        !has_id(s, id),
    ensures
        count_with_id(s.push(a), id) == 1,
        s.push(a)[s.len() as int] == a,
        present_exactly(s.push(a), a, id),
{
    lemma_count_zero(s, id);
    assert(s.push(a).drop_last() =~= s);
}

/// Law: a record that is present exactly once stays present — the exact
/// record, exactly once — across every insert of a record with another id
/// and every remove of another id; only `remove` with its own id can take
/// it out.
pub proof fn lemma_present_until_removed(
    s: Seq<Appointment>,
    a: Appointment,
    id: i64,
    op: RegistryOp,
)
    requires
        present_exactly(s, a, id),
        match op {
            RegistryOp::Insert(b) => b.id != Some(id),
            RegistryOp::Remove(other) => other != id,
        },
    ensures
        present_exactly(apply_op(s, op), a, id),
{
    let i = choose|i: int| 0 <= i < s.len() && s[i] == a;
    match op {
        RegistryOp::Insert(b) => {
            lemma_insert_other_keeps_count(s, b, id);
            assert(s.push(b)[i] == a);
        },
        RegistryOp::Remove(other) => {
            lemma_remove_other_keeps_count(s, other, id);
            lemma_first_with_id(s, other);
            let f = first_with_id(s, other);
            if f != -1 {
                assert(s[f].id == Some(other));
                assert(i != f);
                if i < f {
                    assert(s.remove(f)[i] == a);
                } else {
                    assert(s.remove(f)[i - 1] == a);
                }
            }
        },
    }
}

/// Law: inserting a record with a different id does not change how often
/// an id occurs, so an entry stays present, once, across such inserts.
pub proof fn lemma_insert_other_keeps_count(s: Seq<Appointment>, b: Appointment, id: i64)
    requires
        b.id != Some(id),
    ensures
        count_with_id(s.push(b), id) == count_with_id(s, id),
{
    assert(s.push(b).drop_last() =~= s);
}

/// Law: removing a different id does not change how often an id occurs,
/// so an entry stays present, once, until `remove` is called with its id.
pub proof fn lemma_remove_other_keeps_count(s: Seq<Appointment>, other: i64, id: i64)
    requires
        other != id,
    ensures
        count_with_id(remove_first_with_id(s, other), id) == count_with_id(s, id),
{
    lemma_first_with_id(s, other);
    let i = first_with_id(s, other);
    if i != -1 {
        lemma_count_remove(s, id, i);
    }
}

/// Law: removing an id that is not present succeeds and leaves the
/// registry contents exactly unchanged.
pub proof fn lemma_remove_absent(s: Seq<Appointment>, id: i64)
    requires
        !has_id(s, id),
    ensures
        remove_first_with_id(s, id) == s,
{
    lemma_first_with_id(s, id);
}

} // verus!
