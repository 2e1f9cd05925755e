//! The due-appointment monitor's decision core. Each tick, the caller
//! takes a snapshot of the registry and hands it here together with the
//! current local date and time; this module decides which appointments
//! are due — their instant is at or before "now" — and builds one notice
//! per due appointment. Due-ness is not tracked across ticks: a due
//! appointment that is not deleted is flagged again on every later scan.

use vstd::prelude::*;
use chrono::{Datelike, Timelike};
use crate::appointment::{Appointment, Date, Time, valid_time};
use crate::codec::{format_time, time_chars};

verus! {

/// Whether the instant `(d1, t1)` is at or before the instant `(d2, t2)`,
/// both read in the same (local) timezone: lexicographic order on year,
/// month, day, hour, minute.
pub open spec fn instant_le(d1: Date, t1: Time, d2: Date, t2: Time) -> bool {
    d1.year < d2.year || (d1.year == d2.year && (d1.month < d2.month || (d1.month == d2.month && (
    d1.day < d2.day || (d1.day == d2.day && (t1.hour < t2.hour || (t1.hour == t2.hour && t1.minute
        <= t2.minute)))))))
}

/// Whether the instant `(d1, t1)` is strictly before `(d2, t2)`.
pub open spec fn instant_lt(d1: Date, t1: Time, d2: Date, t2: Time) -> bool {
    instant_le(d1, t1, d2, t2) && !(d1 == d2 && t1 == t2)
}

/// Whether an appointment is due as of the given local date and time.
pub open spec fn is_due_spec(a: Appointment, now_date: Date, now_time: Time) -> bool {
    instant_le(a.date, a.time, now_date, now_time)
}

/// Decide due-ness of one appointment against the given "now".
pub fn is_due(a: &Appointment, now_date: Date, now_time: Time) -> (r: bool)
    ensures
        r == is_due_spec(*a, now_date, now_time),
{
    a.date.year < now_date.year || (a.date.year == now_date.year && (a.date.month < now_date.month
        || (a.date.month == now_date.month && (a.date.day < now_date.day || (a.date.day
        == now_date.day && (a.time.hour < now_time.hour || (a.time.hour == now_time.hour
        && a.time.minute <= now_time.minute)))))))
}

/// One message for the notification sink: a summary line and a body that
/// names the appointment's description, time and location.
pub struct Notice {
    pub summary: String,
    pub body: String,
}

/// The characters of a notice body: `description: HH:MM in location`.
pub open spec fn body_chars(a: Appointment) -> Seq<char> {
    a.description@ + ": "@ + time_chars(a.time) + " in "@ + a.location@
}

/// The subsequence of `s` that is due as of `(now_date, now_time)`, in
/// snapshot order.
pub open spec fn due_entries(s: Seq<Appointment>, now_date: Date, now_time: Time) -> Seq<
    Appointment,
>
    decreases s.len(),
{
    if s.len() == 0 {
        Seq::empty()
    } else {
        let rest = due_entries(s.drop_last(), now_date, now_time);
        if is_due_spec(s.last(), now_date, now_time) {
            rest.push(s.last())
        } else {
            rest
        }
    }
}

/// Whether `n` is the notice for the appointment `a`.
pub open spec fn notice_matches(n: Notice, a: Appointment) -> bool {
    n.summary@ == "Termin-Erinnerung"@ && n.body@ == body_chars(a)
}

/// Whether `out` is exactly the notices for the due entries of `s` as of
/// `(now_date, now_time)`, in snapshot order.
pub open spec fn scan_matches(
    s: Seq<Appointment>,
    now_date: Date,
    now_time: Time,
    out: Seq<Notice>,
) -> bool {
    let due = due_entries(s, now_date, now_time);
    out.len() == due.len() && forall|i: int|
        0 <= i < due.len() ==> #[trigger] notice_matches(out[i], due[i])
}

/// Build the notice for one appointment.
pub fn build_notice(a: &Appointment) -> (n: Notice)
    requires
        valid_time(a.time),
    ensures
        n.summary@ == "Termin-Erinnerung"@,
        n.body@ == body_chars(*a),
{
    let summary = String::from_str("Termin-Erinnerung");
    let mut body = String::new();
    body.append(a.description.as_str());
    body.append(": ");
    let t = format_time(&a.time);
    body.append(t.as_str());
    body.append(" in ");
    body.append(a.location.as_str());
    proof {
        assert(body@ == body_chars(*a));
    }
    Notice { summary, body }
}

/// One monitor scan over a snapshot: one notice per due appointment, in
/// snapshot order. Pure in the snapshot and the given "now", so a later
/// scan over the same entries flags them again.
pub fn scan(snapshot: &Vec<Appointment>, now_date: Date, now_time: Time) -> (r: Vec<Notice>)
    requires
        forall|i: int| 0 <= i < snapshot@.len() ==> valid_time((#[trigger] snapshot@[i]).time),
    ensures
        scan_matches(snapshot@, now_date, now_time, r@),
{
    let n = snapshot.len();
    let mut out: Vec<Notice> = Vec::new();
    let mut i: usize = 0;
    while i < n
        invariant
            n == snapshot@.len(),
            i <= n,
            forall|k: int| 0 <= k < snapshot@.len() ==> valid_time((#[trigger] snapshot@[k]).time),
            scan_matches(snapshot@.take(i as int), now_date, now_time, out@),
        decreases n - i,
    {
        let ghost pre = snapshot@.take(i as int);
        let ghost post = snapshot@.take(i as int + 1);
        let ghost out0 = out@;
        proof {
            assert(post.drop_last() =~= pre);
            assert(post.last() == snapshot@[i as int]);
        }
        if is_due(&snapshot[i], now_date, now_time) {
            let notice = build_notice(&snapshot[i]);
            out.push(notice);
            proof {
                let due_pre = due_entries(pre, now_date, now_time);
                let due_post = due_entries(post, now_date, now_time);
                assert(due_post == due_pre.push(snapshot@[i as int]));
                assert forall|k: int| 0 <= k < due_post.len() implies #[trigger] notice_matches(
                    out@[k],
                    due_post[k],
                ) by {
                    if k < due_pre.len() {
                        assert(out@[k] == out0[k]);
                        assert(notice_matches(out0[k], due_pre[k]));
                    } else {
                        assert(out@[k] == notice);
                        assert(due_post[k] == snapshot@[i as int]);
                    }
                }
            }
        } else {
            proof {
                let due_pre = due_entries(pre, now_date, now_time);
                let due_post = due_entries(post, now_date, now_time);
                assert(due_post == due_pre);
                assert forall|k: int| 0 <= k < due_post.len() implies #[trigger] notice_matches(
                    out@[k],
                    due_post[k],
                ) by {
                    assert(notice_matches(out0[k], due_pre[k]));
                }
            }
        }
        i += 1;
    }
    proof {
        assert(snapshot@.take(n as int) =~= snapshot@);
    }
    out
}

/// Relies on `chrono::Local::now` and chrono's `Datelike`/`Timelike`
/// accessors: month is 1 to 12, day of month 1 to 31, hour 0 to 23,
/// minute 0 to 59. Nothing more is promised: the result follows the
/// system clock and local timezone at the moment of the call.
#[verifier::external_body]
fn now_local() -> (r: (Date, Time))
    ensures
        1 <= r.0.month <= 12,
        1 <= r.0.day <= 31,
        valid_time(r.1),
{
    let now = chrono::Local::now();
    (
        Date { year: now.year(), month: now.month() as u8, day: now.day() as u8 },
        Time { hour: now.hour() as u8, minute: now.minute() as u8 },
    )
}

/// One monitor scan against the clock: evaluates the snapshot at the
/// local date and time of the call. Whatever instant the clock reports,
/// the result is exactly the scan for that instant.
pub fn scan_now(snapshot: &Vec<Appointment>) -> (r: Vec<Notice>)
    requires
        forall|i: int| 0 <= i < snapshot@.len() ==> valid_time((#[trigger] snapshot@[i]).time),
    ensures
        exists|now_date: Date, now_time: Time|
            valid_time(now_time) && scan_matches(snapshot@, now_date, now_time, r@),
{
    let (now_date, now_time) = now_local();
    scan(snapshot, now_date, now_time)
}

/// Law: due detection. An appointment whose instant is strictly past
/// "now" is flagged due by a scan at that "now"; one whose instant is
/// strictly in the future is not.
pub proof fn lemma_due_detection(a: Appointment, now_date: Date, now_time: Time)
    ensures
        instant_lt(a.date, a.time, now_date, now_time) ==> is_due_spec(a, now_date, now_time),
        instant_lt(now_date, now_time, a.date, a.time) ==> !is_due_spec(a, now_date, now_time),
{
}

/// Every due entry of a snapshot appears in the scan's due set.
pub proof fn lemma_due_entries_contains(
    s: Seq<Appointment>,
    now_date: Date,
    now_time: Time,
    i: int,
)
    requires
        0 <= i < s.len(),
        is_due_spec(s[i], now_date, now_time),
    ensures
        due_entries(s, now_date, now_time).contains(s[i]),
    decreases s.len(),
{
    if i == s.len() - 1 {
        let due = due_entries(s, now_date, now_time);
        assert(due.last() == s[i]);
        assert(due.contains(s[i]));
    } else {
        let t = s.drop_last();
        assert(t[i] == s[i]);
        lemma_due_entries_contains(t, now_date, now_time, i);
        let rest = due_entries(t, now_date, now_time);
        let j = choose|j: int| 0 <= j < rest.len() && rest[j] == s[i];
        if is_due_spec(s.last(), now_date, now_time) {
            assert(due_entries(s, now_date, now_time)[j] == rest[j]);
        }
    }
}

/// Conversely, the scan's due set holds only entries of the snapshot,
/// each of them due.
pub proof fn lemma_due_entries_sound(s: Seq<Appointment>, now_date: Date, now_time: Time)
    ensures
        forall|j: int|
            0 <= j < due_entries(s, now_date, now_time).len() ==> is_due_spec(
                #[trigger] due_entries(s, now_date, now_time)[j],
                now_date,
                now_time,
            ) && s.contains(due_entries(s, now_date, now_time)[j]),
    decreases s.len(),
{
    if s.len() == 0 {
    } else {
        let t = s.drop_last();
        lemma_due_entries_sound(t, now_date, now_time);
        assert forall|j: int| 0 <= j < due_entries(s, now_date, now_time).len() implies is_due_spec(
            #[trigger] due_entries(s, now_date, now_time)[j],
            now_date,
            now_time,
        ) && s.contains(due_entries(s, now_date, now_time)[j]) by {
            let due = due_entries(s, now_date, now_time);
            let rest = due_entries(t, now_date, now_time);
            if j < rest.len() {
                assert(due[j] == rest[j]);
                let k = choose|k: int| 0 <= k < t.len() && t[k] == rest[j];
                assert(s[k] == t[k]);
            } else {
                assert(due[j] == s.last());
                assert(s.contains(s.last()));
            }
        }
    }
}

/// Law: the order on instants is transitive, so an appointment once due
/// stays due as the clock moves forward.
pub proof fn lemma_instant_le_transitive(
    d1: Date,
    t1: Time,
    d2: Date,
    t2: Time,
    d3: Date,
    t3: Time,
)
    requires
        instant_le(d1, t1, d2, t2),
        instant_le(d2, t2, d3, t3),
    ensures
        instant_le(d1, t1, d3, t3),
{
}

/// Law: repeat notification. An appointment due at one scan and still
/// present in the snapshot of any scan at the same or a later "now" is
/// flagged due again by that scan.
pub proof fn lemma_due_repeats(
    a: Appointment,
    d1: Date,
    t1: Time,
    d2: Date,
    t2: Time,
    s2: Seq<Appointment>,
    i: int,
)
    requires
        is_due_spec(a, d1, t1),
        instant_le(d1, t1, d2, t2),
        0 <= i < s2.len(),
        s2[i] == a,
    ensures
        is_due_spec(a, d2, t2),
        due_entries(s2, d2, t2).contains(a),
{
    lemma_instant_le_transitive(a.date, a.time, d1, t1, d2, t2);
    lemma_due_entries_contains(s2, d2, t2, i);
}

} // verus!
