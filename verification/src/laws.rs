//! Laws of the reconstructor, stated over the replay specification and
//! proved once for every input.

use vstd::prelude::*;

use crate::record::{RecordKind, RecordView, spec_classify};
use crate::reconstruct::{
    StateView, find_dead_from, seq_swap_remove, spec_end_state, spec_end_time_string,
    spec_format_line, spec_run, spec_step, spec_time_text, spec_user_line,
};
use crate::timefmt::{Timestamp, spec_delta_seconds, spec_duration_string, time_ge};

verus! {

proof fn lemma_find_dead_at(pending: Seq<RecordView>, tty: Seq<char>, k: int, i: int)
    requires
        0 <= k <= i < pending.len(),
        pending[i].tty_device == tty,
        forall|j: int| k <= j < i ==> (#[trigger] pending[j]).tty_device != tty,
    ensures
        find_dead_from(pending, tty, k) == Some(i),
    decreases i - k,
{
    if k < i {
        lemma_find_dead_at(pending, tty, k + 1, i);
    }
}

proof fn lemma_find_dead_none(pending: Seq<RecordView>, tty: Seq<char>, k: int)
    requires
        0 <= k,
        forall|j: int| k <= j < pending.len() ==> (#[trigger] pending[j]).tty_device != tty,
    ensures
        find_dead_from(pending, tty, k) is None,
    decreases pending.len() - k,
{
    if k < pending.len() {
        lemma_find_dead_none(pending, tty, k + 1);
    }
}

/// A user-session record is matched with the one pending dead-process
/// record that shares its terminal line: the emitted line is the session's
/// line closed by that record, the reported duration is the difference of
/// the two login times, that record alone leaves the pending collection,
/// and the tracked reboot and shutdown are untouched.  Afterwards no
/// pending record for this terminal remains.
pub proof fn lemma_dead_process_match(
    st: StateView,
    u: RecordView,
    system: bool,
    fmt: Seq<char>,
    i: int,
)
    requires
        spec_classify(u) == RecordKind::UserSession,
        0 <= i < st.pending_dead.len(),
        st.pending_dead[i].tty_device == u.tty_device,
        forall|j: int|
            0 <= j < st.pending_dead.len() && j != i ==> (
            #[trigger] st.pending_dead[j]).tty_device != u.tty_device,
    ensures
        spec_step(st, u, system, fmt).1 == seq![
            spec_user_line(u, Some(st.pending_dead[i]), st.last_reboot, st.last_shutdown, fmt),
        ],
        spec_end_state(u, Some(st.pending_dead[i]), st.last_reboot, st.last_shutdown, fmt).1
            == spec_duration_string(
            spec_delta_seconds(u.login_time, st.pending_dead[i].login_time),
        ),
        spec_step(st, u, system, fmt).0.pending_dead == seq_swap_remove(st.pending_dead, i),
        spec_step(st, u, system, fmt).0.last_reboot == st.last_reboot,
        spec_step(st, u, system, fmt).0.last_shutdown == st.last_shutdown,
        forall|j: int|
            0 <= j < spec_step(st, u, system, fmt).0.pending_dead.len() ==> (#[trigger] spec_step(
                st,
                u,
                system,
                fmt,
            ).0.pending_dead[j]).tty_device != u.tty_device,
{
    lemma_find_dead_at(st.pending_dead, u.tty_device, 0, i);
    let remaining = seq_swap_remove(st.pending_dead, i);
    assert forall|j: int| 0 <= j < remaining.len() implies (
    #[trigger] remaining[j]).tty_device != u.tty_device by {
        if j == i {
            assert(remaining[j] == st.pending_dead[st.pending_dead.len() - 1]);
        } else {
            assert(remaining[j] == st.pending_dead[j]);
        }
    }
}

/// On a tie between the tracked reboot and shutdown instants the comparison
/// favours the reboot, which sends resolution down the shutdown branch: a
/// user session is marked `down`, a system record shows the shutdown's
/// clock text, and the duration runs to the shared instant, so it equals
/// the duration to the reboot as well.
pub proof fn lemma_reboot_shutdown_tie(
    r: RecordView,
    rb: RecordView,
    sd: RecordView,
    fmt: Seq<char>,
)
    requires
        rb.login_time.secs == sd.login_time.secs,
        rb.login_time.nanos == sd.login_time.nanos,
    ensures
        r.is_user_process ==> spec_end_state(r, None, Some(rb), Some(sd), fmt).0 == "down"@,
        !r.is_user_process ==> spec_end_state(r, None, Some(rb), Some(sd), fmt).0
            == spec_end_time_string(None, sd.login_time, fmt),
        spec_end_state(r, None, Some(rb), Some(sd), fmt).1 == spec_duration_string(
            spec_delta_seconds(r.login_time, sd.login_time),
        ),
        spec_delta_seconds(r.login_time, sd.login_time) == spec_delta_seconds(
            r.login_time,
            rb.login_time,
        ),
{
    assert(time_ge(rb.login_time, sd.login_time));
}

/// Replaying the same immutable record sequence from the same starting
/// state twice yields the identical report: the output is a function of
/// the input alone.
pub proof fn lemma_rerun_identical(
    records: Seq<RecordView>,
    st: StateView,
    system: bool,
    fmt: Seq<char>,
    out1: Seq<Seq<char>>,
    out2: Seq<Seq<char>>,
)
    requires
        out1 == spec_run(records, st, system, fmt),
        out2 == spec_run(records, st, system, fmt),
    ensures
        out1 == out2,
{
}

/// A user-session record with no pending dead-process record for its
/// terminal, and no reboot or shutdown seen yet, is still open: its line
/// carries the end marker ` - still logged in` and an empty duration, and
/// the state is unchanged.
pub proof fn lemma_still_logged_in(st: StateView, u: RecordView, system: bool, fmt: Seq<char>)
    requires
        spec_classify(u) == RecordKind::UserSession,
        forall|j: int|
            0 <= j < st.pending_dead.len() ==> (#[trigger] st.pending_dead[j]).tty_device
                != u.tty_device,
        st.last_reboot is None,
        st.last_shutdown is None,
    ensures
        spec_step(st, u, system, fmt).1 == seq![
            spec_format_line(
                u.user,
                u.tty_device,
                spec_time_text(fmt, u.login_time),
                u.host,
                " - still logged in"@,
                Seq::empty(),
            ),
        ],
        spec_step(st, u, system, fmt).0 == st,
{
    lemma_find_dead_none(st.pending_dead, u.tty_device, 0);
    assert(u.is_user_process);
}

/// Whether a record's step emits a report line; this depends only on the
/// record's kind and the system-events switch.
pub open spec fn spec_step_emits(r: RecordView, system: bool) -> bool {
    match spec_classify(r) {
        RecordKind::UserSession => true,
        RecordKind::RunLevelChange => system,
        RecordKind::Shutdown => system,
        RecordKind::Reboot => true,
        RecordKind::DeadProcess => false,
        RecordKind::Other => false,
    }
}

/// The records whose steps emit report lines, in the order their lines
/// appear in the report.
pub open spec fn spec_run_sources(records: Seq<RecordView>, system: bool) -> Seq<RecordView>
    decreases records.len(),
{
    if records.len() == 0 {
        Seq::empty()
    } else {
        let head = if spec_step_emits(records.last(), system) {
            seq![records.last()]
        } else {
            Seq::<RecordView>::empty()
        };
        head + spec_run_sources(records.drop_last(), system)
    }
}

/// `a` is no later than `b` as an instant.
pub open spec fn time_le(a: Timestamp, b: Timestamp) -> bool {
    time_ge(b, a)
}

/// Chronological order, as an append-only log provides it.
pub open spec fn sorted_by_time(records: Seq<RecordView>) -> bool {
    forall|a: int, b: int|
        0 <= a <= b < records.len() ==> time_le(
            (#[trigger] records[a]).login_time,
            (#[trigger] records[b]).login_time,
        )
}

/// Non-increasing login times, newest first.
pub open spec fn reverse_sorted_by_time(s: Seq<RecordView>) -> bool {
    forall|a: int, b: int|
        0 <= a <= b < s.len() ==> time_ge(
            (#[trigger] s[a]).login_time,
            (#[trigger] s[b]).login_time,
        )
}

/// Every step emits exactly one line when its record is an emitting one,
/// none otherwise, so the report has exactly one line per source record.
pub proof fn lemma_lines_match_sources(
    records: Seq<RecordView>,
    st: StateView,
    system: bool,
    fmt: Seq<char>,
)
    ensures
        spec_run(records, st, system, fmt).len() == spec_run_sources(records, system).len(),
    decreases records.len(),
{
    if records.len() > 0 {
        let sr = spec_step(st, records.last(), system, fmt);
        lemma_lines_match_sources(records.drop_last(), sr.0, system, fmt);
    }
}

/// With the input in chronological order, the originating records of
/// successive report lines carry non-increasing login times: the report
/// reads newest first, ties resolved by the replay order.
pub proof fn lemma_output_newest_first(records: Seq<RecordView>, system: bool)
    requires
        sorted_by_time(records),
    ensures
        reverse_sorted_by_time(spec_run_sources(records, system)),
        spec_run_sources(records, system).len() > 0 ==> records.len() > 0 && time_le(
            spec_run_sources(records, system)[0].login_time,
            records.last().login_time,
        ),
    decreases records.len(),
{
    if records.len() > 0 {
        let rest = records.drop_last();
        assert forall|a: int, b: int| 0 <= a <= b < rest.len() implies time_le(
            (#[trigger] rest[a]).login_time,
            (#[trigger] rest[b]).login_time,
        ) by {
            assert(rest[a] == records[a]);
            assert(rest[b] == records[b]);
        }
        lemma_output_newest_first(rest, system);
        let srcs = spec_run_sources(records, system);
        let sub = spec_run_sources(rest, system);
        if rest.len() > 0 {
            assert(rest.last() == records[records.len() - 2]);
            assert(time_le(rest.last().login_time, records.last().login_time));
        }
        if spec_step_emits(records.last(), system) {
            assert(srcs =~= seq![records.last()] + sub);
            assert(srcs[0] == records.last());
            assert forall|a: int, b: int| 0 <= a <= b < srcs.len() implies time_ge(
                (#[trigger] srcs[a]).login_time,
                (#[trigger] srcs[b]).login_time,
            ) by {
                if a >= 1 {
                    assert(srcs[a] == sub[a - 1]);
                    assert(srcs[b] == sub[b - 1]);
                } else if b >= 1 {
                    assert(srcs[b] == sub[b - 1]);
                    assert(sub.len() > 0);
                    assert(time_le(sub[0].login_time, rest.last().login_time));
                    assert(time_ge(sub[0].login_time, sub[b - 1].login_time));
                }
            }
        } else {
            assert(srcs =~= sub);
            if srcs.len() > 0 {
                assert(srcs[0] == sub[0]);
            }
        }
    }
}

} // verus!
