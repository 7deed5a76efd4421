//! The session reconstructor: replays the record sequence newest-first,
//! correlates logouts with logins over the terminal line, resolves how each
//! session ended from the nearest later reboot or shutdown, and renders one
//! fixed-width report line per emitted event.

use vstd::arithmetic::div_mod::lemma_mod_multiples_vanish;
use vstd::prelude::*;
use vstd::string::StrSliceExecFns;
use vstd::string::StringExecFns;

use crate::record::{Record, RecordKind, RecordView, spec_classify, wf_record};
use crate::textutil::{
    center, pad_right, push_char, spec_center, spec_pad_right, spec_trim_end, trim_end_ws,
};
use crate::timefmt::{
    Timestamp, calculate_time_delta, clock_string, duration_string, epoch_timestamp,
    spec_clock_string, spec_delta_seconds, spec_duration_string, spec_epoch,
    spec_start_time_string, start_time_string, time_ge, wf_timestamp,
};

verus! {

/// The reconstruction state of one run: the chronologically nearest reboot
/// and shutdown among the records already replayed (which lie after the
/// records still to come), and the logout records not yet matched to a login.
pub struct Last {
    pub last_reboot_ut: Option<Record>,
    pub last_shutdown_ut: Option<Record>,
    pub last_dead_ut: Vec<Record>,
    pub system: bool,
    pub time_format: String,
}

/// The mathematical image of the reconstruction state.
pub struct StateView {
    pub last_reboot: Option<RecordView>,
    pub last_shutdown: Option<RecordView>,
    pub pending_dead: Seq<RecordView>,
}

pub open spec fn opt_owned_view(o: Option<Record>) -> Option<RecordView> {
    match o {
        Some(r) => Some(r@),
        None => None,
    }
}

pub open spec fn opt_record_view(o: Option<&Record>) -> Option<RecordView> {
    match o {
        Some(r) => Some(r@),
        None => None,
    }
}

pub open spec fn opt_str_view(o: Option<&str>) -> Option<Seq<char>> {
    match o {
        Some(s) => Some(s@),
        None => None,
    }
}

impl Last {
    pub open spec fn state(&self) -> StateView {
        StateView {
            last_reboot: opt_owned_view(self.last_reboot_ut),
            last_shutdown: opt_owned_view(self.last_shutdown_ut),
            pending_dead: self.last_dead_ut.deep_view(),
        }
    }
}

pub open spec fn wf_opt_record(o: Option<RecordView>) -> bool {
    match o {
        Some(r) => wf_record(r),
        None => true,
    }
}

pub open spec fn wf_state(st: StateView) -> bool {
    &&& wf_opt_record(st.last_reboot)
    &&& wf_opt_record(st.last_shutdown)
    &&& forall|i: int| 0 <= i < st.pending_dead.len() ==> wf_record(#[trigger] st.pending_dead[i])
}

/// The host column keeps at most its first sixteen characters.
pub open spec fn spec_take16(host: Seq<char>) -> Seq<char> {
    if host.len() <= 16 {
        host
    } else {
        host.subrange(0, 16)
    }
}

/// One rendered report line: left-aligned user (8), line (12), host (16,
/// truncated), start time (12), a literal ` - ` before the end marker (8),
/// the duration centered in 6, and trailing whitespace trimmed.
pub open spec fn spec_format_line(
    user: Seq<char>,
    line: Seq<char>,
    time: Seq<char>,
    host: Seq<char>,
    end_time: Seq<char>,
    delta: Seq<char>,
) -> Seq<char> {
    spec_trim_end(
        spec_pad_right(user, 8) + " "@ + spec_pad_right(line, 12) + " "@ + spec_pad_right(
            spec_take16(host),
            16,
        ) + " "@ + spec_pad_right(time, 12) + " - "@ + spec_pad_right(end_time, 8) + " "@
            + spec_center(delta, 6),
    )
}

/// The start-time text under the configured format: the fixed short pattern,
/// or empty for an unknown format name.
pub open spec fn spec_time_text(fmt: Seq<char>, t: Timestamp) -> Seq<char> {
    if fmt == "short"@ {
        spec_start_time_string(t)
    } else {
        Seq::empty()
    }
}

/// The end-marker column: a fixed status word when one is given, else the
/// clock text of the resolved end instant under the configured format.
pub open spec fn spec_end_time_string(
    proc_status: Option<Seq<char>>,
    end: Timestamp,
    fmt: Seq<char>,
) -> Seq<char> {
    match proc_status {
        Some(v) => v,
        None => if fmt == "short"@ {
            spec_clock_string(end)
        } else {
            Seq::empty()
        },
    }
}

/// End-state resolution: a matched dead-process record closes the session at
/// its instant; with no reboot or shutdown known the session is still open;
/// otherwise the later of the two (reboot winning the comparison on a tie,
/// unknown instants standing in as the epoch) decides between `down` at the
/// shutdown and `crash` at the reboot, the fixed words shown for user
/// sessions and the clock text for system records.  The first component is
/// the end marker, the second the rendered duration.
pub open spec fn spec_end_state(
    r: RecordView,
    dead: Option<RecordView>,
    last_reboot: Option<RecordView>,
    last_shutdown: Option<RecordView>,
    fmt: Seq<char>,
) -> (Seq<char>, Seq<char>) {
    match dead {
        Some(d) => (
            spec_end_time_string(None, d.login_time, fmt),
            spec_duration_string(spec_delta_seconds(r.login_time, d.login_time)),
        ),
        None => {
            if last_reboot is None && last_shutdown is None {
                if r.is_user_process {
                    (" - still logged in"@, Seq::empty())
                } else {
                    (" - still running"@, Seq::empty())
                }
            } else {
                let reboot = match last_reboot {
                    Some(rb) => rb.login_time,
                    None => spec_epoch(),
                };
                let shutdown = match last_shutdown {
                    Some(sd) => sd.login_time,
                    None => spec_epoch(),
                };
                if time_ge(reboot, shutdown) {
                    let status = if r.is_user_process {
                        Some("down"@)
                    } else {
                        None
                    };
                    (
                        spec_end_time_string(status, shutdown, fmt),
                        spec_duration_string(spec_delta_seconds(r.login_time, shutdown)),
                    )
                } else {
                    let status = if r.is_user_process {
                        Some("crash"@)
                    } else {
                        None
                    };
                    (
                        spec_end_time_string(status, reboot, fmt),
                        spec_duration_string(spec_delta_seconds(r.login_time, reboot)),
                    )
                }
            }
        },
    }
}

/// The full line for a user-session record.
pub open spec fn spec_user_line(
    u: RecordView,
    dead: Option<RecordView>,
    last_reboot: Option<RecordView>,
    last_shutdown: Option<RecordView>,
    fmt: Seq<char>,
) -> Seq<char> {
    let es = spec_end_state(u, dead, last_reboot, last_shutdown, fmt);
    spec_format_line(u.user, u.tty_device, spec_time_text(fmt, u.login_time), u.host, es.0, es.1)
}

/// The decoded target run level: the process id modulo 256 read as a
/// character code.
pub open spec fn spec_run_level_char(pid: int) -> char {
    ((pid % 256) as u8) as char
}

/// The full line for a run-level record.
pub open spec fn spec_runlevel_line(
    r: RecordView,
    last_reboot: Option<RecordView>,
    last_shutdown: Option<RecordView>,
    fmt: Seq<char>,
) -> Seq<char> {
    let es = spec_end_state(r, None, last_reboot, last_shutdown, fmt);
    spec_format_line(
        "runlevel"@,
        "(to lvl "@ + seq![spec_run_level_char(r.pid)] + ")"@,
        spec_time_text(fmt, r.login_time),
        r.host,
        es.0,
        es.1,
    )
}

/// The full line for a shutdown record.
pub open spec fn spec_shutdown_line(
    r: RecordView,
    last_reboot: Option<RecordView>,
    last_shutdown: Option<RecordView>,
    fmt: Seq<char>,
) -> Seq<char> {
    let es = spec_end_state(r, None, last_reboot, last_shutdown, fmt);
    spec_format_line(
        "shutdown"@,
        "system down"@,
        spec_time_text(fmt, r.login_time),
        r.host,
        es.0,
        es.1,
    )
}

/// The full line for a reboot record.
pub open spec fn spec_reboot_line(
    r: RecordView,
    last_reboot: Option<RecordView>,
    last_shutdown: Option<RecordView>,
    fmt: Seq<char>,
) -> Seq<char> {
    let es = spec_end_state(r, None, last_reboot, last_shutdown, fmt);
    spec_format_line(
        "reboot"@,
        "system boot"@,
        spec_time_text(fmt, r.login_time),
        r.host,
        es.0,
        es.1,
    )
}

impl Last {
    /// Renders one fixed-width report line from the six column texts.
    pub fn print_line(
        &self,
        user: &str,
        line: &str,
        time: &str,
        host: &str,
        end_time: &str,
        delta: &str,
    ) -> (r: String)
        ensures
            r@ == spec_format_line(user@, line@, time@, host@, end_time@, delta@),
    {
        let mut buf = pad_right(user, 8);
        buf.append(" ");
        let p = pad_right(line, 12);
        buf.append(p.as_str());
        buf.append(" ");
        let host_to_print = if host.unicode_len() > 16 {
            host.substring_char(0, 16)
        } else {
            host
        };
        let p = pad_right(host_to_print, 16);
        buf.append(p.as_str());
        buf.append(" ");
        let p = pad_right(time, 12);
        buf.append(p.as_str());
        buf.append(" - ");
        let p = pad_right(end_time, 8);
        buf.append(p.as_str());
        buf.append(" ");
        let p = center(delta, 6);
        buf.append(p.as_str());
        proof {
            assert(buf@ =~= spec_pad_right(user@, 8) + " "@ + spec_pad_right(line@, 12) + " "@
                + spec_pad_right(spec_take16(host@), 16) + " "@ + spec_pad_right(time@, 12)
                + " - "@ + spec_pad_right(end_time@, 8) + " "@ + spec_center(delta@, 6));
        }
        trim_end_ws(buf.as_str())
    }

    /// The start-time column of a record under the configured format.
    pub fn time_string(&self, ut: &Record) -> (r: String)
        requires
            wf_record(ut@),
        ensures
            r@ == spec_time_text(self.time_format@, ut@.login_time),
    {
        if self.time_format == String::from_str("short") {
            start_time_string(&ut.login_time)
        } else {
            String::new()
        }
    }

    /// The end-marker column: a given status word, or the end instant's
    /// clock text.
    pub fn end_time_string(&self, user_process_str: Option<&str>, end_ut: &Timestamp) -> (r:
        String)
        requires
            wf_timestamp(*end_ut),
        ensures
            r@ == spec_end_time_string(opt_str_view(user_process_str), *end_ut, self.time_format@),
    {
        match user_process_str {
            Some(val) => String::from_str(val),
            None => {
                if self.time_format == String::from_str("short") {
                    clock_string(end_ut)
                } else {
                    String::new()
                }
            },
        }
    }

    /// Resolves how the session of `ut` ended; returns the end marker and
    /// the rendered duration.
    pub fn end_state_string(&self, ut: &Record, dead_ut: Option<&Record>) -> (r: (String, String))
        requires
            wf_record(ut@),
            wf_state(self.state()),
            match dead_ut {
                Some(d) => wf_record(d@),
                None => true,
            },
        ensures
            r.0@ == spec_end_state(
                ut@,
                opt_record_view(dead_ut),
                self.state().last_reboot,
                self.state().last_shutdown,
                self.time_format@,
            ).0,
            r.1@ == spec_end_state(
                ut@,
                opt_record_view(dead_ut),
                self.state().last_reboot,
                self.state().last_shutdown,
                self.time_format@,
            ).1,
    {
        if let Some(dead) = dead_ut {
            let time_delta = duration_string(
                calculate_time_delta(&ut.login_time, &dead.login_time),
            );
            let end = self.end_time_string(None, &dead.login_time);
            return (end, time_delta);
        }
        let reboot_datetime: Option<Timestamp> = match &self.last_reboot_ut {
            Some(reboot) => Some(reboot.login_time),
            None => None,
        };
        let shutdown_datetime: Option<Timestamp> = match &self.last_shutdown_ut {
            Some(shutdown) => Some(shutdown.login_time),
            None => None,
        };
        if reboot_datetime.is_none() && shutdown_datetime.is_none() {
            if ut.is_user_process {
                (String::from_str(" - still logged in"), String::new())
            } else {
                (String::from_str(" - still running"), String::new())
            }
        } else {
            let reboot = match reboot_datetime {
                Some(t) => t,
                None => epoch_timestamp(),
            };
            let shutdown = match shutdown_datetime {
                Some(t) => t,
                None => epoch_timestamp(),
            };
            if reboot.secs > shutdown.secs || (reboot.secs == shutdown.secs && reboot.nanos
                >= shutdown.nanos) {
                let time_delta = duration_string(calculate_time_delta(&ut.login_time, &shutdown));
                let proc_status: Option<&str> = if ut.is_user_process {
                    Some("down")
                } else {
                    None
                };
                (self.end_time_string(proc_status, &shutdown), time_delta)
            } else {
                let time_delta = duration_string(calculate_time_delta(&ut.login_time, &reboot));
                let proc_status: Option<&str> = if ut.is_user_process {
                    Some("crash")
                } else {
                    None
                };
                (self.end_time_string(proc_status, &reboot), time_delta)
            }
        }
    }

    /// The report line for a user-session record, closed by the matched
    /// dead-process record when one is given.
    pub fn print_user(&self, ut: &Record, dead_ut: Option<&Record>) -> (line: String)
        requires
            wf_record(ut@),
            wf_state(self.state()),
            match dead_ut {
                Some(d) => wf_record(d@),
                None => true,
            },
        ensures
            line@ == spec_user_line(
                ut@,
                opt_record_view(dead_ut),
                self.state().last_reboot,
                self.state().last_shutdown,
                self.time_format@,
            ),
    {
        let (end_date, delta) = self.end_state_string(ut, dead_ut);
        let ts = self.time_string(ut);
        self.print_line(
            ut.user.as_str(),
            ut.tty_device.as_str(),
            ts.as_str(),
            ut.host.as_str(),
            end_date.as_str(),
            delta.as_str(),
        )
    }

    /// The report line for a run-level record, emitted only when system
    /// events are shown.
    pub fn print_runlevel(&self, ut: &Record) -> (res: Option<String>)
        requires
            wf_record(ut@),
            wf_state(self.state()),
        ensures
            match res {
                Some(line) => self.system && line@ == spec_runlevel_line(
                    ut@,
                    self.state().last_reboot,
                    self.state().last_shutdown,
                    self.time_format@,
                ),
                None => !self.system,
            },
    {
        if self.system {
            let p: i64 = ut.pid as i64;
            let adjusted: i64 = if p < 0 {
                p + 4294967296
            } else {
                p
            };
            let code: u8 = ((adjusted as u64) % 256) as u8;
            let curr: char = code as char;
            proof {
                if p < 0 {
                    lemma_mod_multiples_vanish(16777216, ut.pid as int, 256);
                    assert(256 * 16777216 + ut@.pid == adjusted as int);
                }
                assert(code as int == (ut@.pid % 256));
            }
            let mut runlvline = String::from_str("(to lvl ");
            push_char(&mut runlvline, curr);
            runlvline.append(")");
            proof {
                assert(runlvline@ =~= "(to lvl "@ + seq![spec_run_level_char(ut@.pid)] + ")"@);
            }
            let (end_date, delta) = self.end_state_string(ut, None);
            let ts = self.time_string(ut);
            Some(
                self.print_line(
                    "runlevel",
                    runlvline.as_str(),
                    ts.as_str(),
                    ut.host.as_str(),
                    end_date.as_str(),
                    delta.as_str(),
                ),
            )
        } else {
            None
        }
    }

    /// The report line for a shutdown record, emitted only when system
    /// events are shown.
    pub fn print_shutdown(&self, ut: &Record) -> (res: Option<String>)
        requires
            wf_record(ut@),
            wf_state(self.state()),
        ensures
            match res {
                Some(line) => self.system && line@ == spec_shutdown_line(
                    ut@,
                    self.state().last_reboot,
                    self.state().last_shutdown,
                    self.time_format@,
                ),
                None => !self.system,
            },
    {
        if self.system {
            let (end_date, delta) = self.end_state_string(ut, None);
            let ts = self.time_string(ut);
            Some(
                self.print_line(
                    "shutdown",
                    "system down",
                    ts.as_str(),
                    ut.host.as_str(),
                    end_date.as_str(),
                    delta.as_str(),
                ),
            )
        } else {
            None
        }
    }

    /// The report line for a reboot record; always emitted.
    pub fn print_reboot(&self, ut: &Record) -> (line: String)
        requires
            wf_record(ut@),
            wf_state(self.state()),
        ensures
            line@ == spec_reboot_line(
                ut@,
                self.state().last_reboot,
                self.state().last_shutdown,
                self.time_format@,
            ),
    {
        let (end_date, delta) = self.end_state_string(ut, None);
        let ts = self.time_string(ut);
        self.print_line(
            "reboot",
            "system boot",
            ts.as_str(),
            ut.host.as_str(),
            end_date.as_str(),
            delta.as_str(),
        )
    }
}

/// First index at or after `i` of a pending dead-process record whose
/// terminal line equals `tty`.
pub open spec fn find_dead_from(pending: Seq<RecordView>, tty: Seq<char>, i: int) -> Option<int>
    decreases pending.len() - i,
{
    if i < 0 || i >= pending.len() {
        None
    } else if pending[i].tty_device == tty {
        Some(i)
    } else {
        find_dead_from(pending, tty, i + 1)
    }
}

/// First index of a pending dead-process record for terminal `tty`.
pub open spec fn find_dead(pending: Seq<RecordView>, tty: Seq<char>) -> Option<int> {
    find_dead_from(pending, tty, 0)
}

/// Removal by swapping in the final element, as `Vec::swap_remove` does.
pub open spec fn seq_swap_remove(s: Seq<RecordView>, i: int) -> Seq<RecordView>
    recommends
        0 <= i < s.len(),
{
    s.update(i, s.last()).drop_last()
}

fn position_of_tty(v: &Vec<Record>, tty: &String) -> (r: Option<usize>)
    ensures
        match r {
            Some(i) => i < v@.len() && find_dead(v.deep_view(), tty@) == Some(i as int),
            None => find_dead(v.deep_view(), tty@) is None,
        },
{
    let n = v.len();
    let mut i: usize = 0;
    while i < n
        invariant
            n == v@.len(),
            i <= n,
            find_dead_from(v.deep_view(), tty@, 0) == find_dead_from(v.deep_view(), tty@, i as int),
        decreases n - i,
    {
        proof {
            assert(v.deep_view()[i as int] == v@[i as int]@);
        }
        if v[i].tty_device == *tty {
            return Some(i);
        }
        i = i + 1;
    }
    None
}

/// One replay step: the state after a record and the lines it emits.  A
/// user-session record consumes at most one pending dead-process record for
/// its terminal and always emits its line; run-level and shutdown lines are
/// gated by `system`; shutdown and reboot records then become the tracked
/// nearest shutdown and reboot; a dead-process record is only stored; any
/// other record is dropped.
pub open spec fn spec_step(st: StateView, r: RecordView, system: bool, fmt: Seq<char>) -> (
    StateView,
    Seq<Seq<char>>,
) {
    match spec_classify(r) {
        RecordKind::UserSession => match find_dead(st.pending_dead, r.tty_device) {
            Some(i) => (
                StateView {
                    last_reboot: st.last_reboot,
                    last_shutdown: st.last_shutdown,
                    pending_dead: seq_swap_remove(st.pending_dead, i),
                },
                seq![
                    spec_user_line(
                        r,
                        Some(st.pending_dead[i]),
                        st.last_reboot,
                        st.last_shutdown,
                        fmt,
                    ),
                ],
            ),
            None => (
                st,
                seq![spec_user_line(r, None, st.last_reboot, st.last_shutdown, fmt)],
            ),
        },
        RecordKind::RunLevelChange => (
            st,
            if system {
                seq![spec_runlevel_line(r, st.last_reboot, st.last_shutdown, fmt)]
            } else {
                Seq::empty()
            },
        ),
        RecordKind::Shutdown => (
            StateView {
                last_reboot: st.last_reboot,
                last_shutdown: Some(r),
                pending_dead: st.pending_dead,
            },
            if system {
                seq![spec_shutdown_line(r, st.last_reboot, st.last_shutdown, fmt)]
            } else {
                Seq::empty()
            },
        ),
        RecordKind::Reboot => (
            StateView {
                last_reboot: Some(r),
                last_shutdown: st.last_shutdown,
                pending_dead: st.pending_dead,
            },
            seq![spec_reboot_line(r, st.last_reboot, st.last_shutdown, fmt)],
        ),
        RecordKind::DeadProcess => (
            StateView {
                last_reboot: st.last_reboot,
                last_shutdown: st.last_shutdown,
                pending_dead: st.pending_dead.push(r),
            },
            Seq::empty(),
        ),
        RecordKind::Other => (st, Seq::empty()),
    }
}

/// The whole report: the records replayed from the newest (the sequence's
/// end) to the oldest, each step's lines in replay order.
pub open spec fn spec_run(
    records: Seq<RecordView>,
    st: StateView,
    system: bool,
    fmt: Seq<char>,
) -> Seq<Seq<char>>
    decreases records.len(),
{
    if records.len() == 0 {
        Seq::empty()
    } else {
        let sr = spec_step(st, records.last(), system, fmt);
        sr.1 + spec_run(records.drop_last(), sr.0, system, fmt)
    }
}

impl Last {
    /// Replays the whole record sequence, newest first, and returns the
    /// report lines in the order they are to be shown.
    pub fn exec(&mut self, records: Vec<Record>) -> (lines: Vec<String>)
        requires
            wf_state(old(self).state()),
            forall|i: int|
                0 <= i < records.deep_view().len() ==> wf_record(#[trigger] records.deep_view()[i]),
        ensures
            lines.deep_view() == spec_run(
                records.deep_view(),
                old(self).state(),
                old(self).system,
                old(self).time_format@,
            ),
            final(self).system == old(self).system,
            final(self).time_format@ == old(self).time_format@,
    {
        let ghost gsys = self.system;
        let ghost gfmt = self.time_format@;
        let ghost total = spec_run(records.deep_view(), self.state(), gsys, gfmt);
        let mut ut_stack = records;
        let mut lines: Vec<String> = Vec::new();
        proof {
            assert(lines.deep_view() =~= Seq::<Seq<char>>::empty());
            assert(lines.deep_view() + spec_run(ut_stack.deep_view(), self.state(), gsys, gfmt)
                =~= total);
        }
        while ut_stack.len() > 0
            invariant
                wf_state(self.state()),
                forall|i: int|
                    0 <= i < ut_stack.deep_view().len() ==> wf_record(
                        #[trigger] ut_stack.deep_view()[i],
                    ),
                self.system == gsys,
                self.time_format@ == gfmt,
                lines.deep_view() + spec_run(ut_stack.deep_view(), self.state(), gsys, gfmt)
                    == total,
            decreases ut_stack.len(),
        {
            let ghost pre_stack = ut_stack.deep_view();
            let ghost pre_state = self.state();
            let ghost pre_lines = lines.deep_view();
            let ut = ut_stack.pop().unwrap();
            proof {
                assert(ut_stack.deep_view() =~= pre_stack.drop_last());
                assert(pre_stack[pre_stack.len() - 1] == ut@);
                assert(wf_record(ut@));
            }
            let ghost sr = spec_step(pre_state, ut@, gsys, gfmt);
            if ut.is_user_process {
                let pos = position_of_tty(&self.last_dead_ut, &ut.tty_device);
                let mut dead_proc: Option<Record> = None;
                match pos {
                    Some(p) => {
                        proof {
                            assert(pre_state.pending_dead[p as int] == self.last_dead_ut@[
                                p as int]@);
                        }
                        let removed = self.last_dead_ut.swap_remove(p);
                        proof {
                            assert(self.last_dead_ut.deep_view() =~= seq_swap_remove(
                                pre_state.pending_dead,
                                p as int,
                            ));
                            assert(wf_record(removed@));
                            assert forall|i: int|
                                0 <= i < self.last_dead_ut.deep_view().len() implies wf_record(
                                #[trigger] self.last_dead_ut.deep_view()[i],
                            ) by {
                                assert(self.last_dead_ut.deep_view()[i] == seq_swap_remove(
                                    pre_state.pending_dead,
                                    p as int,
                                )[i]);
                            }
                        }
                        dead_proc = Some(removed);
                    },
                    None => {},
                }
                let dead_ref = dead_proc.as_ref();
                let line = self.print_user(&ut, dead_ref);
                lines.push(line);
                proof {
                    assert(spec_classify(ut@) == RecordKind::UserSession);
                    assert(self.state().last_reboot == pre_state.last_reboot);
                    assert(self.state().last_shutdown == pre_state.last_shutdown);
                    match pos {
                        Some(p) => {
                            assert(opt_record_view(dead_ref) == Some(
                                pre_state.pending_dead[p as int],
                            ));
                            assert(sr.1 =~= seq![line@]);
                            assert(self.state().pending_dead == sr.0.pending_dead);
                        },
                        None => {
                            assert(opt_record_view(dead_ref) is None);
                            assert(sr.1 =~= seq![line@]);
                            assert(self.state().pending_dead == sr.0.pending_dead);
                        },
                    }
                    assert(self.state() == sr.0);
                    assert(lines.deep_view() =~= pre_lines + sr.1);
                }
            } else if ut.user == String::from_str("runlevel") {
                let res = self.print_runlevel(&ut);
                match res {
                    Some(line) => {
                        lines.push(line);
                        proof {
                            assert(lines.deep_view() =~= pre_lines + sr.1);
                        }
                    },
                    None => {
                        proof {
                            assert(sr.1 =~= Seq::<Seq<char>>::empty());
                            assert(lines.deep_view() =~= pre_lines + sr.1);
                        }
                    },
                }
                proof {
                    assert(spec_classify(ut@) == RecordKind::RunLevelChange);
                    assert(self.state() == sr.0);
                }
            } else if ut.user == String::from_str("shutdown") {
                let res = self.print_shutdown(&ut);
                self.last_shutdown_ut = Some(ut);
                match res {
                    Some(line) => {
                        lines.push(line);
                        proof {
                            assert(lines.deep_view() =~= pre_lines + sr.1);
                        }
                    },
                    None => {
                        proof {
                            assert(sr.1 =~= Seq::<Seq<char>>::empty());
                            assert(lines.deep_view() =~= pre_lines + sr.1);
                        }
                    },
                }
                proof {
                    assert(self.state() == sr.0);
                }
            } else if ut.user == String::from_str("reboot") {
                let line = self.print_reboot(&ut);
                self.last_reboot_ut = Some(ut);
                lines.push(line);
                proof {
                    assert(sr.1 =~= seq![line@]);
                    assert(self.state() == sr.0);
                    assert(lines.deep_view() =~= pre_lines + sr.1);
                }
            } else if ut.user.as_str().is_empty() {
                self.last_dead_ut.push(ut);
                proof {
                    assert(self.last_dead_ut.deep_view() =~= pre_state.pending_dead.push(ut@));
                    assert(self.state() == sr.0);
                    assert(sr.1 =~= Seq::<Seq<char>>::empty());
                    assert(lines.deep_view() =~= pre_lines + sr.1);
                }
            } else {
                proof {
                    assert(spec_classify(ut@) == RecordKind::Other);
                    assert(self.state() == sr.0);
                    assert(sr.1 =~= Seq::<Seq<char>>::empty());
                    assert(lines.deep_view() =~= pre_lines + sr.1);
                }
            }
            proof {
                assert(spec_run(pre_stack, pre_state, gsys, gfmt) == sr.1 + spec_run(
                    pre_stack.drop_last(),
                    sr.0,
                    gsys,
                    gfmt,
                ));
                assert((pre_lines + sr.1) + spec_run(ut_stack.deep_view(), self.state(), gsys, gfmt)
                    =~= pre_lines + (sr.1 + spec_run(ut_stack.deep_view(), self.state(), gsys,
                gfmt)));
                assert(lines.deep_view() + spec_run(ut_stack.deep_view(), self.state(), gsys, gfmt)
                    == total);
            }
        }
        proof {
            assert(ut_stack.deep_view().len() == 0);
            assert(spec_run(ut_stack.deep_view(), self.state(), gsys, gfmt)
                =~= Seq::<Seq<char>>::empty());
            assert(lines.deep_view() =~= total);
        }
        lines
    }
}

} // verus!
