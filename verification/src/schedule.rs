//! The download scheduler: downloads run inside a daily time window and are
//! paused outside it.
use vstd::prelude::*;
use crate::aria2::{Call, Download, DownloadV, downloads_view};
use crate::settings::{Settings, texts, push_text};
use crate::text::{chars_of, slice_string, parse_u64, parse_u64_spec};
use crate::text::{decimal, is_digit, lemma_decimal_digits, lemma_parse_decimal_roundtrip};
use chrono::Timelike;

verus! {

/// What `str::parse::<u32>` gives for `s`.
pub open spec fn parse_u32_spec(s: Seq<char>) -> Option<u32> {
    match parse_u64_spec(s) {
        Some(n) => if n <= u32::MAX {
            Some(n as u32)
        } else {
            None
        },
        None => None,
    }
}

/// Parses `s` as `str::parse::<u32>` does.
pub fn parse_u32(s: &str) -> (r: Option<u32>)
    ensures
        r == parse_u32_spec(s@),
{
    match parse_u64(s) {
        Some(n) => if n <= u32::MAX as u64 {
            Some(n as u32)
        } else {
            None
        },
        None => None,
    }
}

/// The index of the first `:` in `s`, or its length.
pub open spec fn colon_at(s: Seq<char>) -> int
    decreases s.len(),
{
    if s.len() == 0 || s[0] == ':' {
        0
    } else {
        1 + colon_at(s.drop_first())
    }
}

proof fn lemma_colon_at_unique(s: Seq<char>, k: int)
    requires
        0 <= k <= s.len(),
        forall|j: int| 0 <= j < k ==> #[trigger] s[j] != ':',
        k < s.len() ==> s[k] == ':',
    ensures
        colon_at(s) == k,
    decreases s.len(),
{
    if k > 0 {
        assert forall|j: int| 0 <= j < k - 1 implies #[trigger] s.drop_first()[j] != ':' by {
            assert(s.drop_first()[j] == s[j + 1]);
        }
        lemma_colon_at_unique(s.drop_first(), k - 1);
    }
}

/// The hours of an `HH:MM` text: what comes before the first `:`, as a
/// number, or 0 when that is no number.
pub open spec fn clock_hours(s: Seq<char>) -> int {
    match parse_u32_spec(s.take(colon_at(s))) {
        Some(h) => h as int,
        None => 0,
    }
}

/// The minutes of an `HH:MM` text: what comes after the first `:`, as a
/// number, or 0 when there is no `:` or that is no number.
pub open spec fn clock_mins(s: Seq<char>) -> int {
    if colon_at(s) < s.len() {
        match parse_u32_spec(s.skip(colon_at(s) + 1)) {
            Some(m) => m as int,
            None => 0,
        }
    } else {
        0
    }
}

/// The minute of the day that an `HH:MM` text denotes: hours times 60 plus
/// minutes, without any bound.
pub open spec fn clock_value(s: Seq<char>) -> int {
    clock_hours(s) * 60 + clock_mins(s)
}

/// Whether the minute count of `s` fits in a `u32`, so that computing it does
/// not overflow.
pub open spec fn clock_fits(s: Seq<char>) -> bool {
    clock_hours(s) * 60 <= u32::MAX && clock_value(s) <= u32::MAX
}

/// The minute of the day that the `HH:MM` text `s` denotes, or nothing when
/// computing it overflows a `u32`.
pub fn clock_minutes(s: &str) -> (r: Option<u32>)
    ensures
        match r {
            Some(n) => clock_fits(s@) && n == clock_value(s@),
            None => !clock_fits(s@),
        },
{
    let v = chars_of(s);
    let mut k: usize = 0;
    while k < v.len() && v[k] != ':'
        invariant
            k <= v.len(),
            forall|j: int| 0 <= j < k ==> #[trigger] v@[j] != ':',
        decreases v.len() - k,
    {
        k = k + 1;
    }
    proof {
        lemma_colon_at_unique(s@, k as int);
    }
    let head = slice_string(&v, 0, k);
    assert(head@ =~= s@.take(k as int));
    let h: u32 = match parse_u32(head.as_str()) {
        Some(h) => h,
        None => 0,
    };
    let m: u32 = if k < v.len() {
        let rest = slice_string(&v, k + 1, v.len());
        assert(rest@ =~= s@.skip(k + 1));
        match parse_u32(rest.as_str()) {
            Some(m) => m,
            None => 0,
        }
    } else {
        0
    };
    if h > u32::MAX / 60 {
        return None;
    }
    let hm = h * 60;
    if hm > u32::MAX - m {
        return None;
    }
    Some(hm + m)
}

/// Law: the text `H:M`, with `H` and `M` written in decimal, denotes minute
/// `H * 60 + M` of the day; the text `H` alone denotes `H * 60`.
pub proof fn lemma_clock_text(h: u32, m: u32)
    ensures
        clock_value(decimal(h as nat) + seq![':'] + decimal(m as nat)) == h * 60 + m,
        clock_value(decimal(h as nat)) == h * 60,
{
    let dh = decimal(h as nat);
    let dm = decimal(m as nat);
    let t = dh + seq![':'] + dm;
    lemma_decimal_digits(h as nat);
    lemma_decimal_digits(m as nat);
    lemma_parse_decimal_roundtrip(h as u64);
    lemma_parse_decimal_roundtrip(m as u64);
    assert forall|j: int| 0 <= j < dh.len() implies #[trigger] t[j] != ':' by {
        assert(t[j] == dh[j]);
        assert(is_digit(dh[j]));
    }
    lemma_colon_at_unique(t, dh.len() as int);
    assert(t.take(dh.len() as int) =~= dh);
    assert(t.skip(dh.len() + 1int) =~= dm);
    assert forall|j: int| 0 <= j < dh.len() implies #[trigger] dh[j] != ':' by {
        assert(is_digit(dh[j]));
    }
    lemma_colon_at_unique(dh, dh.len() as int);
    assert(dh.take(dh.len() as int) =~= dh);
}

/// Whether minute `now` of the day lies in the window from `start` up to,
/// not including, `stop`; a window whose stop comes before its start runs
/// over midnight.
pub open spec fn window_contains_v(now: int, start: int, stop: int) -> bool {
    if start <= stop {
        start <= now < stop
    } else {
        now >= start || now < stop
    }
}

/// Whether minute `now` lies in the window from `start` to `stop`.
pub fn window_contains(now: u32, start: u32, stop: u32) -> (r: bool)
    ensures
        r == window_contains_v(now as int, start as int, stop as int),
{
    if start <= stop {
        now >= start && now < stop
    } else {
        now >= start || now < stop
    }
}

/// Law: for distinct bounds, the window from `stop` to `start` holds exactly
/// the minutes that the window from `start` to `stop` leaves out.
pub proof fn lemma_window_complement(now: int, start: int, stop: int)
    requires
        start != stop,
    ensures
        window_contains_v(now, start, stop) == !window_contains_v(now, stop, start),
{
}

/// Law: a window that stops when it starts holds no minute.
pub proof fn lemma_window_empty(now: int, t: int)
    ensures
        !window_contains_v(now, t, t),
{
}

/// Declares chrono's date and time without time zone to the verifier.
#[verifier::external_type_specification]
#[verifier::external_body]
pub struct ExNaiveDateTime(chrono::NaiveDateTime);

/// The current local date and time.
///
/// Calls `chrono::Local::now` and keeps its local date and time (its
/// `naive_local` form); nothing is stated of the result, which changes from
/// call to call.
#[verifier::external_body]
fn local_now() -> chrono::NaiveDateTime {
    chrono::Local::now().naive_local()
}

/// The hour of a local date and time.
///
/// Calls `Timelike::hour`, which chrono documents as returning the hour
/// number from 0 to 23.
#[verifier::external_body]
fn hour_of(t: &chrono::NaiveDateTime) -> (r: u32)
    ensures
        r < 24,
{
    t.hour()
}

/// The minute of a local date and time.
///
/// Calls `Timelike::minute`, which chrono documents as returning the minute
/// number from 0 to 59.
#[verifier::external_body]
fn minute_of(t: &chrono::NaiveDateTime) -> (r: u32)
    ensures
        r < 60,
{
    t.minute()
}

/// Whether the time `h`:`m` lies in the window between the `HH:MM` texts
/// `start` and `stop`.
pub open spec fn in_window_v(h: int, m: int, start: Seq<char>, stop: Seq<char>) -> bool {
    window_contains_v(h * 60 + m, clock_value(start), clock_value(stop))
}

/// Whether the local time `hour`:`minute` lies in the window from `start` to
/// `stop` (both `HH:MM`).
pub fn in_window_at(hour: u32, minute: u32, start: &str, stop: &str) -> (r: bool)
    requires
        hour < 24,
        minute < 60,
        clock_fits(start@),
        clock_fits(stop@),
    ensures
        r == window_contains_v(hour * 60 + minute, clock_value(start@), clock_value(stop@)),
{
    let now = hour * 60 + minute;
    let s = match clock_minutes(start) {
        Some(s) => s,
        None => 0,
    };
    let e = match clock_minutes(stop) {
        Some(e) => e,
        None => 0,
    };
    window_contains(now, s, e)
}

/// Whether the current local time lies in the window from `start` to
/// `stop` (both `HH:MM`): `in_window_at` applied to the hour and minute that
/// the clock gives.
pub fn time_in_window(start: &str, stop: &str) -> (r: bool)
    requires
        clock_fits(start@),
        clock_fits(stop@),
    ensures
        exists|h: int, m: int|
            0 <= h < 24 && 0 <= m < 60 && r == #[trigger] in_window_v(h, m, start@, stop@),
{
    let t = local_now();
    let h = hour_of(&t);
    let m = minute_of(&t);
    let r = in_window_at(h, m, start, stop);
    assert(0 <= h < 24 && 0 <= m < 60 && r == in_window_v(h as int, m as int, start@, stop@));
    r
}

/// Whether the scheduler's window holds the current time: nothing when the
/// scheduler is off (its texts are then not read at all).
pub fn scheduler_window(s: &Settings) -> (r: Option<bool>)
    requires
        s.scheduler_enabled ==> clock_fits(s.schedule_start@) && clock_fits(s.schedule_stop@),
    ensures
        !s.scheduler_enabled ==> r is None,
        s.scheduler_enabled ==> r is Some && exists|h: int, m: int|
            0 <= h < 24 && 0 <= m < 60 && r->0 == #[trigger] in_window_v(
                h,
                m,
                s.schedule_start@,
                s.schedule_stop@,
            ),
{
    if !s.scheduler_enabled {
        return None;
    }
    Some(time_in_window(s.schedule_start.as_str(), s.schedule_stop.as_str()))
}

/// What the scheduler remembers between its checks: the downloads that it
/// paused itself, which are the only ones it resumes.
pub struct SchedulerState {
    pub paused: Vec<String>,
}

impl SchedulerState {
    /// The state before the first check: nothing paused by the scheduler.
    pub fn new() -> (r: SchedulerState)
        ensures
            r.paused@.len() == 0,
    {
        SchedulerState { paused: Vec::new() }
    }
}

/// Whether a download in this aria2 status runs or waits to run, so that
/// pausing it stops it.
pub open spec fn is_running(status: Seq<char>) -> bool {
    status == "active"@ || status == "waiting"@
}

/// The gids of the downloads that run or wait, in order.
pub open spec fn running_gids(ds: Seq<DownloadV>) -> Seq<Seq<char>>
    decreases ds.len(),
{
    if ds.len() == 0 {
        Seq::empty()
    } else {
        running_gids(ds.drop_last()) + if is_running(ds.last().status) {
            seq![ds.last().gid]
        } else {
            Seq::empty()
        }
    }
}

/// The downloads that a check resumes: inside the window, exactly those the
/// scheduler paused itself; none otherwise.
pub open spec fn resumed_now(old: Seq<Seq<char>>, enabled: bool, in_window: bool) -> Seq<Seq<char>> {
    if enabled && in_window {
        old
    } else {
        Seq::empty()
    }
}

/// The downloads that the scheduler remembers as paused by itself after a
/// check.
pub open spec fn paused_after(
    old: Seq<Seq<char>>,
    enabled: bool,
    in_window: bool,
    ds: Seq<DownloadV>,
) -> Seq<Seq<char>> {
    if !enabled {
        old
    } else if in_window {
        Seq::empty()
    } else {
        old + running_gids(ds)
    }
}

/// Whether `calls` resume exactly the downloads `gids`, in order.
pub open spec fn unpauses(calls: Seq<Call>, gids: Seq<Seq<char>>) -> bool {
    calls.len() == gids.len() && forall|i: int|
        0 <= i < calls.len() ==> #[trigger] calls[i] is Unpause && calls[i]->Unpause_0@ == gids[i]
}

/// One periodic check of the scheduler, given whether it is on, whether the
/// window holds the current time, and the downloads as aria2 lists them
/// (only read outside the window). Outside the window it pauses all
/// downloads with one `pauseAll`, remembering those that were running or
/// waiting; inside the window it resumes the downloads that it paused
/// itself, and no other, so that a download the user paused stays paused.
pub fn scheduler_step(
    state: SchedulerState,
    enabled: bool,
    in_window: bool,
    downloads: &Vec<Download>,
) -> (r: (SchedulerState, Vec<Call>))
    ensures
        texts(r.0.paused@) == paused_after(texts(state.paused@), enabled, in_window, downloads_view(downloads@)),
        enabled && !in_window ==> r.1@.len() == 1 && r.1@[0] is PauseAll,
        !(enabled && !in_window) ==> unpauses(r.1@, resumed_now(texts(state.paused@), enabled, in_window)),
{
    let mut calls: Vec<Call> = Vec::new();
    if !enabled {
        return (state, calls);
    }
    if in_window {
        let ghost old = texts(state.paused@);
        for i in 0..state.paused.len()
            invariant
                old == texts(state.paused@),
                unpauses(calls@, old.take(i as int)),
        {
            calls.push(Call::Unpause(String::from_str(state.paused[i].as_str())));
            assert(calls@[i as int]->Unpause_0@ == old.take(i + 1)[i as int]);
        }
        assert(old.take(state.paused.len() as int) =~= old);
        let empty: Vec<String> = Vec::new();
        assert(texts(empty@) =~= Seq::<Seq<char>>::empty());
        return (SchedulerState { paused: empty }, calls);
    }
    let mut paused = state.paused;
    let ghost old = texts(paused@);
    let ghost dv = downloads_view(downloads@);
    for i in 0..downloads.len()
        invariant
            dv == downloads_view(downloads@),
            texts(paused@) == old + running_gids(dv.take(i as int)),
    {
        assert(dv.take(i + 1).drop_last() =~= dv.take(i as int));
        assert(dv.take(i + 1).last() == downloads@[i as int]@);
        let st = downloads[i].status.as_str();
        let running = crate::text::str_eq(st, "active") || crate::text::str_eq(st, "waiting");
        if running {
            let ghost rg = running_gids(dv.take(i as int));
            push_text(&mut paused, String::from_str(downloads[i].gid.as_str()));
            assert(running_gids(dv.take(i + 1)) =~= rg.push(downloads@[i as int].gid@));
            assert(texts(paused@) =~= old + running_gids(dv.take(i + 1)));
        } else {
            assert(running_gids(dv.take(i + 1)) =~= running_gids(dv.take(i as int)));
        }
    }
    assert(dv.take(downloads.len() as int) =~= dv);
    calls.push(Call::PauseAll);
    (SchedulerState { paused }, calls)
}

/// Law: the scheduler only resumes downloads that it paused itself, and it
/// never takes on a download that the user paused: a download it does not
/// remember, which is not running or waiting in the list it sees, is neither
/// resumed nor remembered after the check.
pub proof fn lemma_user_pause_respected(
    old: Seq<Seq<char>>,
    enabled: bool,
    in_window: bool,
    ds: Seq<DownloadV>,
    g: Seq<char>,
)
    requires
        !old.contains(g),
        forall|i: int| 0 <= i < ds.len() && (#[trigger] ds[i]).gid == g ==> ds[i].status != "active"@ && ds[i].status != "waiting"@,
    ensures
        !resumed_now(old, enabled, in_window).contains(g),
        !paused_after(old, enabled, in_window, ds).contains(g),
{
    lemma_running_gids_excludes(ds, g);
    if enabled && !in_window {
        let n = old + running_gids(ds);
        if n.contains(g) {
            let k = choose|k: int| 0 <= k < n.len() && n[k] == g;
            if k < old.len() {
                assert(old[k] == g);
            } else {
                assert(running_gids(ds)[k - old.len()] == g);
            }
        }
    }
}

proof fn lemma_running_gids_excludes(ds: Seq<DownloadV>, g: Seq<char>)
    requires
        forall|i: int| 0 <= i < ds.len() && (#[trigger] ds[i]).gid == g ==> !is_running(ds[i].status),
    ensures
        !running_gids(ds).contains(g),
    decreases ds.len(),
{
    if ds.len() > 0 {
        let p = ds.drop_last();
        assert forall|i: int| 0 <= i < p.len() && (#[trigger] p[i]).gid == g implies !is_running(
            p[i].status,
        ) by {
            assert(p[i] == ds[i]);
        }
        lemma_running_gids_excludes(p, g);
        let tail = if is_running(ds.last().status) {
            seq![ds.last().gid]
        } else {
            Seq::<Seq<char>>::empty()
        };
        assert(ds.last() == ds[ds.len() - 1]);
        let n = running_gids(p) + tail;
        if n.contains(g) {
            let k = choose|k: int| 0 <= k < n.len() && n[k] == g;
            if k < running_gids(p).len() {
                assert(running_gids(p)[k] == g);
            }
        }
    }
}

/// Law: every download that a check resumes is one the scheduler remembered
/// as paused by itself.
pub proof fn lemma_resumes_only_own(old: Seq<Seq<char>>, enabled: bool, in_window: bool, g: Seq<char>)
    requires
        resumed_now(old, enabled, in_window).contains(g),
    ensures
        old.contains(g),
{
}

/// A download that runs or waits is among the running gids.
proof fn lemma_running_gids_has(ds: Seq<DownloadV>, i: int)
    requires
        0 <= i < ds.len(),
        is_running(ds[i].status),
    ensures
        running_gids(ds).contains(ds[i].gid),
    decreases ds.len(),
{
    let p = ds.drop_last();
    let tail = if is_running(ds.last().status) {
        seq![ds.last().gid]
    } else {
        Seq::<Seq<char>>::empty()
    };
    assert(running_gids(ds) == running_gids(p) + tail);
    if i == ds.len() - 1 {
        assert(tail[0] == ds[i].gid);
        assert(running_gids(ds)[running_gids(p).len() as int] == ds[i].gid);
    } else {
        assert(p[i] == ds[i]);
        lemma_running_gids_has(p, i);
        let k = choose|k: int| 0 <= k < running_gids(p).len() && running_gids(p)[k] == ds[i].gid;
        assert(running_gids(ds)[k] == ds[i].gid);
    }
}

/// Law: outside the window, every download that runs or waits in the list is
/// remembered after the check, whatever was remembered before, and what was
/// remembered before stays remembered; so the next check inside the window
/// resumes each download that the pause stopped.
pub proof fn lemma_paused_then_resumed(old: Seq<Seq<char>>, ds: Seq<DownloadV>)
    ensures
        forall|i: int|
            0 <= i < ds.len() && ((#[trigger] ds[i]).status == "active"@ || ds[i].status == "waiting"@) ==> paused_after(old, true, false, ds).contains(
                ds[i].gid,
            ) && resumed_now(paused_after(old, true, false, ds), true, true).contains(ds[i].gid),
        forall|g: Seq<char>|
            old.contains(g) ==> #[trigger] paused_after(old, true, false, ds).contains(g),
        paused_after(paused_after(old, true, false, ds), true, true, ds).len() == 0,
{
    let n = paused_after(old, true, false, ds);
    assert forall|i: int| 0 <= i < ds.len() && ((#[trigger] ds[i]).status == "active"@ || ds[i].status == "waiting"@) implies n.contains(
        ds[i].gid,
    ) && resumed_now(n, true, true).contains(ds[i].gid) by {
        lemma_running_gids_has(ds, i);
        let k = choose|k: int| 0 <= k < running_gids(ds).len() && running_gids(ds)[k] == ds[i].gid;
        assert(n[old.len() + k] == ds[i].gid);
    }
    assert forall|g: Seq<char>| old.contains(g) implies #[trigger] n.contains(g) by {
        let k = choose|k: int| 0 <= k < old.len() && old[k] == g;
        assert(n[k] == g);
    }
}

/// The downloads that the scheduler remembers after a run of checks, each
/// given as (on, in window, listed downloads), starting from `old`.
pub open spec fn paused_after_ticks(old: Seq<Seq<char>>, ticks: Seq<(bool, bool, Seq<DownloadV>)>) -> Seq<
    Seq<char>,
>
    decreases ticks.len(),
{
    if ticks.len() == 0 {
        old
    } else {
        paused_after(
            paused_after_ticks(old, ticks.drop_last()),
            ticks.last().0,
            ticks.last().1,
            ticks.last().2,
        )
    }
}

/// Whether `g` is neither running nor waiting in any of the lists that the
/// checks see: the user paused it and nothing resumed it.
pub open spec fn stays_paused(g: Seq<char>, ticks: Seq<(bool, bool, Seq<DownloadV>)>) -> bool {
    forall|t: int, i: int|
        0 <= t < ticks.len() && 0 <= i < ticks[t].2.len() && (#[trigger] ticks[t].2[i]).gid == g
            ==> ticks[t].2[i].status != "active"@ && ticks[t].2[i].status != "waiting"@
}

/// Law: a download that the user paused, and that the scheduler did not
/// pause itself, is resumed at no later check: across any run of checks in
/// which it stays paused, no check resumes it and the scheduler never
/// remembers it.
pub proof fn lemma_user_pause_survives(
    old: Seq<Seq<char>>,
    ticks: Seq<(bool, bool, Seq<DownloadV>)>,
    g: Seq<char>,
)
    requires
        !old.contains(g),
        stays_paused(g, ticks),
    ensures
        !paused_after_ticks(old, ticks).contains(g),
        forall|t: int|
            0 <= t < ticks.len() ==> !(#[trigger] resumed_now(
                paused_after_ticks(old, ticks.take(t)),
                ticks[t].0,
                ticks[t].1,
            )).contains(g),
    decreases ticks.len(),
{
    if ticks.len() > 0 {
        let prev = ticks.drop_last();
        assert forall|t: int, i: int|
            0 <= t < prev.len() && 0 <= i < prev[t].2.len() && (#[trigger] prev[t].2[i]).gid == g
                implies !is_running(prev[t].2[i].status) by {
            assert(prev[t] == ticks[t]);
        }
        lemma_user_pause_survives(old, prev, g);
        let last = ticks.last();
        assert(last == ticks[ticks.len() - 1]);
        assert forall|i: int| 0 <= i < last.2.len() && (#[trigger] last.2[i]).gid == g implies !is_running(
            last.2[i].status,
        ) by {
            assert(ticks[ticks.len() - 1].2[i] == last.2[i]);
        }
        lemma_user_pause_respected(paused_after_ticks(old, prev), last.0, last.1, last.2, g);
        assert forall|t: int| 0 <= t < ticks.len() implies !(#[trigger] resumed_now(
            paused_after_ticks(old, ticks.take(t)),
            ticks[t].0,
            ticks[t].1,
        )).contains(g) by {
            if t < ticks.len() - 1 {
                assert(ticks.take(t) =~= prev.take(t));
                assert(ticks[t] == prev[t]);
            } else {
                assert(ticks.take(t) =~= prev);
            }
        }
    }
}

} // verus!
