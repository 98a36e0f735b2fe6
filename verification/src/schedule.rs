//! Daily schedules with a ledger of pending fires: what is stored for each
//! owner, when a schedule is due, what a polling tick does, and how fires
//! that were missed are recovered after a restart.
//!
//! Nothing here waits, sends or stores. A tick hands back the fires to be
//! made; the caller carries them out and reports how each went.

use crate::clock::{
    copenhagen_date, copenhagen_instant, date_in_copenhagen, day_of, instant_in_copenhagen,
    is_schedule_time_match, is_valid_time, is_weekday, is_working_day, on_same_day, same_day,
    utc_day, within, LocalDate, MATCH_TOLERANCE,
};
use crate::roster::{find, has, keys_unique, lemma_find, lookup, with_row, without_row, Roster};
use crate::text::{trim, trimmed, upper_text};
use crate::vault::{
    decrypt_data, encrypt_data, opened, sealed, VaultError, KEY_LENGTH, NONCE_LENGTH,
};
use vstd::prelude::*;
use vstd::string::StrSliceExecFns;

verus! {

/// What the action needs to know of an owner.
#[derive(Debug)]
pub struct Profile {
    pub phone_number: String,
    pub plate: String,
}

/// A profile as contracts see it.
pub struct ProfileView {
    pub phone_number: Seq<char>,
    pub plate: Seq<char>,
}

impl View for Profile {
    type V = ProfileView;

    open spec fn view(&self) -> ProfileView {
        ProfileView { phone_number: self.phone_number@, plate: self.plate@ }
    }
}

impl Profile {
    /// A copy of the profile.
    pub fn duplicate(&self) -> (p: Profile)
        ensures
            p@ == self@,
    {
        Profile { phone_number: self.phone_number.clone(), plate: self.plate.clone() }
    }
}

/// The daily schedule of one owner.
#[derive(Debug)]
pub struct ScheduleEntry {
    pub hour: u8,
    pub minute: u8,
    pub enabled: bool,
    /// When the action last succeeded.
    pub last_fired: Option<i64>,
    /// The scheduled times for which the action was begun and has not been
    /// confirmed, oldest first, each once.
    pub pending_fires: Vec<i64>,
}

/// A schedule as contracts see it.
pub struct EntryView {
    pub hour: u8,
    pub minute: u8,
    pub enabled: bool,
    pub last_fired: Option<i64>,
    pub pending: Seq<i64>,
}

impl View for ScheduleEntry {
    type V = EntryView;

    open spec fn view(&self) -> EntryView {
        EntryView {
            hour: self.hour,
            minute: self.minute,
            enabled: self.enabled,
            last_fired: self.last_fired,
            pending: self.pending_fires@,
        }
    }
}

/// A copy of `times`.
fn copy_times(times: &Vec<i64>) -> (r: Vec<i64>)
    ensures
        r@ == times@,
{
    let mut r: Vec<i64> = Vec::new();
    let mut i: usize = 0;
    while i < times.len()
        invariant
            i <= times.len(),
            r@ == times@.take(i as int),
        decreases times.len() - i,
    {
        r.push(times[i]);
        i += 1;
    }
    r
}

impl ScheduleEntry {
    /// A schedule for `hour:minute`, enabled, that has never fired.
    pub fn new(hour: u8, minute: u8) -> (e: ScheduleEntry)
        ensures
            e@ == (EntryView {
                hour,
                minute,
                enabled: true,
                last_fired: None,
                pending: Seq::empty(),
            }),
    {
        ScheduleEntry { hour, minute, enabled: true, last_fired: None, pending_fires: Vec::new() }
    }

    /// A copy of the schedule.
    pub fn duplicate(&self) -> (e: ScheduleEntry)
        ensures
            e@ == self@,
    {
        ScheduleEntry {
            hour: self.hour,
            minute: self.minute,
            enabled: self.enabled,
            last_fired: self.last_fired,
            pending_fires: copy_times(&self.pending_fires),
        }
    }
}

/// The pending fires that are not older than the day `today`, in their
/// order.
pub open spec fn kept(pending: Seq<i64>, today: int) -> Seq<i64>
    decreases pending.len(),
{
    if pending.len() == 0 {
        Seq::empty()
    } else if day_of(pending.last() as int) >= today {
        kept(pending.drop_last(), today).push(pending.last())
    } else {
        kept(pending.drop_last(), today)
    }
}

/// The pending fires other than `t`, in their order.
pub open spec fn without(pending: Seq<i64>, t: i64) -> Seq<i64>
    decreases pending.len(),
{
    if pending.len() == 0 {
        Seq::empty()
    } else if pending.last() != t {
        without(pending.drop_last(), t).push(pending.last())
    } else {
        without(pending.drop_last(), t)
    }
}

/// The pending fires with `t` among them: added at the end unless it is
/// there already.
pub open spec fn noted(pending: Seq<i64>, t: i64) -> Seq<i64> {
    if pending.contains(t) {
        pending
    } else {
        pending.push(t)
    }
}

/// The latest of the pending fires that fall on the day `today`.
pub open spec fn latest_on(pending: Seq<i64>, today: int) -> Option<i64>
    decreases pending.len(),
{
    if pending.len() == 0 {
        None
    } else {
        let rest = latest_on(pending.drop_last(), today);
        if day_of(pending.last() as int) == today && (rest matches Some(m) ==> m <= pending.last()) {
            Some(pending.last())
        } else {
            rest
        }
    }
}

/// The action already succeeded on the day of `now`.
pub open spec fn fired_today(e: EntryView, now: i64) -> bool {
    e.last_fired matches Some(last) && same_day(last as int, now as int)
}

/// Whether a schedule is due at `now`: it is enabled, the day is a working
/// day, `now` lies within the tolerance of the scheduled time `target`, and
/// the action has not yet succeeded today.
pub open spec fn due(e: EntryView, working_day: bool, target: Option<i64>, now: i64) -> bool {
    &&& e.enabled
    &&& working_day
    &&& target matches Some(t) && within(now as int, t as int, MATCH_TOLERANCE as int)
    &&& !fired_today(e, now)
}

/// The schedule without its stale pending fires.
pub open spec fn purged_entry(e: EntryView, now: i64) -> EntryView {
    EntryView { pending: kept(e.pending, day_of(now as int)), ..e }
}

/// The schedule after a fire for the scheduled time `t` was begun.
pub open spec fn begun(e: EntryView, t: i64) -> EntryView {
    EntryView { pending: noted(e.pending, t), ..e }
}

/// The schedule after the fire for the scheduled time `t` succeeded at
/// `now`.
pub open spec fn succeeded(e: EntryView, t: i64, now: i64) -> EntryView {
    EntryView { last_fired: Some(now), pending: without(e.pending, t), ..e }
}

/// The schedule after the pending fire `t` was replayed at `now`: it is no
/// longer pending, however the replay went.
pub open spec fn replayed(e: EntryView, t: i64, now: i64, success: bool) -> EntryView {
    EntryView {
        last_fired: if success {
            Some(now)
        } else {
            e.last_fired
        },
        pending: without(e.pending, t),
        ..e
    }
}

impl ScheduleEntry {
    /// Whether the action already succeeded on the day of `now`.
    pub fn has_fired_today(&self, now: i64) -> (r: bool)
        ensures
            r == fired_today(self@, now),
    {
        match self.last_fired {
            Some(last) => on_same_day(last, now),
            None => false,
        }
    }

    /// Whether the schedule is due at `now`, given whether today is a
    /// working day and the instant `target` of the scheduled time today; see
    /// [`due`].
    pub fn is_due(&self, working_day: bool, target: Option<i64>, now: i64) -> (r: bool)
        ensures
            r == due(self@, working_day, target, now),
    {
        if !self.enabled || !working_day {
            return false;
        }
        match target {
            None => false,
            Some(t) => is_schedule_time_match(t, now) && !self.has_fired_today(now),
        }
    }

    /// Drops the pending fires that are older than the day of `now`.
    pub fn purge_stale(&mut self, now: i64)
        ensures
            final(self)@ == purged_entry(old(self)@, now),
    {
        let today = utc_day(now);
        let mut fresh: Vec<i64> = Vec::new();
        let mut i: usize = 0;
        while i < self.pending_fires.len()
            invariant
                i <= self.pending_fires.len(),
                *self == *old(self),
                today == day_of(now as int),
                fresh@ == kept(self.pending_fires@.take(i as int), today as int),
            decreases self.pending_fires.len() - i,
        {
            assert(self.pending_fires@.take(i + 1).drop_last() =~= self.pending_fires@.take(
                i as int,
            ));
            let t = self.pending_fires[i];
            if utc_day(t) >= today {
                fresh.push(t);
            }
            i += 1;
        }
        assert(self.pending_fires@.take(i as int) =~= self.pending_fires@);
        self.pending_fires = fresh;
    }

    /// Notes that a fire for the scheduled time `t` was begun.
    pub fn note_pending(&mut self, t: i64)
        ensures
            final(self)@ == begun(old(self)@, t),
    {
        let mut i: usize = 0;
        while i < self.pending_fires.len()
            invariant
                i <= self.pending_fires.len(),
                *self == *old(self),
                forall|j: int| 0 <= j < i ==> self.pending_fires@[j] != t,
            decreases self.pending_fires.len() - i,
        {
            if self.pending_fires[i] == t {
                return ;
            }
            i += 1;
        }
        self.pending_fires.push(t);
    }

    /// Takes `t` out of the pending fires.
    pub fn drop_pending(&mut self, t: i64)
        ensures
            final(self)@ == (EntryView { pending: without(old(self)@.pending, t), ..old(self)@ }),
    {
        let mut rest: Vec<i64> = Vec::new();
        let mut i: usize = 0;
        while i < self.pending_fires.len()
            invariant
                i <= self.pending_fires.len(),
                *self == *old(self),
                rest@ == without(self.pending_fires@.take(i as int), t),
            decreases self.pending_fires.len() - i,
        {
            assert(self.pending_fires@.take(i + 1).drop_last() =~= self.pending_fires@.take(
                i as int,
            ));
            let p = self.pending_fires[i];
            if p != t {
                rest.push(p);
            }
            i += 1;
        }
        assert(self.pending_fires@.take(i as int) =~= self.pending_fires@);
        self.pending_fires = rest;
    }

    /// The latest pending fire that falls on the day of `now`.
    pub fn latest_pending_today(&self, now: i64) -> (r: Option<i64>)
        ensures
            r == latest_on(self@.pending, day_of(now as int)),
    {
        let today = utc_day(now);
        let mut best: Option<i64> = None;
        let mut i: usize = 0;
        while i < self.pending_fires.len()
            invariant
                i <= self.pending_fires.len(),
                today == day_of(now as int),
                best == latest_on(self.pending_fires@.take(i as int), today as int),
            decreases self.pending_fires.len() - i,
        {
            assert(self.pending_fires@.take(i + 1).drop_last() =~= self.pending_fires@.take(
                i as int,
            ));
            let t = self.pending_fires[i];
            if utc_day(t) == today {
                let later = match best {
                    Some(m) => m <= t,
                    None => true,
                };
                if later {
                    best = Some(t);
                }
            }
            i += 1;
        }
        assert(self.pending_fires@.take(i as int) =~= self.pending_fires@);
        best
    }
}

/// Drops from `requests` the instants that are older than the day of
/// `now`, keeping the order of the rest.
pub fn cleanup_old_missed_requests(requests: &mut Vec<i64>, now: i64)
    ensures
        final(requests)@ == kept(old(requests)@, day_of(now as int)),
{
    let today = utc_day(now);
    let mut fresh: Vec<i64> = Vec::new();
    let mut i: usize = 0;
    while i < requests.len()
        invariant
            i <= requests.len(),
            *requests == *old(requests),
            today == day_of(now as int),
            fresh@ == kept(requests@.take(i as int), today as int),
        decreases requests.len() - i,
    {
        assert(requests@.take(i + 1).drop_last() =~= requests@.take(i as int));
        let t = requests[i];
        if utc_day(t) >= today {
            fresh.push(t);
        }
        i += 1;
    }
    assert(requests@.take(i as int) =~= requests@);
    *requests = fresh;
}

/// Everything that is stored: the profiles and the schedules, by owner.
pub struct ScheduleData {
    pub profiles: Roster<Profile>,
    pub schedules: Roster<ScheduleEntry>,
}

/// The store as contracts see it: one row per owner in each table.
pub struct DataView {
    pub profiles: Seq<(u64, ProfileView)>,
    pub schedules: Seq<(u64, EntryView)>,
}

pub open spec fn profile_rows(s: Seq<(u64, Profile)>) -> Seq<(u64, ProfileView)> {
    Seq::new(s.len(), |i: int| (s[i].0, s[i].1@))
}

pub open spec fn entry_rows(s: Seq<(u64, ScheduleEntry)>) -> Seq<(u64, EntryView)> {
    Seq::new(s.len(), |i: int| (s[i].0, s[i].1@))
}

impl View for ScheduleData {
    type V = DataView;

    open spec fn view(&self) -> DataView {
        DataView {
            profiles: profile_rows(self.profiles@),
            schedules: entry_rows(self.schedules@),
        }
    }
}

/// The rows of profiles as contracts see them have the owners of the rows
/// themselves.
pub proof fn lemma_profile_rows(s: Seq<(u64, Profile)>, key: u64)
    requires
        keys_unique(s),
    ensures
        keys_unique(profile_rows(s)),
        has(profile_rows(s), key) == has(s, key),
        find(profile_rows(s), key) == find(s, key),
        lookup(profile_rows(s), key) == match lookup(s, key) {
            Some(p) => Some(p@),
            None => None,
        },
{
    let v = profile_rows(s);
    assert forall|i: int, j: int| 0 <= i < j < v.len() implies v[i].0 != v[j].0 by {
        assert(s[i].0 != s[j].0);
    }
    if has(s, key) {
        let i = choose|i: int| 0 <= i < s.len() && (#[trigger] s[i]).0 == key;
        assert(v[i].0 == key);
        lemma_find(s, key, i);
        lemma_find(v, key, i);
    } else if has(v, key) {
        let i = choose|i: int| 0 <= i < v.len() && (#[trigger] v[i]).0 == key;
        assert(s[i].0 == key);
    }
}

/// The rows of schedules as contracts see them have the owners of the rows
/// themselves.
pub proof fn lemma_entry_rows(s: Seq<(u64, ScheduleEntry)>, key: u64)
    requires
        keys_unique(s),
    ensures
        keys_unique(entry_rows(s)),
        has(entry_rows(s), key) == has(s, key),
        find(entry_rows(s), key) == find(s, key),
        lookup(entry_rows(s), key) == match lookup(s, key) {
            Some(e) => Some(e@),
            None => None,
        },
{
    let v = entry_rows(s);
    assert forall|i: int, j: int| 0 <= i < j < v.len() implies v[i].0 != v[j].0 by {
        assert(s[i].0 != s[j].0);
    }
    if has(s, key) {
        let i = choose|i: int| 0 <= i < s.len() && (#[trigger] s[i]).0 == key;
        assert(v[i].0 == key);
        lemma_find(s, key, i);
        lemma_find(v, key, i);
    } else if has(v, key) {
        let i = choose|i: int| 0 <= i < v.len() && (#[trigger] v[i]).0 == key;
        assert(s[i].0 == key);
    }
}

/// A fire to be carried out: the action is to be run for `owner_key` with
/// `profile`, on account of the scheduled time `fire_time`.
#[derive(Debug)]
pub struct Fire {
    pub owner_key: u64,
    pub fire_time: i64,
    pub profile: Profile,
}

/// A fire as contracts see it.
pub struct FireView {
    pub owner_key: u64,
    pub fire_time: i64,
    pub profile: ProfileView,
}

impl View for Fire {
    type V = FireView;

    open spec fn view(&self) -> FireView {
        FireView { owner_key: self.owner_key, fire_time: self.fire_time, profile: self.profile@ }
    }
}

pub open spec fn fire_views(fires: Seq<Fire>) -> Seq<FireView> {
    Seq::new(fires.len(), |i: int| fires[i]@)
}

/// The store without the stale pending fires of any schedule.
pub open spec fn purged(v: DataView, now: i64) -> DataView {
    DataView {
        schedules: Seq::new(
            v.schedules.len(),
            |i: int| (v.schedules[i].0, purged_entry(v.schedules[i].1, now)),
        ),
        ..v
    }
}

/// The scheduled time for which row `i` of the schedules is due at `now`,
/// if it is: its owner has a profile, and the schedule is due, given whether
/// today is a working day and the instant `targets[i]` of its time of day
/// today.
pub open spec fn due_time(v: DataView, i: int, working_day: bool, targets: Seq<Option<i64>>, now: i64) -> Option<
    i64,
> {
    if lookup(v.profiles, v.schedules[i].0) is Some && due(
        v.schedules[i].1,
        working_day,
        targets[i],
        now,
    ) {
        targets[i]
    } else {
        None
    }
}

/// The fires that a tick at `now` begins among the first `n` schedules, in
/// the order of the rows.
pub open spec fn fires_among(
    v: DataView,
    working_day: bool,
    targets: Seq<Option<i64>>,
    now: i64,
    n: int,
) -> Seq<FireView>
    decreases n,
{
    if n <= 0 {
        Seq::empty()
    } else {
        let rest = fires_among(v, working_day, targets, now, n - 1);
        match due_time(v, n - 1, working_day, targets, now) {
            Some(t) => rest.push(
                FireView {
                    owner_key: v.schedules[n - 1].0,
                    fire_time: t,
                    profile: lookup(v.profiles, v.schedules[n - 1].0)->0,
                },
            ),
            None => rest,
        }
    }
}

/// The store after a tick at `now` has begun its fires: each is noted as
/// pending in its schedule.
pub open spec fn ticked(v: DataView, working_day: bool, targets: Seq<Option<i64>>, now: i64) -> DataView {
    DataView {
        schedules: Seq::new(
            v.schedules.len(),
            |i: int|
                (
                    v.schedules[i].0,
                    match due_time(v, i, working_day, targets, now) {
                        Some(t) => begun(v.schedules[i].1, t),
                        None => v.schedules[i].1,
                    },
                ),
        ),
        ..v
    }
}

/// Whether the date `today` in Copenhagen, where there is one, is a working
/// day.
pub open spec fn working(today: Option<LocalDate>) -> bool {
    today matches Some(d) && is_working_day(d)
}

/// For each schedule, the instant at which the clocks in Copenhagen show
/// its time of day on the date `today`.
pub open spec fn targets_on(v: DataView, today: Option<LocalDate>) -> Seq<Option<i64>> {
    Seq::new(
        v.schedules.len(),
        |i: int|
            match today {
                Some(d) => copenhagen_instant(
                    d.year,
                    d.month,
                    d.day,
                    v.schedules[i].1.hour as u32,
                    v.schedules[i].1.minute as u32,
                ),
                None => None,
            },
    )
}

/// The store after the fire of `owner` for the scheduled time `t` was
/// carried out at `now`. Success is recorded and the fire is no longer
/// pending; after a failure the fire stays pending and nothing else changes.
pub open spec fn recorded(v: DataView, owner: u64, t: i64, now: i64, success: bool) -> DataView {
    match lookup(v.schedules, owner) {
        Some(e) => if success {
            DataView { schedules: with_row(v.schedules, owner, succeeded(e, t, now)), ..v }
        } else {
            v
        },
        None => v,
    }
}

/// The pending fire that is replayed for row `i` after a restart at `now`:
/// the latest one of today, where the schedule is enabled, its owner has a
/// profile and the action has not succeeded today.
pub open spec fn replay_time(v: DataView, i: int, now: i64) -> Option<i64> {
    let owner = v.schedules[i].0;
    let e = v.schedules[i].1;
    if e.enabled && lookup(v.profiles, owner) is Some && !fired_today(e, now) {
        latest_on(e.pending, day_of(now as int))
    } else {
        None
    }
}

/// The fires that are replayed among the first `n` schedules, in the order
/// of the rows: at most one for each.
pub open spec fn replays_among(v: DataView, now: i64, n: int) -> Seq<FireView>
    decreases n,
{
    if n <= 0 {
        Seq::empty()
    } else {
        let rest = replays_among(v, now, n - 1);
        match replay_time(v, n - 1, now) {
            Some(t) => rest.push(
                FireView {
                    owner_key: v.schedules[n - 1].0,
                    fire_time: t,
                    profile: lookup(v.profiles, v.schedules[n - 1].0)->0,
                },
            ),
            None => rest,
        }
    }
}

/// The store after the pending fire `t` of `owner` was replayed at `now`.
pub open spec fn recovered(v: DataView, owner: u64, t: i64, now: i64, success: bool) -> DataView {
    match lookup(v.schedules, owner) {
        Some(e) => DataView { schedules: with_row(v.schedules, owner, replayed(e, t, now, success)), ..v },
        None => v,
    }
}

impl ScheduleData {
    /// No owner has two profiles or two schedules.
    pub open spec fn wf(&self) -> bool {
        self.profiles.wf() && self.schedules.wf()
    }

    /// An empty store.
    pub fn new() -> (d: Self)
        ensures
            d.wf(),
            d@.profiles.len() == 0,
            d@.schedules.len() == 0,
    {
        ScheduleData { profiles: Roster::new(), schedules: Roster::new() }
    }

    /// Drops the stale pending fires of every schedule: those that are
    /// older than the day of `now`.
    pub fn purge_stale(&mut self, now: i64)
        requires
            old(self).wf(),
        ensures
            final(self).wf(),
            final(self)@ == purged(old(self)@, now),
    {
        let mut i: usize = 0;
        while i < self.schedules.len()
            invariant
                i <= self.schedules@.len(),
                self.wf(),
                self.profiles == old(self).profiles,
                self.schedules@.len() == old(self).schedules@.len(),
                forall|j: int|
                    0 <= j < i ==> (#[trigger] self.schedules@[j]).0 == old(self).schedules@[j].0
                        && self.schedules@[j].1@ == purged_entry(old(self).schedules@[j].1@, now),
                forall|j: int|
                    i <= j < self.schedules@.len() ==> #[trigger] self.schedules@[j] == old(
                        self,
                    ).schedules@[j],
            decreases self.schedules@.len() - i,
        {
            let mut entry = self.schedules.value_at(i).duplicate();
            entry.purge_stale(now);
            let _ = self.schedules.replace_at(i, entry);
            i += 1;
        }
        assert(self@.schedules =~= purged(old(self)@, now).schedules);
    }

    /// Begins the fires that are due at `now` and hands them back for the
    /// caller to carry out. Today's date and each schedule's instant today
    /// are those of Copenhagen; what is then due is as in
    /// [`ScheduleData::begin_tick_at`].
    pub fn begin_tick(&mut self, now: i64) -> (fires: Vec<Fire>)
        requires
            old(self).wf(),
        ensures
            final(self).wf(),
            final(self)@ == ticked(
                old(self)@,
                working(copenhagen_date(now)),
                targets_on(old(self)@, copenhagen_date(now)),
                now,
            ),
            fire_views(fires@) == fires_among(
                old(self)@,
                working(copenhagen_date(now)),
                targets_on(old(self)@, copenhagen_date(now)),
                now,
                old(self)@.schedules.len() as int,
            ),
    {
        let today = date_in_copenhagen(now);
        let working_day = match today {
            Some(date) => is_weekday(&date),
            None => false,
        };
        let mut targets: Vec<Option<i64>> = Vec::new();
        let mut i: usize = 0;
        while i < self.schedules.len()
            invariant
                i <= self.schedules@.len(),
                *self == *old(self),
                today == copenhagen_date(now),
                targets@ == targets_on(self@, today).take(i as int),
            decreases self.schedules@.len() - i,
        {
            let entry = self.schedules.value_at(i);
            let target = match today {
                Some(date) => instant_in_copenhagen(date, entry.hour, entry.minute),
                None => None,
            };
            targets.push(target);
            i += 1;
            assert(targets@ =~= targets_on(self@, today).take(i as int));
        }
        assert(targets@ =~= targets_on(self@, today));
        self.begin_tick_at(now, working_day, &targets)
    }

    /// Begins the fires that are due at `now`, given whether today is a
    /// working day and, for each schedule in the order of the rows, the
    /// instant of its time of day today; see [`due_time`]. Each fire is noted
    /// as pending before it is handed out, so that a fire cut short by a crash
    /// can be found again.
    pub fn begin_tick_at(&mut self, now: i64, working_day: bool, targets: &Vec<Option<i64>>) -> (fires:
        Vec<Fire>)
        requires
            old(self).wf(),
            targets@.len() == old(self)@.schedules.len(),
        ensures
            final(self).wf(),
            final(self)@ == ticked(old(self)@, working_day, targets@, now),
            fire_views(fires@) == fires_among(
                old(self)@,
                working_day,
                targets@,
                now,
                old(self)@.schedules.len() as int,
            ),
    {
        let mut fires: Vec<Fire> = Vec::new();
        let mut i: usize = 0;
        while i < self.schedules.len()
            invariant
                i <= self.schedules@.len(),
                self.wf(),
                old(self).wf(),
                targets@.len() == old(self)@.schedules.len(),
                self.profiles == old(self).profiles,
                self.schedules@.len() == old(self).schedules@.len(),
                forall|j: int|
                    0 <= j < i ==> (#[trigger] self.schedules@[j]).0 == old(self).schedules@[j].0
                        && self.schedules@[j].1@ == ticked(
                        old(self)@,
                        working_day,
                        targets@,
                        now,
                    ).schedules[j].1,
                forall|j: int|
                    i <= j < self.schedules@.len() ==> #[trigger] self.schedules@[j] == old(
                        self,
                    ).schedules@[j],
                fire_views(fires@) == fires_among(old(self)@, working_day, targets@, now, i as int),
            decreases self.schedules@.len() - i,
        {
            let owner = self.schedules.key_at(i);
            proof {
                lemma_profile_rows(self.profiles@, owner);
            }
            let target = if self.profiles.contains(owner) && self.schedules.value_at(i).is_due(
                working_day,
                targets[i],
                now,
            ) {
                targets[i]
            } else {
                None
            };
            assert(target == due_time(old(self)@, i as int, working_day, targets@, now));
            match target {
                Some(t) => {
                    let profile = match self.profiles.get(owner) {
                        Some(p) => p.duplicate(),
                        None => {
                            assert(false);
                            Profile { phone_number: String::new(), plate: String::new() }
                        },
                    };
                    let mut entry = self.schedules.value_at(i).duplicate();
                    entry.note_pending(t);
                    let _ = self.schedules.replace_at(i, entry);
                    let ghost before = fires@;
                    fires.push(Fire { owner_key: owner, fire_time: t, profile });
                    assert(fire_views(fires@) =~= fire_views(before).push(fires@[before.len() as int]@));
                },
                None => {},
            }
            i += 1;
        }
        assert(self@.schedules =~= ticked(old(self)@, working_day, targets@, now).schedules);
        fires
    }

    /// Records how the fire of `owner` for the scheduled time `fire_time`
    /// went; see [`recorded`]. Says whether `owner` has a schedule.
    pub fn record_outcome(&mut self, owner: u64, fire_time: i64, now: i64, success: bool) -> (known:
        bool)
        requires
            old(self).wf(),
        ensures
            final(self).wf(),
            known == (lookup(old(self)@.schedules, owner) is Some),
            final(self)@ == recorded(old(self)@, owner, fire_time, now, success),
    {
        proof {
            lemma_entry_rows(self.schedules@, owner);
        }
        match self.schedules.position(owner) {
            None => false,
            Some(i) => {
                if success {
                    let mut entry = self.schedules.value_at(i).duplicate();
                    entry.drop_pending(fire_time);
                    entry.last_fired = Some(now);
                    let _ = self.schedules.replace_at(i, entry);
                    assert(self@.schedules =~= recorded(
                        old(self)@,
                        owner,
                        fire_time,
                        now,
                        success,
                    ).schedules);
                }
                true
            },
        }
    }

    /// The fires to replay after a restart at `now`: for each schedule at
    /// most one, the latest pending fire of today; see [`replay_time`]. The
    /// store is not changed; each replay is to be reported with
    /// [`ScheduleData::record_recovery`].
    pub fn recovery_plan(&self, now: i64) -> (fires: Vec<Fire>)
        requires
            self.wf(),
        ensures
            fire_views(fires@) == replays_among(self@, now, self@.schedules.len() as int),
    {
        let mut fires: Vec<Fire> = Vec::new();
        let mut i: usize = 0;
        while i < self.schedules.len()
            invariant
                i <= self.schedules@.len(),
                self.wf(),
                fire_views(fires@) == replays_among(self@, now, i as int),
            decreases self.schedules@.len() - i,
        {
            let owner = self.schedules.key_at(i);
            let entry = self.schedules.value_at(i);
            proof {
                lemma_profile_rows(self.profiles@, owner);
            }
            if entry.enabled && !entry.has_fired_today(now) {
                match self.profiles.get(owner) {
                    Some(p) => {
                        match entry.latest_pending_today(now) {
                            Some(t) => {
                                let ghost before = fires@;
                                fires.push(
                                    Fire { owner_key: owner, fire_time: t, profile: p.duplicate() },
                                );
                                assert(fire_views(fires@) =~= fire_views(before).push(
                                    fires@[before.len() as int]@,
                                ));
                            },
                            None => {},
                        }
                    },
                    None => {},
                }
            }
            i += 1;
        }
        fires
    }

    /// Records that the pending fire `fire_time` of `owner` was replayed;
    /// see [`recovered`]. It is taken off the ledger however the replay went.
    /// Says whether `owner` has a schedule.
    pub fn record_recovery(&mut self, owner: u64, fire_time: i64, now: i64, success: bool) -> (known:
        bool)
        requires
            old(self).wf(),
        ensures
            final(self).wf(),
            known == (lookup(old(self)@.schedules, owner) is Some),
            final(self)@ == recovered(old(self)@, owner, fire_time, now, success),
    {
        proof {
            lemma_entry_rows(self.schedules@, owner);
        }
        match self.schedules.position(owner) {
            None => false,
            Some(i) => {
                let mut entry = self.schedules.value_at(i).duplicate();
                entry.drop_pending(fire_time);
                if success {
                    entry.last_fired = Some(now);
                }
                let _ = self.schedules.replace_at(i, entry);
                assert(self@.schedules =~= recovered(
                    old(self)@,
                    owner,
                    fire_time,
                    now,
                    success,
                ).schedules);
                true
            },
        }
    }
}

/// How long, in seconds, the action holds once it has succeeded.
pub const VALIDITY_SECONDS: i64 = 36000;

/// A warning that what the action obtained for `owner_key` is about to run
/// out.
#[derive(Debug)]
pub struct ExpiryWarning {
    pub owner_key: u64,
    pub plate: String,
    pub expiry_time: i64,
}

/// A warning as contracts see it.
pub struct WarningView {
    pub owner_key: u64,
    pub plate: Seq<char>,
    pub expiry_time: i64,
}

impl View for ExpiryWarning {
    type V = WarningView;

    open spec fn view(&self) -> WarningView {
        WarningView { owner_key: self.owner_key, plate: self.plate@, expiry_time: self.expiry_time }
    }
}

pub open spec fn warning_views(warnings: Seq<ExpiryWarning>) -> Seq<WarningView> {
    Seq::new(warnings.len(), |i: int| warnings[i]@)
}

/// When the last success of the schedule runs out, if that is at least one
/// and less than two minutes after `now`.
pub open spec fn expiring(e: EntryView, now: i64) -> Option<i64> {
    match e.last_fired {
        Some(last) => if e.enabled && 60 <= last + VALIDITY_SECONDS - now < 120 && last
            + VALIDITY_SECONDS <= i64::MAX {
            Some((last + VALIDITY_SECONDS) as i64)
        } else {
            None
        },
        None => None,
    }
}

/// The warnings due at `now` among the first `n` schedules, in the order of
/// the rows. An owner without a profile gets none.
pub open spec fn warnings_among(v: DataView, now: i64, n: int) -> Seq<WarningView>
    decreases n,
{
    if n <= 0 {
        Seq::empty()
    } else {
        let rest = warnings_among(v, now, n - 1);
        let owner = v.schedules[n - 1].0;
        match (expiring(v.schedules[n - 1].1, now), lookup(v.profiles, owner)) {
            (Some(at), Some(p)) => rest.push(
                WarningView { owner_key: owner, plate: p.plate, expiry_time: at },
            ),
            _ => rest,
        }
    }
}

/// Why a schedule could not be set.
#[derive(Clone, Copy, PartialEq, Eq, Structural, Debug)]
pub enum ScheduleError {
    /// The hour is above 23 or the minute above 59.
    InvalidTime,
    /// The owner has no profile yet.
    ProfileRequired,
}

/// What disabling a schedule came to.
#[derive(Clone, Copy, PartialEq, Eq, Structural, Debug)]
pub enum DisableOutcome {
    Disabled,
    AlreadyDisabled,
    NotFound,
}

/// Why no profile could be settled on.
#[derive(Clone, Copy, PartialEq, Eq, Structural, Debug)]
pub enum ProfileError {
    /// The phone number is not eight digits.
    InvalidPhone,
    /// The plate, trimmed, is not 2 to 10 bytes long.
    InvalidPlate,
    /// Only a plate was given, and no phone number is stored.
    PhoneRequired,
    /// Only a phone number was given, and no plate is stored.
    PlateRequired,
    /// Nothing was given and nothing is stored.
    InformationRequired,
}

/// Eight characters, each a digit from 0 to 9.
pub open spec fn phone_ok(phone: Seq<char>) -> bool {
    phone.len() == 8 && forall|i: int| 0 <= i < 8 ==> '0' <= #[trigger] phone[i] <= '9'
}

/// Trimmed, the plate takes 2 to 10 bytes.
pub open spec fn plate_ok(plate: Seq<char>) -> bool {
    2 <= (vstd::utf8::encode_utf8(trimmed(plate)).len() as usize) <= 10
}

/// Whether `phone` is a Danish phone number without country code: eight
/// digits.
pub fn validate_danish_phone_number(phone: &str) -> (r: bool)
    ensures
        r == phone_ok(phone@),
{
    if phone.unicode_len() != 8 {
        return false;
    }
    let mut i: usize = 0;
    while i < 8
        invariant
            i <= 8,
            phone@.len() == 8,
            forall|j: int| 0 <= j < i ==> '0' <= #[trigger] phone@[j] <= '9',
        decreases 8 - i,
    {
        let c = phone.get_char(i);
        if c < '0' || c > '9' {
            return false;
        }
        i += 1;
    }
    true
}

/// Whether `plate` can be a licence plate: trimmed, it takes 2 to 10 bytes.
pub fn validate_danish_license_plate(plate: &str) -> (r: bool)
    ensures
        r == plate_ok(plate@),
{
    let n = trim(plate).as_str().len();
    2 <= n && n <= 10
}

/// The profile to act on, given what is stored for the owner and what was
/// given with the request: a plate, as it was written and as it is to be
/// stored, and a phone number. What was given is checked, the phone number
/// first and the plate as it was written, and takes the place of what was
/// stored.
pub open spec fn settled(
    stored: Option<ProfileView>,
    plate: Option<(Seq<char>, Seq<char>)>,
    phone: Option<Seq<char>>,
) -> Result<ProfileView, ProfileError> {
    match (plate, phone) {
        (Some(p), Some(ph)) => if !phone_ok(ph) {
            Err(ProfileError::InvalidPhone)
        } else if !plate_ok(p.0) {
            Err(ProfileError::InvalidPlate)
        } else {
            Ok(ProfileView { phone_number: ph, plate: p.1 })
        },
        (Some(p), None) => if !plate_ok(p.0) {
            Err(ProfileError::InvalidPlate)
        } else {
            match stored {
                Some(s) => Ok(ProfileView { plate: p.1, ..s }),
                None => Err(ProfileError::PhoneRequired),
            }
        },
        (None, Some(ph)) => if !phone_ok(ph) {
            Err(ProfileError::InvalidPhone)
        } else {
            match stored {
                Some(s) => Ok(ProfileView { phone_number: ph, ..s }),
                None => Err(ProfileError::PlateRequired),
            }
        },
        (None, None) => match stored {
            Some(s) => Ok(s),
            None => Err(ProfileError::InformationRequired),
        },
    }
}

/// The profile to act on where the plate is given as the owner wrote it: it
/// is stored in upper case.
pub open spec fn resolved(
    stored: Option<ProfileView>,
    plate: Option<Seq<char>>,
    phone: Option<Seq<char>>,
) -> Result<ProfileView, ProfileError> {
    settled(
        stored,
        match plate {
            Some(p) => Some((p, upper_text(p))),
            None => None,
        },
        phone,
    )
}

pub open spec fn plate_of(t: Option<(&str, String)>) -> Option<(Seq<char>, Seq<char>)> {
    match t {
        Some(p) => Some((p.0@, p.1@)),
        None => None,
    }
}

pub open spec fn text_of(t: Option<&str>) -> Option<Seq<char>> {
    match t {
        Some(s) => Some(s@),
        None => None,
    }
}

/// Entering a row in a table of profiles is entering its view in the view
/// of the table.
proof fn lemma_profile_put(s: Seq<(u64, Profile)>, key: u64, p: Profile)
    requires
        keys_unique(s),
    ensures
        profile_rows(with_row(s, key, p)) == with_row(profile_rows(s), key, p@),
        profile_rows(without_row(s, key)) == without_row(profile_rows(s), key),
{
    lemma_profile_rows(s, key);
    assert(profile_rows(with_row(s, key, p)) =~= with_row(profile_rows(s), key, p@));
    assert(profile_rows(without_row(s, key)) =~= without_row(profile_rows(s), key));
}

/// Entering a row in a table of schedules is entering its view in the view
/// of the table.
proof fn lemma_entry_put(s: Seq<(u64, ScheduleEntry)>, key: u64, e: ScheduleEntry)
    requires
        keys_unique(s),
    ensures
        entry_rows(with_row(s, key, e)) == with_row(entry_rows(s), key, e@),
        entry_rows(without_row(s, key)) == without_row(entry_rows(s), key),
{
    lemma_entry_rows(s, key);
    assert(entry_rows(with_row(s, key, e)) =~= with_row(entry_rows(s), key, e@));
    assert(entry_rows(without_row(s, key)) =~= without_row(entry_rows(s), key));
}

impl ScheduleData {
    /// The warnings due at `now`: one for each enabled schedule whose last
    /// success runs out in at least one and less than two minutes, so that a
    /// tick every minute warns once.
    pub fn expiry_warnings(&self, now: i64) -> (warnings: Vec<ExpiryWarning>)
        requires
            self.wf(),
        ensures
            warning_views(warnings@) == warnings_among(self@, now, self@.schedules.len() as int),
    {
        let mut warnings: Vec<ExpiryWarning> = Vec::new();
        let mut i: usize = 0;
        while i < self.schedules.len()
            invariant
                i <= self.schedules@.len(),
                self.wf(),
                warning_views(warnings@) == warnings_among(self@, now, i as int),
            decreases self.schedules@.len() - i,
        {
            let owner = self.schedules.key_at(i);
            let entry = self.schedules.value_at(i);
            proof {
                lemma_profile_rows(self.profiles@, owner);
            }
            let at: Option<i64> = match entry.last_fired {
                Some(last) => {
                    let end: i128 = last as i128 + VALIDITY_SECONDS as i128;
                    let left: i128 = end - now as i128;
                    if entry.enabled && 60 <= left && left < 120 && end <= i64::MAX as i128 {
                        Some(end as i64)
                    } else {
                        None
                    }
                },
                None => None,
            };
            assert(at == expiring(self@.schedules[i as int].1, now));
            match at {
                Some(expiry_time) => {
                    match self.profiles.get(owner) {
                        Some(p) => {
                            let ghost before = warnings@;
                            warnings.push(
                                ExpiryWarning { owner_key: owner, plate: p.plate.clone(), expiry_time },
                            );
                            assert(warning_views(warnings@) =~= warning_views(before).push(
                                warnings@[before.len() as int]@,
                            ));
                        },
                        None => {},
                    }
                },
                None => {},
            }
            i += 1;
        }
        warnings
    }

    /// Sets the daily schedule of `owner` to `hour:minute`, enabled and with
    /// a clean record, in place of any schedule they had. Refused for what is
    /// no time of day and for an owner without a profile.
    pub fn set_schedule(&mut self, owner: u64, hour: u8, minute: u8) -> (r: Result<(), ScheduleError>)
        requires
            old(self).wf(),
        ensures
            final(self).wf(),
            r == (if !(hour <= 23 && minute <= 59) {
                Err::<(), ScheduleError>(ScheduleError::InvalidTime)
            } else if lookup(old(self)@.profiles, owner) is None {
                Err::<(), ScheduleError>(ScheduleError::ProfileRequired)
            } else {
                Ok::<(), ScheduleError>(())
            }),
            r is Err ==> final(self)@ == old(self)@,
            r is Ok ==> final(self)@ == (DataView {
                schedules: with_row(
                    old(self)@.schedules,
                    owner,
                    EntryView {
                        hour,
                        minute,
                        enabled: true,
                        last_fired: None,
                        pending: Seq::empty(),
                    },
                ),
                ..old(self)@
            }),
    {
        if !is_valid_time(hour, minute) {
            return Err(ScheduleError::InvalidTime);
        }
        proof {
            lemma_profile_rows(self.profiles@, owner);
        }
        if !self.profiles.contains(owner) {
            return Err(ScheduleError::ProfileRequired);
        }
        let entry = ScheduleEntry::new(hour, minute);
        proof {
            lemma_entry_put(self.schedules@, owner, entry);
        }
        let _ = self.schedules.put(owner, entry);
        Ok(())
    }

    /// Disables the schedule of `owner`. Nothing else changes, and nothing
    /// at all unless the schedule was enabled.
    pub fn disable_schedule(&mut self, owner: u64) -> (r: DisableOutcome)
        requires
            old(self).wf(),
        ensures
            final(self).wf(),
            r == (match lookup(old(self)@.schedules, owner) {
                Some(e) => if e.enabled {
                    DisableOutcome::Disabled
                } else {
                    DisableOutcome::AlreadyDisabled
                },
                None => DisableOutcome::NotFound,
            }),
            r != DisableOutcome::Disabled ==> final(self)@ == old(self)@,
            r == DisableOutcome::Disabled ==> final(self)@ == (DataView {
                schedules: with_row(
                    old(self)@.schedules,
                    owner,
                    EntryView { enabled: false, ..lookup(old(self)@.schedules, owner)->0 },
                ),
                ..old(self)@
            }),
    {
        proof {
            lemma_entry_rows(self.schedules@, owner);
        }
        match self.schedules.position(owner) {
            None => DisableOutcome::NotFound,
            Some(i) => {
                if !self.schedules.value_at(i).enabled {
                    return DisableOutcome::AlreadyDisabled;
                }
                let mut entry = self.schedules.value_at(i).duplicate();
                entry.enabled = false;
                let _ = self.schedules.replace_at(i, entry);
                assert(self@.schedules =~= with_row(
                    old(self)@.schedules,
                    owner,
                    EntryView { enabled: false, ..lookup(old(self)@.schedules, owner)->0 },
                ));
                DisableOutcome::Disabled
            },
        }
    }

    /// Removes the profile and the schedule of `owner`, and says whether
    /// there was either.
    pub fn clear(&mut self, owner: u64) -> (removed: bool)
        requires
            old(self).wf(),
        ensures
            final(self).wf(),
            removed == (lookup(old(self)@.profiles, owner) is Some || lookup(
                old(self)@.schedules,
                owner,
            ) is Some),
            final(self)@ == (DataView {
                profiles: without_row(old(self)@.profiles, owner),
                schedules: without_row(old(self)@.schedules, owner),
            }),
    {
        proof {
            lemma_profile_rows(self.profiles@, owner);
            lemma_entry_rows(self.schedules@, owner);
            lemma_profile_put(self.profiles@, owner, self.profiles@[0].1);
            lemma_entry_put(self.schedules@, owner, self.schedules@[0].1);
        }
        let had_profile = self.profiles.take(owner).is_some();
        let had_schedule = self.schedules.take(owner).is_some();
        had_profile || had_schedule
    }

    /// Settles on the profile to act on for `owner` and stores it, the
    /// plate in upper case; see [`resolved`]. A refusal stores nothing.
    pub fn resolve_profile(&mut self, owner: u64, plate: Option<&str>, phone: Option<&str>) -> (r:
        Result<Profile, ProfileError>)
        requires
            old(self).wf(),
        ensures
            final(self).wf(),
            match resolved(lookup(old(self)@.profiles, owner), text_of(plate), text_of(phone)) {
                Ok(v) => r matches Ok(p) && p@ == v && final(self)@ == (DataView {
                    profiles: with_row(old(self)@.profiles, owner, v),
                    ..old(self)@
                }),
                Err(e) => r == Err::<Profile, ProfileError>(e) && final(self)@ == old(self)@,
            },
    {
        let written = match plate {
            Some(p) => Some((p, p.to_uppercase())),
            None => None,
        };
        self.settle_profile(owner, written, phone)
    }

    /// Settles on the profile to act on for `owner` and stores it, given
    /// the plate as it was written and as it is to be stored; see
    /// [`settled`]. A refusal stores nothing.
    pub fn settle_profile(
        &mut self,
        owner: u64,
        plate: Option<(&str, String)>,
        phone: Option<&str>,
    ) -> (r: Result<Profile, ProfileError>)
        requires
            old(self).wf(),
        ensures
            final(self).wf(),
            match settled(lookup(old(self)@.profiles, owner), plate_of(plate), text_of(phone)) {
                Ok(v) => r matches Ok(p) && p@ == v && final(self)@ == (DataView {
                    profiles: with_row(old(self)@.profiles, owner, v),
                    ..old(self)@
                }),
                Err(e) => r == Err::<Profile, ProfileError>(e) && final(self)@ == old(self)@,
            },
    {
        proof {
            lemma_profile_rows(self.profiles@, owner);
        }
        if let Some(ph) = phone {
            if !validate_danish_phone_number(ph) {
                return Err(ProfileError::InvalidPhone);
            }
        }
        if let Some(p) = &plate {
            if !validate_danish_license_plate(p.0) {
                return Err(ProfileError::InvalidPlate);
            }
        }
        let profile = match (plate, phone) {
            (Some(p), Some(ph)) => Profile { phone_number: String::from_str(ph), plate: p.1 },
            (Some(p), None) => match self.profiles.get(owner) {
                Some(stored) => Profile { phone_number: stored.phone_number.clone(), plate: p.1 },
                None => {
                    return Err(ProfileError::PhoneRequired);
                },
            },
            (None, Some(ph)) => match self.profiles.get(owner) {
                Some(stored) => Profile {
                    phone_number: String::from_str(ph),
                    plate: stored.plate.clone(),
                },
                None => {
                    return Err(ProfileError::PlateRequired);
                },
            },
            (None, None) => match self.profiles.get(owner) {
                Some(stored) => stored.duplicate(),
                None => {
                    return Err(ProfileError::InformationRequired);
                },
            },
        };
        let copy = profile.duplicate();
        proof {
            lemma_profile_put(self.profiles@, owner, profile);
        }
        let _ = self.profiles.put(owner, profile);
        Ok(copy)
    }
}

/// A fire that was replayed is off the ledger, however the replay went.
pub proof fn law_replayed_fire_is_off_the_ledger(e: EntryView, t: i64, now: i64, success: bool)
    ensures
        !replayed(e, t, now, success).pending.contains(t),
        !succeeded(e, t, now).pending.contains(t),
        forall|u: i64|
            u != t && e.pending.contains(u) ==> #[trigger] replayed(
                e,
                t,
                now,
                success,
            ).pending.contains(u),
{
    lemma_without(e.pending, t, t);
    assert forall|u: i64| u != t && e.pending.contains(u) implies #[trigger] replayed(
        e,
        t,
        now,
        success,
    ).pending.contains(u) by {
        lemma_without(e.pending, t, u);
    }
}

/// Taking `t` out leaves exactly the other pending fires.
pub proof fn lemma_without(pending: Seq<i64>, t: i64, u: i64)
    ensures
        without(pending, t).contains(u) <==> (u != t && pending.contains(u)),
    decreases pending.len(),
{
    if pending.len() > 0 {
        let init = pending.drop_last();
        let last = pending.last();
        lemma_without(init, t, u);
        assert(pending =~= init.push(last));
        vstd::seq_lib::lemma_seq_contains_after_push(init, last, u);
        vstd::seq_lib::lemma_seq_contains_after_push(without(init, t), last, u);
    }
}

/// Purging keeps exactly the pending fires that are not older than today.
pub proof fn law_stale_fires_are_purged(pending: Seq<i64>, today: int, u: i64)
    ensures
        kept(pending, today).contains(u) <==> (pending.contains(u) && day_of(u as int) >= today),
    decreases pending.len(),
{
    if pending.len() > 0 {
        let init = pending.drop_last();
        let last = pending.last();
        law_stale_fires_are_purged(init, today, u);
        assert(pending =~= init.push(last));
        vstd::seq_lib::lemma_seq_contains_after_push(init, last, u);
        vstd::seq_lib::lemma_seq_contains_after_push(kept(init, today), last, u);
    }
}

/// What is replayed after a restart is a pending fire of today, and the
/// latest of them: a stale fire is never replayed, and where a fire of
/// today is pending one is replayed.
pub proof fn law_only_fires_of_today_are_replayed(pending: Seq<i64>, today: int, u: i64)
    ensures
        latest_on(pending, today) matches Some(m) ==> pending.contains(m) && day_of(m as int)
            == today,
        pending.contains(u) && day_of(u as int) == today ==> (latest_on(
            pending,
            today,
        ) matches Some(m) && u <= m),
    decreases pending.len(),
{
    if pending.len() > 0 {
        let init = pending.drop_last();
        let last = pending.last();
        law_only_fires_of_today_are_replayed(init, today, u);
        assert(pending =~= init.push(last));
        vstd::seq_lib::lemma_seq_contains_after_push(init, last, u);
        vstd::seq_lib::lemma_seq_contains_after_push(init, last, last);
        if latest_on(init, today) is Some {
            vstd::seq_lib::lemma_seq_contains_after_push(init, last, latest_on(init, today)->0);
        }
    }
}

/// Every fire that is replayed belongs to one of the rows looked at, and no
/// owner gets two: a restart replays at most one fire for each schedule.
pub proof fn law_one_replay_for_each_owner(v: DataView, now: i64, n: int)
    requires
        keys_unique(v.schedules),
        0 <= n <= v.schedules.len(),
    ensures
        forall|a: int|
            0 <= a < replays_among(v, now, n).len() ==> exists|j: int|
                0 <= j < n && v.schedules[j].0 == (#[trigger] replays_among(v, now, n)[a]).owner_key,
        forall|a: int, b: int|
            0 <= a < b < replays_among(v, now, n).len() ==> replays_among(v, now, n)[a].owner_key
                != replays_among(v, now, n)[b].owner_key,
    decreases n,
{
    if n > 0 {
        law_one_replay_for_each_owner(v, now, n - 1);
        let rest = replays_among(v, now, n - 1);
        let all = replays_among(v, now, n);
        assert forall|a: int| 0 <= a < all.len() implies exists|j: int|
            0 <= j < n && v.schedules[j].0 == (#[trigger] all[a]).owner_key by {
            if a < rest.len() {
                assert(all[a] == rest[a]);
                let j = choose|j: int| 0 <= j < n - 1 && v.schedules[j].0 == rest[a].owner_key;
                assert(0 <= j < n && v.schedules[j].0 == all[a].owner_key);
            } else {
                assert(v.schedules[n - 1].0 == all[a].owner_key);
            }
        }
        assert forall|a: int, b: int| 0 <= a < b < all.len() implies all[a].owner_key
            != all[b].owner_key by {
            if b < rest.len() {
                assert(all[a] == rest[a] && all[b] == rest[b]);
            } else {
                assert(all[a] == rest[a]);
                let j = choose|j: int| 0 <= j < n - 1 && v.schedules[j].0 == rest[a].owner_key;
                assert(v.schedules[j].0 != v.schedules[n - 1].0);
            }
        }
    }
}

/// Once the action has succeeded, the schedule is not due again on the
/// same day: at most one success per owner and day.
pub proof fn law_one_success_a_day(
    e: EntryView,
    t: i64,
    now: i64,
    later: i64,
    working_day: bool,
    target: Option<i64>,
) 
    requires
        same_day(now as int, later as int),
    ensures
        !due(succeeded(e, t, now), working_day, target, later),
        !due(replayed(e, t, now, true), working_day, target, later),
{
}

/// A schedule that was due, was fired and succeeded rests for the day: the
/// success is recorded with its time, the fire is off the ledger, and no
/// later tick of the same day finds the schedule due again.
pub proof fn law_fired_schedule_rests_for_the_day(
    v: DataView,
    i: int,
    working_day: bool,
    targets: Seq<Option<i64>>,
    now: i64,
    later: i64,
    later_working_day: bool,
    later_targets: Seq<Option<i64>>,
)
    requires
        keys_unique(v.schedules),
        0 <= i < v.schedules.len(),
        due_time(v, i, working_day, targets, now) is Some,
        same_day(now as int, later as int),
    ensures
        ({
            let t = due_time(v, i, working_day, targets, now)->0;
            let after = recorded(
                ticked(v, working_day, targets, now),
                v.schedules[i].0,
                t,
                now,
                true,
            );
            &&& after.schedules.len() == v.schedules.len()
            &&& after.schedules[i].0 == v.schedules[i].0
            &&& after.schedules[i].1.last_fired == Some(now)
            &&& !after.schedules[i].1.pending.contains(t)
            &&& due_time(after, i, later_working_day, later_targets, later) is None
        }),
{
    let t = due_time(v, i, working_day, targets, now)->0;
    let begun_all = ticked(v, working_day, targets, now);
    assert forall|a: int, b: int| 0 <= a < b < begun_all.schedules.len() implies begun_all.schedules[a].0
        != begun_all.schedules[b].0 by {
        assert(v.schedules[a].0 != v.schedules[b].0);
    }
    lemma_find(begun_all.schedules, v.schedules[i].0, i);
    lemma_without(begun_all.schedules[i].1.pending, t, t);
}

/// A fire that failed stays on the ledger: the store is as the tick left
/// it, with the fire pending.
pub proof fn law_failed_fire_stays_pending(
    v: DataView,
    i: int,
    working_day: bool,
    targets: Seq<Option<i64>>,
    now: i64,
)
    requires
        0 <= i < v.schedules.len(),
        due_time(v, i, working_day, targets, now) is Some,
    ensures
        ticked(v, working_day, targets, now).schedules[i].1.pending.contains(
            due_time(v, i, working_day, targets, now)->0,
        ),
        recorded(
            ticked(v, working_day, targets, now),
            v.schedules[i].0,
            due_time(v, i, working_day, targets, now)->0,
            now,
            false,
        ) == ticked(v, working_day, targets, now),
{
    let t = due_time(v, i, working_day, targets, now)->0;
    let p = v.schedules[i].1.pending;
    if !p.contains(t) {
        assert(p.push(t)[p.len() as int] == t);
    }
}

/// A stored field as it is used: opened where it opens under `key`, and
/// taken as it stands where it does not.
pub open spec fn unsealed_field(stored: Seq<char>, key: Seq<u8>) -> Seq<char> {
    match opened(stored, key) {
        Ok(text) => text,
        Err(_) => stored,
    }
}

/// The store with both fields of every profile unsealed.
pub open spec fn unsealed(v: DataView, key: Seq<u8>) -> DataView {
    DataView {
        profiles: Seq::new(
            v.profiles.len(),
            |i: int|
                (
                    v.profiles[i].0,
                    ProfileView {
                        phone_number: unsealed_field(v.profiles[i].1.phone_number, key),
                        plate: unsealed_field(v.profiles[i].1.plate, key),
                    },
                ),
        ),
        ..v
    }
}

/// `copy` is `v` with both fields of every profile sealed under `key`:
/// each opens to the field it was made of.
pub open spec fn seals(copy: DataView, v: DataView, key: Seq<u8>) -> bool {
    &&& copy.schedules == v.schedules
    &&& copy.profiles.len() == v.profiles.len()
    &&& forall|i: int|
        0 <= i < v.profiles.len() ==> (#[trigger] copy.profiles[i]).0 == v.profiles[i].0 && opened(
            copy.profiles[i].1.phone_number,
            key,
        ) == Ok::<Seq<char>, VaultError>(v.profiles[i].1.phone_number) && opened(
            copy.profiles[i].1.plate,
            key,
        ) == Ok::<Seq<char>, VaultError>(v.profiles[i].1.plate)
}

/// Sealing a field of some profile of `v` under `key` fails with `e` for
/// some nonce.
pub open spec fn sealing_fails(v: DataView, key: Seq<u8>, e: VaultError) -> bool {
    exists|i: int, nonce: Seq<u8>|
        #![trigger sealed(v.profiles[i].1.phone_number, key, nonce)]
        #![trigger sealed(v.profiles[i].1.plate, key, nonce)]
        0 <= i < v.profiles.len() && nonce.len() == NONCE_LENGTH && (sealed(
            v.profiles[i].1.phone_number,
            key,
            nonce,
        ) == Err::<Seq<char>, VaultError>(e) || sealed(v.profiles[i].1.plate, key, nonce) == Err::<
            Seq<char>,
            VaultError,
        >(e))
}

/// Opens `stored` under `key` where it opens, and takes it as it stands
/// where it does not.
fn unseal_field(stored: &String, key: &Vec<u8>) -> (r: String)
    ensures
        r@ == unsealed_field(stored@, key@),
{
    match decrypt_data(stored.as_str(), key) {
        Ok(text) => text,
        Err(_) => stored.clone(),
    }
}

impl ScheduleData {
    /// Makes a store that was read from its file ready for use: the fields
    /// of the profiles are unsealed with `key`, and the pending fires that
    /// are older than the day of `now` are dropped. A field that does not
    /// open is kept as it stands.
    pub fn restore(&mut self, key: &Vec<u8>, now: i64)
        requires
            old(self).wf(),
        ensures
            final(self).wf(),
            final(self)@ == purged(unsealed(old(self)@, key@), now),
    {
        let mut i: usize = 0;
        while i < self.profiles.len()
            invariant
                i <= self.profiles@.len(),
                self.wf(),
                self.schedules == old(self).schedules,
                self.profiles@.len() == old(self).profiles@.len(),
                forall|j: int|
                    0 <= j < i ==> (#[trigger] self.profiles@[j]).0 == old(self).profiles@[j].0
                        && self.profiles@[j].1@ == unsealed(old(self)@, key@).profiles[j].1,
                forall|j: int|
                    i <= j < self.profiles@.len() ==> #[trigger] self.profiles@[j] == old(
                        self,
                    ).profiles@[j],
            decreases self.profiles@.len() - i,
        {
            let stored = self.profiles.value_at(i);
            let profile = Profile {
                phone_number: unseal_field(&stored.phone_number, key),
                plate: unseal_field(&stored.plate, key),
            };
            let _ = self.profiles.replace_at(i, profile);
            i += 1;
        }
        assert(self@.profiles =~= unsealed(old(self)@, key@).profiles);
        self.purge_stale(now);
    }

    /// A copy of the store for its file, with both fields of every profile
    /// sealed under `key`, each with a nonce of its own; see [`seals`]. The
    /// first field that cannot be sealed ends the attempt, with the error of
    /// sealing that field; see [`sealing_fails`]. A store without profiles is
    /// copied whatever the key; with profiles, a key is refused exactly if it
    /// is not 32 bytes long.
    pub fn sealed_copy(&self, key: &Vec<u8>) -> (r: Result<ScheduleData, VaultError>)
        requires
            self.wf(),
        ensures
            r matches Ok(copy) ==> copy.wf() && seals(copy@, self@, key@),
            r matches Err(e) ==> sealing_fails(self@, key@, e),
            self@.profiles.len() == 0 ==> r is Ok,
            r matches Err(VaultError::InvalidKey) <==> self@.profiles.len() > 0 && key@.len()
                != KEY_LENGTH,
    {
        let mut copy = ScheduleData::new();
        let mut i: usize = 0;
        while i < self.profiles.len()
            invariant
                i <= self.profiles@.len(),
                self.wf(),
                copy.wf(),
                copy.schedules@.len() == 0,
                copy.profiles@.len() == i,
                i > 0 ==> key@.len() == KEY_LENGTH,
                forall|j: int|
                    0 <= j < i ==> (#[trigger] copy.profiles@[j]).0 == self.profiles@[j].0 && opened(
                        copy.profiles@[j].1.phone_number@,
                        key@,
                    ) == Ok::<Seq<char>, VaultError>(self.profiles@[j].1.phone_number@) && opened(
                        copy.profiles@[j].1.plate@,
                        key@,
                    ) == Ok::<Seq<char>, VaultError>(self.profiles@[j].1.plate@),
            decreases self.profiles@.len() - i,
        {
            let owner = self.profiles.key_at(i);
            let plain = self.profiles.value_at(i);
            let phone_number = match encrypt_data(plain.phone_number.as_str(), key) {
                Ok(text) => text,
                Err(e) => {
                    proof {
                        let nonce = choose|nonce: Seq<u8>|
                            nonce.len() == NONCE_LENGTH && #[trigger] sealed(
                                plain.phone_number@,
                                key@,
                                nonce,
                            ) == Err::<Seq<char>, VaultError>(e);
                        assert(sealed(self@.profiles[i as int].1.phone_number, key@, nonce) == Err::<
                            Seq<char>,
                            VaultError,
                        >(e));
                    }
                    return Err(e);
                },
            };
            let plate = match encrypt_data(plain.plate.as_str(), key) {
                Ok(text) => text,
                Err(e) => {
                    proof {
                        let nonce = choose|nonce: Seq<u8>|
                            nonce.len() == NONCE_LENGTH && #[trigger] sealed(
                                plain.plate@,
                                key@,
                                nonce,
                            ) == Err::<Seq<char>, VaultError>(e);
                        assert(sealed(self@.profiles[i as int].1.plate, key@, nonce) == Err::<
                            Seq<char>,
                            VaultError,
                        >(e));
                    }
                    return Err(e);
                },
            };
            proof {
                assert(!(has(copy.profiles@, owner))) by {
                    if has(copy.profiles@, owner) {
                        let j = choose|j: int|
                            0 <= j < copy.profiles@.len() && (#[trigger] copy.profiles@[j]).0
                                == owner;
                        assert(self.profiles@[j].0 != self.profiles@[i as int].0);
                    }
                }
            }
            let _ = copy.profiles.put(owner, Profile { phone_number, plate });
            i += 1;
        }
        let mut k: usize = 0;
        while k < self.schedules.len()
            invariant
                k <= self.schedules@.len(),
                self.wf(),
                copy.wf(),
                copy.schedules@.len() == k,
                copy.profiles@.len() == self.profiles@.len(),
                forall|j: int|
                    0 <= j < k ==> (#[trigger] copy.schedules@[j]).0 == self.schedules@[j].0
                        && copy.schedules@[j].1@ == self.schedules@[j].1@,
                forall|j: int|
                    0 <= j < copy.profiles@.len() ==> (#[trigger] copy.profiles@[j]).0
                        == self.profiles@[j].0 && opened(copy.profiles@[j].1.phone_number@, key@)
                        == Ok::<Seq<char>, VaultError>(self.profiles@[j].1.phone_number@) && opened(
                        copy.profiles@[j].1.plate@,
                        key@,
                    ) == Ok::<Seq<char>, VaultError>(self.profiles@[j].1.plate@),
            decreases self.schedules@.len() - k,
        {
            let owner = self.schedules.key_at(k);
            proof {
                assert(!(has(copy.schedules@, owner))) by {
                    if has(copy.schedules@, owner) {
                        let j = choose|j: int|
                            0 <= j < copy.schedules@.len() && (#[trigger] copy.schedules@[j]).0
                                == owner;
                        assert(self.schedules@[j].0 != self.schedules@[k as int].0);
                    }
                }
            }
            let _ = copy.schedules.put(owner, self.schedules.value_at(k).duplicate());
            k += 1;
        }
        assert(copy@.schedules =~= self@.schedules);
        assert forall|i: int| 0 <= i < self@.profiles.len() implies (#[trigger] copy@.profiles[i]).0
            == self@.profiles[i].0 && opened(copy@.profiles[i].1.phone_number, key@) == Ok::<
            Seq<char>,
            VaultError,
        >(self@.profiles[i].1.phone_number) && opened(copy@.profiles[i].1.plate, key@) == Ok::<
            Seq<char>,
            VaultError,
        >(self@.profiles[i].1.plate) by {
            assert(copy.profiles@[i].0 == self.profiles@[i].0);
        }
        Ok(copy)
    }
}

} // verus!
