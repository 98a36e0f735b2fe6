//! One-shot reminders: each is due once its time has come, is handed out
//! on every poll until its delivery is confirmed, and is deleted then.

use crate::text::{
    chars_of, decimal_text, lower_text, push_decimal, push_signed, same_text, signed_text,
    string_of, trim, trimmed,
};
use vstd::string::StrSliceExecFns;
use vstd::prelude::*;
use vstd::string::StringExecFns;

verus! {

/// A reminder to deliver in `channel_id` to `user_id` at `remind_at`.
#[derive(Debug)]
pub struct Reminder {
    pub id: u64,
    pub user_id: u64,
    pub channel_id: u64,
    pub message: String,
    pub remind_at: i64,
    pub created_at: i64,
    /// The message that the reminder was set in reply to.
    pub reply_to_message_id: Option<u64>,
}

/// A reminder as contracts see it.
pub struct ReminderView {
    pub id: u64,
    pub user_id: u64,
    pub channel_id: u64,
    pub message: Seq<char>,
    pub remind_at: i64,
    pub created_at: i64,
    pub reply_to_message_id: Option<u64>,
}

impl View for Reminder {
    type V = ReminderView;

    open spec fn view(&self) -> ReminderView {
        ReminderView {
            id: self.id,
            user_id: self.user_id,
            channel_id: self.channel_id,
            message: self.message@,
            remind_at: self.remind_at,
            created_at: self.created_at,
            reply_to_message_id: self.reply_to_message_id,
        }
    }
}

impl Reminder {
    /// A copy of the reminder.
    pub fn duplicate(&self) -> (r: Reminder)
        ensures
            r@ == self@,
    {
        Reminder {
            id: self.id,
            user_id: self.user_id,
            channel_id: self.channel_id,
            message: self.message.clone(),
            remind_at: self.remind_at,
            created_at: self.created_at,
            reply_to_message_id: self.reply_to_message_id,
        }
    }
}

/// The reminders that wait, oldest first, and the number the next one
/// gets.
#[derive(Debug)]
pub struct RemindersData {
    pub reminders: Vec<Reminder>,
    pub next_id: u64,
}

/// The reminders as contracts see them.
pub struct RemindersView {
    pub reminders: Seq<ReminderView>,
    pub next_id: u64,
}

pub open spec fn reminder_views(s: Seq<Reminder>) -> Seq<ReminderView> {
    Seq::new(s.len(), |i: int| s[i]@)
}

impl View for RemindersData {
    type V = RemindersView;

    open spec fn view(&self) -> RemindersView {
        RemindersView { reminders: reminder_views(self.reminders@), next_id: self.next_id }
    }
}

impl Default for RemindersData {
    /// No reminders; the first gets the number 1.
    fn default() -> (d: Self)
        ensures
            d@.reminders.len() == 0,
            d@.next_id == 1,
    {
        RemindersData { reminders: Vec::new(), next_id: 1 }
    }
}

/// Why a reminder could not be set.
#[derive(Clone, Copy, PartialEq, Eq, Structural, Debug)]
pub enum RemindError {
    /// No message was given and the request replies to none.
    MissingMessage,
    /// The time is not a number followed by a unit, or lies too far ahead.
    InvalidTime,
    /// The numbers for reminders have run out.
    Full,
}

/// The longest time ahead, in seconds, that a reminder can be set for.
pub const MAX_AHEAD: i64 = 9_223_372_036_854_775;

/// The message of a reminder set without one, in reply to a message.
pub open spec fn default_message() -> Seq<char> {
    "⏰ Reminder"@
}

pub open spec fn is_digit(c: char) -> bool {
    '0' <= c <= '9'
}

/// The digits of a text, in their order.
pub open spec fn digits_of(s: Seq<char>) -> Seq<char>
    decreases s.len(),
{
    if s.len() == 0 {
        Seq::empty()
    } else if is_digit(s.last()) {
        digits_of(s.drop_last()).push(s.last())
    } else {
        digits_of(s.drop_last())
    }
}

/// The characters of a text that are no digits, in their order.
pub open spec fn rest_of(s: Seq<char>) -> Seq<char>
    decreases s.len(),
{
    if s.len() == 0 {
        Seq::empty()
    } else if !is_digit(s.last()) {
        rest_of(s.drop_last()).push(s.last())
    } else {
        rest_of(s.drop_last())
    }
}

/// The number that a text of digits writes in decimal.
pub open spec fn value_of(digits: Seq<char>) -> nat
    decreases digits.len(),
{
    if digits.len() == 0 {
        0
    } else {
        (10 * value_of(digits.drop_last()) + (digits.last() as int - '0' as int)) as nat
    }
}

/// How many seconds a unit of time has, by its name.
pub open spec fn unit_seconds(unit: Seq<char>) -> Option<int> {
    if unit == "s"@ || unit == "sec"@ || unit == "second"@ || unit == "seconds"@ {
        Some(1)
    } else if unit == "m"@ || unit == "min"@ || unit == "minute"@ || unit == "minutes"@ {
        Some(60)
    } else if unit == "h"@ || unit == "hr"@ || unit == "hour"@ || unit == "hours"@ {
        Some(3600)
    } else if unit == "d"@ || unit == "day"@ || unit == "days"@ {
        Some(86400)
    } else if unit == "w"@ || unit == "week"@ || unit == "weeks"@ {
        Some(604800)
    } else {
        None
    }
}

/// The time, in seconds, that a text in lower case such as `5m`, `1h` or
/// `2 days` names. Its digits, wherever they stand, are the number; what is
/// left, trimmed, is the unit. There must be a digit, the unit must be
/// known, and the time must not exceed [`MAX_AHEAD`].
pub open spec fn lowered_duration(lower: Seq<char>) -> Option<i64> {
    let digits = digits_of(lower);
    let unit = trimmed(rest_of(lower));
    if digits.len() == 0 || value_of(digits) > i64::MAX {
        None
    } else {
        match unit_seconds(unit) {
            Some(factor) => if value_of(digits) * factor <= MAX_AHEAD {
                Some((value_of(digits) * factor) as i64)
            } else {
                None
            },
            None => None,
        }
    }
}

/// The time, in seconds, that a text names, whatever the case it is
/// written in: the text is taken in lower case.
pub open spec fn duration_of(text: Seq<char>) -> Option<i64> {
    lowered_duration(lower_text(text))
}

/// How many seconds the unit named `unit` has.
fn seconds_in(unit: &str) -> (r: Option<i64>)
    ensures
        r matches Some(n) ==> unit_seconds(unit@) == Some(n as int),
        r is None ==> unit_seconds(unit@) is None,
{
    if same_text(unit, "s") || same_text(unit, "sec") || same_text(unit, "second") || same_text(
        unit,
        "seconds",
    ) {
        Some(1)
    } else if same_text(unit, "m") || same_text(unit, "min") || same_text(unit, "minute")
        || same_text(unit, "minutes") {
        Some(60)
    } else if same_text(unit, "h") || same_text(unit, "hr") || same_text(unit, "hour") || same_text(
        unit,
        "hours",
    ) {
        Some(3600)
    } else if same_text(unit, "d") || same_text(unit, "day") || same_text(unit, "days") {
        Some(86400)
    } else if same_text(unit, "w") || same_text(unit, "week") || same_text(unit, "weeks") {
        Some(604800)
    } else {
        None
    }
}

/// A number with more digits is no smaller.
proof fn lemma_value_grows(digits: Seq<char>)
    requires
        digits.len() > 0,
        forall|i: int| 0 <= i < digits.len() ==> is_digit(#[trigger] digits[i]),
    ensures
        value_of(digits) >= value_of(digits.drop_last()),
{
    assert(is_digit(digits[digits.len() - 1]));
}

/// The digits of a text are digits.
proof fn lemma_digits_are_digits(s: Seq<char>)
    ensures
        forall|i: int| 0 <= i < digits_of(s).len() ==> is_digit(#[trigger] digits_of(s)[i]),
    decreases s.len(),
{
    if s.len() > 0 {
        lemma_digits_are_digits(s.drop_last());
        let init = digits_of(s.drop_last());
        assert forall|i: int| 0 <= i < digits_of(s).len() implies is_digit(
            #[trigger] digits_of(s)[i],
        ) by {
            if i < init.len() {
                assert(digits_of(s)[i] == init[i]);
            }
        }
    }
}

/// Reads a time such as `5m`, `1H` or `2 Days`, in seconds; see
/// [`duration_of`].
pub fn parse_time_duration(time_str: &str) -> (r: Option<i64>)
    ensures
        r == duration_of(time_str@),
{
    let lower = time_str.to_lowercase();
    parse_lowered(lower.as_str())
}

/// Reads a time written in lower case, in seconds; see
/// [`lowered_duration`].
pub fn parse_lowered(lower: &str) -> (r: Option<i64>)
    ensures
        r == lowered_duration(lower@),
{
    let letters = chars_of(lower);
    let mut number: u64 = 0;
    let mut any_digit = false;
    let mut too_large = false;
    let mut unit: Vec<char> = Vec::new();
    let mut i: usize = 0;
    while i < letters.len()
        invariant
            i <= letters.len(),
            any_digit == (digits_of(letters@.take(i as int)).len() > 0),
            unit@ == rest_of(letters@.take(i as int)),
            too_large == (value_of(digits_of(letters@.take(i as int))) > i64::MAX),
            !too_large ==> number == value_of(digits_of(letters@.take(i as int))),
        decreases letters.len() - i,
    {
        assert(letters@.take(i + 1).drop_last() =~= letters@.take(i as int));
        let c = letters[i];
        if c >= '0' && c <= '9' {
            let ghost before = digits_of(letters@.take(i as int));
            let ghost after = digits_of(letters@.take(i + 1));
            assert(after == before.push(c));
            assert(after.drop_last() =~= before);
            any_digit = true;
            let d: u64 = (c as u32 - '0' as u32) as u64;
            if !too_large {
                if number > (i64::MAX as u64 - d) / 10 {
                    too_large = true;
                } else {
                    number = number * 10 + d;
                }
            } else {
                proof {
                    lemma_digits_are_digits(letters@.take(i + 1));
                    lemma_value_grows(after);
                }
            }
        } else {
            unit.push(c);
        }
        i += 1;
    }
    assert(letters@.take(i as int) =~= letters@);
    if !any_digit || too_large {
        return None;
    }
    let rest = string_of(&unit);
    match seconds_in(trim(rest.as_str()).as_str()) {
        None => None,
        Some(factor) => {
            if number > (MAX_AHEAD / factor) as u64 {
                assert(number * factor > MAX_AHEAD) by (nonlinear_arith)
                    requires
                        number > MAX_AHEAD / factor,
                        factor == 1 || factor == 60 || factor == 3600 || factor == 86400 || factor
                            == 604800,
                ;
                None
            } else {
                assert(number * factor <= MAX_AHEAD) by (nonlinear_arith)
                    requires
                        number <= MAX_AHEAD / factor,
                        factor == 1 || factor == 60 || factor == 3600 || factor == 86400 || factor
                            == 604800,
                ;
                Some(number as i64 * factor)
            }
        },
    }
}

/// A length of time in words: seconds below a minute, whole minutes below
/// an hour, whole hours below a day, else whole days.
pub open spec fn duration_text(total_seconds: int) -> Seq<char> {
    if total_seconds < 60 {
        signed_text(total_seconds).push('s')
    } else if total_seconds < 3600 {
        decimal_text((total_seconds / 60) as nat).push('m')
    } else if total_seconds < 86400 {
        decimal_text((total_seconds / 3600) as nat).push('h')
    } else {
        decimal_text((total_seconds / 86400) as nat).push('d')
    }
}

/// Writes a length of time of `total_seconds` in words; see
/// [`duration_text`].
pub fn format_duration(total_seconds: i64) -> (s: String)
    ensures
        s@ == duration_text(total_seconds as int),
{
    let mut s = String::new();
    if total_seconds < 60 {
        push_signed(&mut s, total_seconds);
        s.push('s');
    } else if total_seconds < 3600 {
        push_decimal(&mut s, (total_seconds / 60) as u64);
        s.push('m');
    } else if total_seconds < 86400 {
        push_decimal(&mut s, (total_seconds / 3600) as u64);
        s.push('h');
    } else {
        push_decimal(&mut s, (total_seconds / 86400) as u64);
        s.push('d');
    }
    assert(s@ =~= duration_text(total_seconds as int));
    s
}

/// The reminders of `user` among the first `n` that are still to come at
/// `now`, in their order.
pub open spec fn active_among(v: Seq<ReminderView>, user: u64, now: i64, n: int) -> Seq<ReminderView>
    decreases n,
{
    if n <= 0 {
        Seq::empty()
    } else if v[n - 1].user_id == user && v[n - 1].remind_at > now {
        active_among(v, user, now, n - 1).push(v[n - 1])
    } else {
        active_among(v, user, now, n - 1)
    }
}

/// The reminders among the first `n` whose time has come at `now`, in
/// their order.
pub open spec fn due_among(v: Seq<ReminderView>, now: i64, n: int) -> Seq<ReminderView>
    decreases n,
{
    if n <= 0 {
        Seq::empty()
    } else if v[n - 1].remind_at <= now {
        due_among(v, now, n - 1).push(v[n - 1])
    } else {
        due_among(v, now, n - 1)
    }
}

/// The reminders among the first `n` that are not of `user`, in their
/// order.
pub open spec fn others_among(v: Seq<ReminderView>, user: u64, n: int) -> Seq<ReminderView>
    decreases n,
{
    if n <= 0 {
        Seq::empty()
    } else if v[n - 1].user_id != user {
        others_among(v, user, n - 1).push(v[n - 1])
    } else {
        others_among(v, user, n - 1)
    }
}

/// The place of the first reminder at or after `from` that has the number
/// `id` and, where `user` names one, that owner.
pub open spec fn place_of(v: Seq<ReminderView>, id: u64, user: Option<u64>, from: int) -> Option<int>
    decreases v.len() - from,
{
    if from < 0 || from >= v.len() {
        None
    } else if v[from].id == id && (user matches Some(u) ==> v[from].user_id == u) {
        Some(from)
    } else {
        place_of(v, id, user, from + 1)
    }
}

/// The message a reminder gets: what was given, trimmed, unless that is
/// empty; a reminder set in reply to a message needs none.
pub open spec fn message_for(message: Option<Seq<char>>, has_reply: bool) -> Option<Seq<char>> {
    match message {
        Some(m) => if trimmed(m).len() > 0 {
            Some(trimmed(m))
        } else if has_reply {
            Some(default_message())
        } else {
            None
        },
        None => if has_reply {
            Some(default_message())
        } else {
            None
        },
    }
}

pub open spec fn words_of(t: Option<&str>) -> Option<Seq<char>> {
    match t {
        Some(s) => Some(s@),
        None => None,
    }
}

/// What setting a reminder comes to, given the time ahead that was read
/// from the request, if one could be: the reminder to add, or why there is
/// none. The message is looked at first, then the time, then the numbers
/// left.
pub open spec fn planned_in(
    v: RemindersView,
    now: i64,
    user: u64,
    channel: u64,
    duration: Option<i64>,
    message: Option<Seq<char>>,
    reply_to: Option<u64>,
) -> Result<ReminderView, RemindError> {
    match message_for(message, reply_to is Some) {
        None => Err(RemindError::MissingMessage),
        Some(text) => match duration {
            None => Err(RemindError::InvalidTime),
            Some(ahead) => if now + ahead > i64::MAX || now + ahead < i64::MIN {
                Err(RemindError::InvalidTime)
            } else if v.next_id == u64::MAX {
                Err(RemindError::Full)
            } else {
                Ok(
                    ReminderView {
                        id: v.next_id,
                        user_id: user,
                        channel_id: channel,
                        message: text,
                        remind_at: (now + ahead) as i64,
                        created_at: now,
                        reply_to_message_id: reply_to,
                    },
                )
            },
        },
    }
}

/// What setting a reminder for the time `time` from `now` comes to.
pub open spec fn planned(
    v: RemindersView,
    now: i64,
    user: u64,
    channel: u64,
    time: Seq<char>,
    message: Option<Seq<char>>,
    reply_to: Option<u64>,
) -> Result<ReminderView, RemindError> {
    planned_in(v, now, user, channel, duration_of(time), message, reply_to)
}

impl RemindersData {
    /// No reminders; the first gets the number 1.
    pub fn new() -> (d: Self)
        ensures
            d@.reminders.len() == 0,
            d@.next_id == 1,
    {
        RemindersData { reminders: Vec::new(), next_id: 1 }
    }

    /// Sets a reminder for `user` in `channel`, `time` from `now`; see
    /// [`planned`]. It is added at the end with the next number, and a copy
    /// is handed back. A refusal changes nothing.
    pub fn set_reminder(
        &mut self,
        now: i64,
        user: u64,
        channel: u64,
        time: &str,
        message: Option<&str>,
        reply_to: Option<u64>,
    ) -> (r: Result<Reminder, RemindError>)
        ensures
            match planned(old(self)@, now, user, channel, time@, words_of(message), reply_to) {
                Ok(v) => r matches Ok(added) && added@ == v && final(self)@ == (RemindersView {
                    reminders: old(self)@.reminders.push(v),
                    next_id: (old(self)@.next_id + 1) as u64,
                }),
                Err(e) => r == Err::<Reminder, RemindError>(e) && final(self)@ == old(self)@,
            },
    {
        self.set_reminder_in(now, user, channel, parse_time_duration(time), message, reply_to)
    }

    /// Sets a reminder for `user` in `channel`, `duration` seconds from
    /// `now`, where a time could be read from the request; see
    /// [`planned_in`]. A refusal changes nothing.
    pub fn set_reminder_in(
        &mut self,
        now: i64,
        user: u64,
        channel: u64,
        duration: Option<i64>,
        message: Option<&str>,
        reply_to: Option<u64>,
    ) -> (r: Result<Reminder, RemindError>)
        ensures
            match planned_in(old(self)@, now, user, channel, duration, words_of(message), reply_to) {
                Ok(v) => r matches Ok(added) && added@ == v && final(self)@ == (RemindersView {
                    reminders: old(self)@.reminders.push(v),
                    next_id: (old(self)@.next_id + 1) as u64,
                }),
                Err(e) => r == Err::<Reminder, RemindError>(e) && final(self)@ == old(self)@,
            },
    {
        let given: Option<String> = match message {
            Some(m) => {
                let t = trim(m);
                if t.as_str().unicode_len() > 0 {
                    Some(t)
                } else {
                    None
                }
            },
            None => None,
        };
        let text = match given {
            Some(t) => t,
            None => {
                if reply_to.is_some() {
                    String::from_str("⏰ Reminder")
                } else {
                    return Err(RemindError::MissingMessage);
                }
            },
        };
        let ahead = match duration {
            Some(a) => a,
            None => {
                return Err(RemindError::InvalidTime);
            },
        };
        let at: i128 = now as i128 + ahead as i128;
        if at > i64::MAX as i128 || at < i64::MIN as i128 {
            return Err(RemindError::InvalidTime);
        }
        if self.next_id == u64::MAX {
            return Err(RemindError::Full);
        }
        let reminder = Reminder {
            id: self.next_id,
            user_id: user,
            channel_id: channel,
            message: text,
            remind_at: at as i64,
            created_at: now,
            reply_to_message_id: reply_to,
        };
        let copy = reminder.duplicate();
        self.reminders.push(reminder);
        self.next_id = self.next_id + 1;
        assert(self@.reminders =~= old(self)@.reminders.push(copy@));
        Ok(copy)
    }

    /// The reminders of `user` that are still to come at `now`, oldest
    /// first.
    pub fn active_for(&self, user: u64, now: i64) -> (list: Vec<Reminder>)
        ensures
            reminder_views(list@) == active_among(
                self@.reminders,
                user,
                now,
                self@.reminders.len() as int,
            ),
    {
        let mut list: Vec<Reminder> = Vec::new();
        let mut i: usize = 0;
        while i < self.reminders.len()
            invariant
                i <= self.reminders.len(),
                reminder_views(list@) == active_among(self@.reminders, user, now, i as int),
            decreases self.reminders.len() - i,
        {
            let r = &self.reminders[i];
            if r.user_id == user && r.remind_at > now {
                let ghost before = list@;
                list.push(r.duplicate());
                assert(reminder_views(list@) =~= reminder_views(before).push(r@));
            }
            i += 1;
        }
        list
    }

    /// The reminders whose time has come at `now`, oldest first. Each is to
    /// be delivered, and its delivery reported with
    /// [`RemindersData::confirm_sent`]; until then it stays and is due again.
    pub fn due(&self, now: i64) -> (list: Vec<Reminder>)
        ensures
            reminder_views(list@) == due_among(self@.reminders, now, self@.reminders.len() as int),
    {
        let mut list: Vec<Reminder> = Vec::new();
        let mut i: usize = 0;
        while i < self.reminders.len()
            invariant
                i <= self.reminders.len(),
                reminder_views(list@) == due_among(self@.reminders, now, i as int),
            decreases self.reminders.len() - i,
        {
            let r = &self.reminders[i];
            if r.remind_at <= now {
                let ghost before = list@;
                list.push(r.duplicate());
                assert(reminder_views(list@) =~= reminder_views(before).push(r@));
            }
            i += 1;
        }
        list
    }

    /// The place of the first reminder with the number `id` and, where
    /// `user` names one, that owner.
    fn locate(&self, id: u64, user: Option<u64>) -> (r: Option<usize>)
        ensures
            r matches Some(i) ==> place_of(self@.reminders, id, user, 0) == Some(i as int) && i
                < self.reminders@.len(),
            r is None ==> place_of(self@.reminders, id, user, 0) is None,
    {
        let mut i: usize = self.reminders.len();
        let mut found: Option<usize> = None;
        while i > 0
            invariant
                i <= self.reminders.len(),
                found matches Some(k) ==> place_of(self@.reminders, id, user, i as int) == Some(
                    k as int,
                ) && k < self.reminders@.len(),
                found is None ==> place_of(self@.reminders, id, user, i as int) is None,
            decreases i,
        {
            i -= 1;
            let r = &self.reminders[i];
            let owned = match user {
                Some(u) => r.user_id == u,
                None => true,
            };
            if r.id == id && owned {
                found = Some(i);
            }
        }
        found
    }

    /// Removes the reminder `id` of `user` and hands it back. Nothing
    /// changes where `user` has no reminder with that number.
    pub fn remove(&mut self, id: u64, user: u64) -> (r: Option<Reminder>)
        ensures
            match place_of(old(self)@.reminders, id, Some(user), 0) {
                Some(i) => r matches Some(removed) && removed@ == old(self)@.reminders[i]
                    && final(self)@ == (RemindersView {
                    reminders: old(self)@.reminders.remove(i),
                    ..old(self)@
                }),
                None => r is None && final(self)@ == old(self)@,
            },
    {
        match self.locate(id, Some(user)) {
            Some(i) => {
                let removed = self.reminders.remove(i);
                assert(self@.reminders =~= old(self)@.reminders.remove(i as int));
                Some(removed)
            },
            None => None,
        }
    }

    /// Deletes the reminder `id` once it was delivered, and says whether
    /// there was one.
    pub fn confirm_sent(&mut self, id: u64) -> (r: bool)
        ensures
            match place_of(old(self)@.reminders, id, None, 0) {
                Some(i) => r && final(self)@ == (RemindersView {
                    reminders: old(self)@.reminders.remove(i),
                    ..old(self)@
                }),
                None => !r && final(self)@ == old(self)@,
            },
    {
        match self.locate(id, None) {
            Some(i) => {
                let _ = self.reminders.remove(i);
                assert(self@.reminders =~= old(self)@.reminders.remove(i as int));
                true
            },
            None => false,
        }
    }

    /// Removes every reminder of `user` and says how many there were.
    pub fn clear_for(&mut self, user: u64) -> (removed: usize)
        ensures
            final(self)@ == (RemindersView {
                reminders: others_among(
                    old(self)@.reminders,
                    user,
                    old(self)@.reminders.len() as int,
                ),
                ..old(self)@
            }),
            removed == old(self)@.reminders.len() - final(self)@.reminders.len(),
    {
        let mut rest: Vec<Reminder> = Vec::new();
        let mut i: usize = 0;
        while i < self.reminders.len()
            invariant
                i <= self.reminders.len(),
                *self == *old(self),
                rest@.len() <= i,
                reminder_views(rest@) == others_among(self@.reminders, user, i as int),
            decreases self.reminders.len() - i,
        {
            let r = &self.reminders[i];
            if r.user_id != user {
                let ghost before = rest@;
                rest.push(r.duplicate());
                assert(reminder_views(rest@) =~= reminder_views(before).push(r@));
            }
            i += 1;
        }
        let removed = self.reminders.len() - rest.len();
        self.reminders = rest;
        removed
    }
}

/// A reminder that is due stays due as time goes on: until its delivery is
/// confirmed it is handed out on every poll.
pub proof fn law_unconfirmed_reminder_stays_due(v: Seq<ReminderView>, now: i64, later: i64, n: int, r: ReminderView)
    requires
        now <= later,
        0 <= n <= v.len(),
        due_among(v, now, n).contains(r),
    ensures
        due_among(v, later, n).contains(r),
    decreases n,
{
    if n > 0 {
        let rest = due_among(v, now, n - 1);
        let rest_later = due_among(v, later, n - 1);
        if v[n - 1].remind_at <= now {
            vstd::seq_lib::lemma_seq_contains_after_push(rest, v[n - 1], r);
            vstd::seq_lib::lemma_seq_contains_after_push(rest_later, v[n - 1], r);
            if rest.contains(r) {
                law_unconfirmed_reminder_stays_due(v, now, later, n - 1, r);
            }
        } else {
            law_unconfirmed_reminder_stays_due(v, now, later, n - 1, r);
            if v[n - 1].remind_at <= later {
                vstd::seq_lib::lemma_seq_contains_after_push(rest_later, v[n - 1], r);
            }
        }
    }
}

/// What is due is a reminder that waits and whose time has come, and every
/// such reminder is due.
pub proof fn law_due_is_what_has_come(v: Seq<ReminderView>, now: i64, n: int, r: ReminderView)
    requires
        0 <= n <= v.len(),
    ensures
        due_among(v, now, n).contains(r) <==> (r.remind_at <= now && exists|i: int|
            0 <= i < n && v[i] == r),
    decreases n,
{
    if n > 0 {
        law_due_is_what_has_come(v, now, n - 1, r);
        let rest = due_among(v, now, n - 1);
        if v[n - 1].remind_at <= now {
            vstd::seq_lib::lemma_seq_contains_after_push(rest, v[n - 1], r);
        }
        if r.remind_at <= now && exists|i: int| 0 <= i < n && v[i] == r {
            let i = choose|i: int| 0 <= i < n && v[i] == r;
            if i < n - 1 {
                assert(0 <= i < n - 1 && v[i] == r);
            }
        }
    }
}

} // verus!
