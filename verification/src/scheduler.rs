//! The rule that decides which reminders are due, and the phases of the
//! scheduler that applies it once a minute.

use crate::date::as_int;
use crate::date::calc_days_until;
use crate::date::days_until;
use crate::date::parsed_date;
use crate::date::CalendarDate;
use crate::text::clock_text;
use crate::text::current_clock_time;
use crate::text::decimal_string;
use crate::text::decimal_text;
use crate::todo::Todo;
use vstd::prelude::*;
use vstd::string::*;

verus! {

/// A reminder to hand to the notifier: a heading and a message.
#[derive(Debug, PartialEq, Eq)]
pub struct Reminder {
    pub title: String,
    pub body: String,
}

/// The texts of a reminder.
pub struct ReminderText {
    pub title: Seq<char>,
    pub body: Seq<char>,
}

impl View for Reminder {
    type V = ReminderText;

    open spec fn view(&self) -> ReminderText {
        ReminderText { title: self.title@, body: self.body@ }
    }
}

/// The texts of an optional reminder.
pub open spec fn view_of(reminder: Option<Reminder>) -> Option<ReminderText> {
    match reminder {
        Some(m) => Some(m@),
        None => None,
    }
}

/// The texts of a sequence of reminders.
pub open spec fn views_of(reminders: Seq<Reminder>) -> Seq<ReminderText> {
    reminders.map_values(|m: Reminder| m@)
}

/// The heading every reminder carries.
pub open spec fn reminder_title() -> Seq<char> {
    "📅 D-Day Todo 알림"@
}

/// The message for an item with `days` days left: a fixed sentence on the day
/// itself, the signed count of days otherwise, each followed by the item's
/// title.
pub open spec fn reminder_body(days: int, title: Seq<char>) -> Seq<char> {
    if days == 0 {
        "오늘이 D-Day입니다! - "@ + title
    } else {
        "D-"@ + decimal_text(days) + " - "@ + title
    }
}

/// `days` is one of the offsets; an offset listed twice counts as once.
pub open spec fn offsets_contain(offsets: Seq<i64>, days: int) -> bool {
    exists|i: int| 0 <= i < offsets.len() && #[trigger] offsets[i] == days
}

/// Whether an item fires: it is not completed, its target date could be read,
/// its notification time is the current minute to the letter, and the days
/// left are among its offsets.
pub open spec fn fires(todo: Todo, days: Option<int>, clock: Seq<char>) -> bool {
    &&& !todo.completed
    &&& days is Some
    &&& todo.notification_time@ == clock
    &&& offsets_contain(todo.notify_days@, days->0)
}

/// The reminder an item gives, if any, once the days left are known.
pub open spec fn reminder_given(todo: Todo, days: Option<int>, clock: Seq<char>) -> Option<
    ReminderText,
> {
    if fires(todo, days, clock) {
        Some(ReminderText { title: reminder_title(), body: reminder_body(days->0, todo.title@) })
    } else {
        None
    }
}

/// The reminder an item gives, if any, on the day `today` at the minute `clock`.
pub open spec fn reminder_of(todo: Todo, today: CalendarDate, clock: Seq<char>) -> Option<
    ReminderText,
> {
    reminder_given(todo, days_until(parsed_date(todo.dday@), today), clock)
}

/// The reminders of one cycle: each item is judged on its own, and the
/// reminders come in the order of the items.
pub open spec fn due_reminders(todos: Seq<Todo>, today: CalendarDate, clock: Seq<char>) -> Seq<
    ReminderText,
>
    decreases todos.len(),
{
    if todos.len() == 0 {
        Seq::empty()
    } else {
        let earlier = due_reminders(todos.drop_last(), today, clock);
        match reminder_of(todos.last(), today, clock) {
            Some(m) => earlier.push(m),
            None => earlier,
        }
    }
}

/// Whether `days` is among the offsets.
pub fn contains_offset(offsets: &Vec<i64>, days: i64) -> (r: bool)
    ensures
        r == offsets_contain(offsets@, days as int),
{
    let mut i: usize = 0;
    while i < offsets.len()
        invariant
            i <= offsets.len(),
            forall|j: int| 0 <= j < i ==> #[trigger] offsets@[j] != days,
        decreases offsets.len() - i,
    {
        if offsets[i] == days {
            return true;
        }
        i += 1;
    }
    false
}

/// Writes the message for an item with `days` days left.
pub fn body_string(days: i64, title: &String) -> (r: String)
    ensures
        r@ == reminder_body(days as int, title@),
{
    if days == 0 {
        String::from_str("오늘이 D-Day입니다! - ").concat(title.as_str())
    } else {
        let count = decimal_string(days);
        String::from_str("D-").concat(count.as_str()).concat(" - ").concat(title.as_str())
    }
}

/// Judges one item at the minute `now`, given the days left until its target
/// date (`None` where the date could not be read), and writes its reminder
/// where it fires.
pub fn evaluate(todo: &Todo, days_left: Option<i64>, now: &String) -> (r: Option<Reminder>)
    ensures
        view_of(r) == reminder_given(*todo, as_int(days_left), now@),
{
    if todo.completed {
        return None;
    }
    let days: i64 = match days_left {
        Some(d) => d,
        None => {
            return None;
        },
    };
    if !(todo.notification_time == *now) {
        return None;
    }
    if !contains_offset(&todo.notify_days, days) {
        return None;
    }
    let body = body_string(days, &todo.title);
    Some(Reminder { title: String::from_str("📅 D-Day Todo 알림"), body })
}

/// One cycle of the scheduler: judges every item of the collection on the day
/// `today` at the wall-clock time `hour:minute` and returns the reminders to
/// show, in the order of the items. An item whose date cannot be read is
/// passed over and does not stop the others.
///
/// The match is on the exact minute and no record is kept of what fired
/// before: a second cycle within the same minute gives the same reminders
/// again, and a minute in which no cycle runs is missed. The caller's cadence
/// of one cycle a minute is what makes an item fire once a day.
pub fn check_notifications(todos: &Vec<Todo>, today: &CalendarDate, hour: u32, minute: u32) -> (r:
    Vec<Reminder>)
    requires
        today.wf(),
    ensures
        views_of(r@) == due_reminders(todos@, *today, clock_text(hour as nat, minute as nat)),
{
    let now = current_clock_time(hour, minute);
    let mut reminders: Vec<Reminder> = Vec::new();
    let mut i: usize = 0;
    assert(views_of(reminders@) =~= due_reminders(todos@.take(0), *today, now@));
    while i < todos.len()
        invariant
            i <= todos.len(),
            today.wf(),
            now@ == clock_text(hour as nat, minute as nat),
            views_of(reminders@) == due_reminders(todos@.take(i as int), *today, now@),
        decreases todos.len() - i,
    {
        let todo = &todos[i];
        let days_left = calc_days_until(todo.dday.as_str(), today);
        let ghost shown = reminders@;
        proof {
            assert(todos@.take(i as int + 1).drop_last() =~= todos@.take(i as int));
            assert(todos@.take(i as int + 1).last() == todos@[i as int]);
        }
        match evaluate(todo, days_left, &now) {
            Some(m) => {
                reminders.push(m);
                assert(views_of(reminders@) =~= views_of(shown).push(m@));
            },
            None => {},
        }
        i += 1;
    }
    assert(todos@.take(i as int) =~= todos@);
    reminders
}

/// Seconds between the end of one cycle and the start of the next.
pub const CHECK_INTERVAL_SECS: u64 = 60;

/// Where the scheduler stands: waiting for the next cycle, or in one.
#[derive(Clone, Copy, Debug, PartialEq, Eq, Structural)]
pub enum Phase {
    Idle,
    Checking,
}

/// What the host reports back to the scheduler.
#[derive(Clone, Copy, Debug, PartialEq, Eq, Structural)]
pub enum Event {
    /// The wait between two cycles is over.
    IntervalElapsed,
    /// The cycle has been carried out.
    CheckCompleted,
}

/// What the host is to do next.
#[derive(Clone, Copy, Debug, PartialEq, Eq, Structural)]
pub enum Action {
    /// Sleep for the given number of seconds, then report `IntervalElapsed`.
    Wait(u64),
    /// Carry out one cycle, then report `CheckCompleted`.
    RunCheck,
}

/// The phase after an event. An elapsed wait starts a cycle; a completed
/// cycle leads back to waiting; an event that does not belong to the phase
/// leaves it as it is.
pub open spec fn next_phase(phase: Phase, event: Event) -> Phase {
    match (phase, event) {
        (Phase::Idle, Event::IntervalElapsed) => Phase::Checking,
        (Phase::Checking, Event::CheckCompleted) => Phase::Idle,
        (other, _) => other,
    }
}

/// What is to be done in a phase: wait out the interval when idle, run the
/// cycle when checking.
pub open spec fn action_in(phase: Phase) -> Action {
    match phase {
        Phase::Idle => Action::Wait(CHECK_INTERVAL_SECS),
        Phase::Checking => Action::RunCheck,
    }
}

/// The phase in which the scheduler starts, and its first action: it waits
/// one interval before the first cycle.
pub fn start() -> (r: (Phase, Action))
    ensures
        r.0 == Phase::Idle,
        r.1 == action_in(r.0),
{
    (Phase::Idle, Action::Wait(CHECK_INTERVAL_SECS))
}

/// Takes the scheduler from one phase to the next on an event and says what
/// the host is to do now. There is no final phase: the scheduler runs for as
/// long as the host keeps reporting events.
pub fn advance(phase: Phase, event: Event) -> (r: (Phase, Action))
    ensures
        r.0 == next_phase(phase, event),
        r.1 == action_in(r.0),
{
    match (phase, event) {
        (Phase::Idle, Event::IntervalElapsed) => (Phase::Checking, Action::RunCheck),
        (Phase::Checking, Event::CheckCompleted) => (
            Phase::Idle,
            Action::Wait(CHECK_INTERVAL_SECS),
        ),
        (Phase::Idle, Event::CheckCompleted) => (Phase::Idle, Action::Wait(CHECK_INTERVAL_SECS)),
        (Phase::Checking, Event::IntervalElapsed) => (Phase::Checking, Action::RunCheck),
    }
}

/// The event in which an action ends.
pub open spec fn event_after(action: Action) -> Event {
    match action {
        Action::Wait(_) => Event::IntervalElapsed,
        Action::RunCheck => Event::CheckCompleted,
    }
}

/// The phase a host reaches by carrying out the action of `phase` and
/// reporting the event it ends in.
pub open spec fn phase_after_action(phase: Phase) -> Phase {
    next_phase(phase, event_after(action_in(phase)))
}

/// A host that carries out each action and reports its event goes round for
/// ever: every step leads to the other phase, and two steps lead back.
pub proof fn lemma_phases_alternate(phase: Phase)
    ensures
        phase_after_action(phase) != phase,
        phase_after_action(phase_after_action(phase)) == phase,
        phase_after_action(Phase::Idle) == Phase::Checking,
{
}

/// A cycle never gives more reminders than there are items: an item fires at
/// most once.
pub proof fn lemma_at_most_one_each(todos: Seq<Todo>, today: CalendarDate, clock: Seq<char>)
    ensures
        due_reminders(todos, today, clock).len() <= todos.len(),
    decreases todos.len(),
{
    if todos.len() > 0 {
        lemma_at_most_one_each(todos.drop_last(), today, clock);
    }
}

/// Items are judged independently: the reminders of two collections put one
/// after the other are the reminders of the first followed by those of the
/// second.
pub proof fn lemma_items_independent(
    first: Seq<Todo>,
    second: Seq<Todo>,
    today: CalendarDate,
    clock: Seq<char>,
)
    ensures
        due_reminders(first + second, today, clock) == due_reminders(first, today, clock)
            + due_reminders(second, today, clock),
    decreases second.len(),
{
    if second.len() == 0 {
        assert(first + second =~= first);
        assert(due_reminders(first, today, clock) + due_reminders(second, today, clock)
            =~= due_reminders(first, today, clock));
    } else {
        lemma_items_independent(first, second.drop_last(), today, clock);
        assert((first + second).drop_last() =~= first + second.drop_last());
        assert((first + second).last() == second.last());
        let head = due_reminders(first, today, clock);
        let tail = due_reminders(second.drop_last(), today, clock);
        match reminder_of(second.last(), today, clock) {
            Some(m) => {
                assert((head + tail).push(m) =~= head + tail.push(m));
            },
            None => {},
        }
    }
}

/// A completed item never fires, whatever the day and the minute.
pub proof fn lemma_completed_is_silent(todo: Todo, today: CalendarDate, clock: Seq<char>)
    requires
        todo.completed,
    ensures
        reminder_of(todo, today, clock) is None,
{
}

/// A collection in which no item is set to the current minute gives no
/// reminder.
pub proof fn lemma_other_minute_is_silent(todos: Seq<Todo>, today: CalendarDate, clock: Seq<char>)
    requires
        forall|i: int| 0 <= i < todos.len() ==> (#[trigger] todos[i]).notification_time@ != clock,
    ensures
        due_reminders(todos, today, clock) == Seq::<ReminderText>::empty(),
    decreases todos.len(),
{
    if todos.len() > 0 {
        let front = todos.drop_last();
        assert forall|i: int| 0 <= i < front.len() implies (#[trigger] front[i]).notification_time@
            != clock by {
            assert(front[i] == todos[i]);
        }
        lemma_other_minute_is_silent(front, today, clock);
        assert(todos[todos.len() - 1].notification_time@ != clock);
    }
}

} // verus!
