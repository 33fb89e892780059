//! Planning the alerts of one game: which text messages are due, and when.
//!
//! A policy is a list of offsets in minutes. For each offset a game gets a
//! reminder that long before its start, unless that moment has already
//! passed, and a confirmation that long after it; one more alert is due at
//! the start itself. The plan lists them by ascending instant.

use vstd::prelude::*;
use vstd::string::*;
use crate::game_parser::{representable, Game, Instant};
use crate::text::{append_decimal, decimal};

verus! {

/// Milliseconds in one minute.
pub const MILLIS_PER_MINUTE: i64 = 60_000;

/// The largest number of minutes, in either direction, that chrono's
/// `Duration` can hold.
pub const MAX_DURATION_MINUTES: i64 = 153_722_867_280_912;

/// Offsets a policy may hold: each positive, in strictly ascending order.
pub open spec fn valid_offsets(offsets: Seq<u32>) -> bool {
    &&& forall|i: int| 0 <= i < offsets.len() ==> #[trigger] offsets[i] > 0
    &&& forall|i: int, j: int| 0 <= i < j < offsets.len() ==> offsets[i] < offsets[j]
}

/// One planned alert, as a mathematical value.
pub struct AlertView {
    pub purpose: Seq<char>,
    pub time_to_alert: int,
}

/// One planned alert: the message to send and the instant, in milliseconds
/// since the Unix epoch, at which it is due.
#[derive(Debug, PartialEq, Clone)]
pub struct GameAlert {
    pub purpose: String,
    pub time_to_alert: i64,
}

impl View for GameAlert {
    type V = AlertView;

    open spec fn view(&self) -> AlertView {
        AlertView { purpose: self.purpose@, time_to_alert: self.time_to_alert as int }
    }
}

/// The views of a list of alerts, in order.
pub open spec fn alert_views(alerts: Seq<GameAlert>) -> Seq<AlertView> {
    Seq::new(alerts.len(), |i: int| alerts[i]@)
}

/// The message of the reminder sent `minutes` before the start.
pub open spec fn reminder_purpose(minutes: nat) -> Seq<char> {
    "a mariners game is starting in "@ + decimal(minutes) + " minutes"@
}

/// The message of the confirmation sent `minutes` after the start.
pub open spec fn confirmation_purpose(minutes: nat) -> Seq<char> {
    "a mariners game started "@ + decimal(minutes) + " minutes ago"@
}

/// The message sent at the start itself.
pub open spec fn start_purpose() -> Seq<char> {
    "a mariners game is starting now"@
}

/// The reminder that is due `minutes` before a game starting at `start`.
pub open spec fn reminder(minutes: u32, start: int) -> AlertView {
    AlertView {
        purpose: reminder_purpose(minutes as nat),
        time_to_alert: start - minutes * MILLIS_PER_MINUTE,
    }
}

/// The confirmation that is due `minutes` after a game starting at `start`.
pub open spec fn confirmation(minutes: u32, start: int) -> AlertView {
    AlertView {
        purpose: confirmation_purpose(minutes as nat),
        time_to_alert: start + minutes * MILLIS_PER_MINUTE,
    }
}

/// The alert that is due at the start itself.
pub open spec fn start_alert(start: int) -> AlertView {
    AlertView { purpose: start_purpose(), time_to_alert: start }
}

/// The reminders still ahead at `now`, largest offset first: an offset whose
/// reminder would be due at `now` or earlier contributes nothing.
pub open spec fn reminders(offsets: Seq<u32>, start: int, now: int) -> Seq<AlertView>
    decreases offsets.len(),
{
    if offsets.len() == 0 {
        Seq::empty()
    } else {
        let rest = reminders(offsets.drop_last(), start, now);
        if start - offsets.last() * MILLIS_PER_MINUTE > now {
            seq![reminder(offsets.last(), start)] + rest
        } else {
            rest
        }
    }
}

/// The confirmations, smallest offset first: one for every offset.
pub open spec fn confirmations(offsets: Seq<u32>, start: int) -> Seq<AlertView> {
    Seq::new(offsets.len(), |i: int| confirmation(offsets[i], start))
}

/// The whole plan of a game that starts at `start`, seen from `now`: the
/// reminders, the alert at the start, the confirmations. With valid offsets
/// it ascends by instant, and no two alerts share one.
pub open spec fn planned(offsets: Seq<u32>, start: int, now: int) -> Seq<AlertView> {
    reminders(offsets, start, now) + seq![start_alert(start)] + confirmations(offsets, start)
}

/// What planning yields for a game: nothing unless its start is fully known
/// and still ahead, else the plan.
pub open spec fn plan_of(game: Game, now: int, offsets: Seq<u32>) -> Option<Seq<AlertView>> {
    match game {
        Game::PerfectlyScheduledGame { start_date_time } => if start_date_time@ <= now {
            None
        } else {
            Some(planned(offsets, start_date_time@, now))
        },
        _ => None,
    }
}

/// Whether `alerts` is what planning owes for `game` at `now`: nothing where
/// the plan is empty-handed, else exactly the planned alerts, in order.
pub open spec fn is_plan_for(
    alerts: Option<Vec<GameAlert>>,
    game: Game,
    now: int,
    offsets: Seq<u32>,
) -> bool {
    match plan_of(game, now, offsets) {
        None => alerts is None,
        Some(plan) => alerts matches Some(found) && alert_views(found@) == plan,
    }
}

/// Whether the instants of `plan` strictly ascend.
pub open spec fn ascending(plan: Seq<AlertView>) -> bool {
    forall|i: int, j: int|
        0 <= i < j < plan.len() ==> (#[trigger] plan[i]).time_to_alert < (
        #[trigger] plan[j]).time_to_alert
}

/// The length of `minutes` minutes in milliseconds, as chrono reports it:
/// `Duration::minutes` followed by `num_milliseconds`. `Duration::minutes`
/// panics beyond `MAX_DURATION_MINUTES`; within that range the duration
/// holds whole seconds, sixty to the minute, and `num_milliseconds` gives a
/// thousand for each.
#[verifier::external_body]
fn minutes_in_millis(minutes: i64) -> (millis: i64)
    requires
        -MAX_DURATION_MINUTES <= minutes <= MAX_DURATION_MINUTES,
    ensures
        millis == minutes * MILLIS_PER_MINUTE,
{
    chrono::Duration::minutes(minutes).num_milliseconds()
}

/// The offsets, in minutes, at which a game is announced and confirmed.
pub struct AlertPolicy {
    offsets: Vec<u32>,
}

impl View for AlertPolicy {
    type V = Seq<u32>;

    closed spec fn view(&self) -> Seq<u32> {
        self.offsets@
    }
}

impl AlertPolicy {
    #[verifier::type_invariant]
    spec fn well_formed(self) -> bool {
        valid_offsets(self.offsets@)
    }

    /// A policy with the given offsets, if they are positive and strictly
    /// ascending.
    pub fn new(offsets: Vec<u32>) -> (policy: Option<AlertPolicy>)
        ensures
            policy is Some <==> valid_offsets(offsets@),
            policy matches Some(p) ==> p@ == offsets@,
    {
        let mut i: usize = 0;
        while i < offsets.len()
            invariant
                i <= offsets.len(),
                valid_offsets(offsets@.subrange(0, i as int)),
            decreases offsets.len() - i,
        {
            let ok: bool = offsets[i] > 0 && (i == 0 || offsets[i - 1] < offsets[i]);
            if !ok {
                return None;
            }
            proof {
                let prev = offsets@.subrange(0, i as int);
                let next = offsets@.subrange(0, i + 1);
                assert forall|a: int, b: int| 0 <= a < b < next.len() implies next[a] < next[b] by {
                    if b == i && a < i - 1 {
                        assert(prev[a] < prev[i - 1]);
                    }
                }
            }
            i += 1;
        }
        assert(offsets@.subrange(0, i as int) =~= offsets@);
        Some(AlertPolicy { offsets })
    }

    /// The policy of one, two and three minutes.
    pub fn standard() -> (policy: AlertPolicy)
        ensures
            policy@ == seq![1u32, 2u32, 3u32],
    {
        let mut offsets: Vec<u32> = Vec::new();
        offsets.push(1);
        offsets.push(2);
        offsets.push(3);
        AlertPolicy { offsets }
    }

    /// The offsets of the policy, in minutes.
    pub fn offsets(&self) -> (offsets: &Vec<u32>)
        ensures
            offsets@ == self@,
            valid_offsets(offsets@),
    {
        proof {
            use_type_invariant(self);
        }
        &self.offsets
    }

}

fn reminder_text(minutes: u32) -> (text: String)
    ensures
        text@ == reminder_purpose(minutes as nat),
{
    let mut text: String = "a mariners game is starting in ".to_owned();
    append_decimal(&mut text, minutes as u64);
    text.append(" minutes");
    text
}

fn confirmation_text(minutes: u32) -> (text: String)
    ensures
        text@ == confirmation_purpose(minutes as nat),
{
    let mut text: String = "a mariners game started ".to_owned();
    append_decimal(&mut text, minutes as u64);
    text.append(" minutes ago");
    text
}

/// The alerts that are due for `game`, seen from the instant `now`.
///
/// A game whose start is not fully known, or is not after `now`, gets none.
/// Any other game gets, by ascending instant: the reminders whose moment is
/// still ahead of `now`, the alert at the start, and every confirmation.
pub fn get_times_to_alert(game: &Game, now: i64, policy: &AlertPolicy) -> (alerts: Option<
    Vec<GameAlert>,
>)
    ensures
        is_plan_for(alerts, *game, now as int, policy@),
{
    match game {
        Game::PerfectlyScheduledGame { start_date_time } => {
            let start: i64 = start_date_time.millis();
            if start <= now {
                return None;
            }
            let offsets: &Vec<u32> = &policy.offsets;
            let n: usize = offsets.len();
            let mut alerts: Vec<GameAlert> = Vec::new();
            let mut i: usize = n;
            assert(offsets@.subrange(0, n as int) =~= offsets@);
            while i > 0
                invariant
                    i <= n,
                    n == offsets.len(),
                    representable(start as int),
                    alert_views(alerts@) + reminders(
                        offsets@.subrange(0, i as int),
                        start as int,
                        now as int,
                    ) == reminders(offsets@, start as int, now as int),
                decreases i,
            {
                let ghost upto = offsets@.subrange(0, i as int);
                i -= 1;
                let minutes: u32 = offsets[i];
                let span: i64 = minutes_in_millis(minutes as i64);
                assert(upto.drop_last() =~= offsets@.subrange(0, i as int));
                if start - span > now {
                    alerts.push(GameAlert { purpose: reminder_text(minutes), time_to_alert: start - span });
                }
            }
            let ghost early = alert_views(alerts@);
            alerts.push(GameAlert { purpose: "a mariners game is starting now".to_owned(), time_to_alert: start });
            let mut j: usize = 0;
            while j < n
                invariant
                    j <= n,
                    n == offsets.len(),
                    representable(start as int),
                    alert_views(alerts@) == early + seq![start_alert(start as int)] + confirmations(
                        offsets@.subrange(0, j as int),
                        start as int,
                    ),
                decreases n - j,
            {
                let ghost sent = alert_views(alerts@);
                let minutes: u32 = offsets[j];
                let span: i64 = minutes_in_millis(minutes as i64);
                alerts.push(GameAlert { purpose: confirmation_text(minutes), time_to_alert: start + span });
                assert(alert_views(alerts@) =~= sent + seq![confirmation(minutes, start as int)]);
                j += 1;
            }
            Some(alerts)
        },
        _ => None,
    }
}

/// Every reminder that is planned lies strictly between `now` and the start,
/// no earlier than the largest offset allows, and the reminders ascend.
proof fn lemma_reminders_ascend(offsets: Seq<u32>, start: int, now: int)
    requires
        valid_offsets(offsets),
    ensures
        reminders(offsets, start, now).len() <= offsets.len(),
        ascending(reminders(offsets, start, now)),
        forall|i: int|
            0 <= i < reminders(offsets, start, now).len() ==> {
                let at = (#[trigger] reminders(offsets, start, now)[i]).time_to_alert;
                &&& now < at < start
                &&& start - offsets.last() * MILLIS_PER_MINUTE <= at
            },
    decreases offsets.len(),
{
    if offsets.len() > 0 {
        let shorter = offsets.drop_last();
        lemma_reminders_ascend(shorter, start, now);
        let all = reminders(offsets, start, now);
        assert forall|i: int| 0 <= i < all.len() implies {
            let at = (#[trigger] all[i]).time_to_alert;
            &&& now < at < start
            &&& start - offsets.last() * MILLIS_PER_MINUTE <= at
        } by {}
    }
}

/// A game that has started, or starts at this very instant, gets no alerts.
pub proof fn lemma_no_alerts_for_started_games(start: Instant, now: int, offsets: Seq<u32>)
    requires
        start@ <= now,
    ensures
        plan_of(Game::PerfectlyScheduledGame { start_date_time: start }, now, offsets) is None,
{
}

/// A game whose start is not fully known gets no alerts, whatever fragments
/// of a day or a time it carries.
pub proof fn lemma_no_alerts_without_a_start(game: Game, now: int, offsets: Seq<u32>)
    requires
        !(game is PerfectlyScheduledGame),
    ensures
        plan_of(game, now, offsets) is None,
{
}

/// Planning is a function of the game, the instant and the offsets: two
/// results owed for the same three agree on whether there are alerts and, if
/// so, on every message and instant, in order.
pub proof fn lemma_planning_repeats(
    first: Option<Vec<GameAlert>>,
    second: Option<Vec<GameAlert>>,
    game: Game,
    now: int,
    offsets: Seq<u32>,
)
    requires
        is_plan_for(first, game, now, offsets),
        is_plan_for(second, game, now, offsets),
    ensures
        first is None <==> second is None,
        first matches Some(a) ==> second matches Some(b) && alert_views(a@) == alert_views(b@),
{
}

/// The plan of a game that is still ahead strictly ascends by instant, holds
/// no alert that is due at `now` or earlier, and has at least one alert more
/// than there are offsets and at most one more than twice as many.
pub proof fn lemma_plan_ascends_ahead_of_now(offsets: Seq<u32>, start: int, now: int)
    requires
        valid_offsets(offsets),
        now < start,
    ensures
        ascending(planned(offsets, start, now)),
        forall|i: int|
            0 <= i < planned(offsets, start, now).len() ==> now < (#[trigger] planned(
                offsets,
                start,
                now,
            )[i]).time_to_alert,
        offsets.len() + 1 <= planned(offsets, start, now).len() <= 2 * offsets.len() + 1,
{
    lemma_reminders_ascend(offsets, start, now);
    let early = reminders(offsets, start, now);
    let plan = planned(offsets, start, now);
    let k = early.len() as int;
    assert forall|i: int| 0 <= i < plan.len() implies {
        &&& i < k ==> plan[i] == early[i]
        &&& i == k ==> plan[i] == start_alert(start)
        &&& i > k ==> plan[i] == confirmation(offsets[i - k - 1], start)
    } by {}
}

/// Where even the earliest reminder is still ahead of `now`, nothing is
/// left out: the plan holds a reminder for every offset, largest first, then
/// the alert at the start, then a confirmation for every offset.
pub proof fn lemma_every_offset_planned(offsets: Seq<u32>, start: int, now: int)
    requires
        valid_offsets(offsets),
        offsets.len() > 0 ==> start - offsets.last() * MILLIS_PER_MINUTE > now,
    ensures
        reminders(offsets, start, now) == Seq::new(
            offsets.len(),
            |i: int| reminder(offsets[offsets.len() - 1 - i], start),
        ),
        planned(offsets, start, now).len() == 2 * offsets.len() + 1,
    decreases offsets.len(),
{
    if offsets.len() > 0 {
        let shorter = offsets.drop_last();
        lemma_every_offset_planned(shorter, start, now);
    }
}

/// Where even the latest reminder would be due at `now` or earlier, every
/// reminder is left out: the plan is the alert at the start followed by a
/// confirmation for every offset.
pub proof fn lemma_late_reminders_dropped(offsets: Seq<u32>, start: int, now: int)
    requires
        valid_offsets(offsets),
        offsets.len() > 0 ==> start - offsets[0] * MILLIS_PER_MINUTE <= now,
    ensures
        reminders(offsets, start, now) == Seq::<AlertView>::empty(),
        planned(offsets, start, now) == seq![start_alert(start)] + confirmations(offsets, start),
        planned(offsets, start, now).len() == offsets.len() + 1,
    decreases offsets.len(),
{
    if offsets.len() > 1 {
        let shorter = offsets.drop_last();
        lemma_late_reminders_dropped(shorter, start, now);
    } else if offsets.len() == 1 {
        assert(reminders(offsets.drop_last(), start, now) =~= Seq::<AlertView>::empty());
    }
}

} // verus!
