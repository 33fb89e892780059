//! From a schedule to the jobs of one run: the settings of the account, and
//! one job for every alert of every game.

use vstd::prelude::*;
use vstd::string::*;
use crate::alerts::{
    alert_views,
    get_times_to_alert,
    lemma_plan_ascends_ahead_of_now,
    plan_of,
    valid_offsets,
    AlertPolicy,
    AlertView,
    GameAlert,
};
use crate::dispatcher::{create_alert_job, Job};
use crate::game_parser::Game;
use crate::twilio::TwilioConfig;

verus! {

/// The setting that is missing from a configuration.
#[derive(Debug, PartialEq)]
pub enum ConfigError {
    MissingFrom,
    MissingTo,
    MissingAccountId,
    MissingAccessToken,
}

impl ConfigError {
    /// What to tell whoever wrote the configuration.
    pub fn message(&self) -> (message: String)
        ensures
            message@ == match *self {
                ConfigError::MissingFrom => "config.toml must define a from phone number in the form \"\\d\\d\\d\\d\\d\\d\\d\\d\\d\\d\""@,
                ConfigError::MissingTo => "config.toml must define a to phone number in the form \"\\d\\d\\d\\d\\d\\d\\d\\d\\d\\d\""@,
                ConfigError::MissingAccountId => "config.toml must define a twilio_account_id"@,
                ConfigError::MissingAccessToken => "config.toml must define a twilio_access_token"@,
            },
    {
        match self {
            ConfigError::MissingFrom => "config.toml must define a from phone number in the form \"\\d\\d\\d\\d\\d\\d\\d\\d\\d\\d\"".to_owned(),
            ConfigError::MissingTo => "config.toml must define a to phone number in the form \"\\d\\d\\d\\d\\d\\d\\d\\d\\d\\d\"".to_owned(),
            ConfigError::MissingAccountId => "config.toml must define a twilio_account_id".to_owned(),
            ConfigError::MissingAccessToken => "config.toml must define a twilio_access_token".to_owned(),
        }
    }
}

/// Whether no key occurs twice among `entries`.
pub open spec fn distinct_keys(entries: Seq<(String, String)>) -> bool {
    forall|i: int, j: int|
        0 <= i < j < entries.len() ==> (#[trigger] entries[i]).0@ != (#[trigger] entries[j]).0@
}

/// The map that `entries` spell out: every key with its value.
pub open spec fn entries_map(entries: Seq<(String, String)>) -> Map<Seq<char>, Seq<char>>
    decreases entries.len(),
{
    if entries.len() == 0 {
        Map::empty()
    } else {
        entries_map(entries.drop_last()).insert(entries.last().0@, entries.last().1@)
    }
}

proof fn lemma_entries_map(entries: Seq<(String, String)>, key: Seq<char>)
    requires
        distinct_keys(entries),
    ensures
        entries_map(entries).contains_key(key) <==> exists|i: int|
            0 <= i < entries.len() && (#[trigger] entries[i]).0@ == key,
        forall|i: int|
            0 <= i < entries.len() && (#[trigger] entries[i]).0@ == key ==> entries_map(
                entries,
            )[key] == entries[i].1@,
    decreases entries.len(),
{
    if entries.len() > 0 {
        let shorter = entries.drop_last();
        lemma_entries_map(shorter, key);
        assert forall|i: int| 0 <= i < entries.len() && (#[trigger] entries[i]).0@
            == key implies entries_map(entries).contains_key(key) && entries_map(entries)[key]
            == entries[i].1@ by {
            if i < shorter.len() {
                assert(shorter[i] == entries[i]);
            }
        }
    }
}

/// The settings of a configuration: keys with their values, no key twice.
pub struct Settings {
    entries: Vec<(String, String)>,
}

impl View for Settings {
    type V = Map<Seq<char>, Seq<char>>;

    closed spec fn view(&self) -> Map<Seq<char>, Seq<char>> {
        entries_map(self.entries@)
    }
}

impl Settings {
    #[verifier::type_invariant]
    spec fn well_formed(self) -> bool {
        distinct_keys(self.entries@)
    }

    /// The settings with the given entries, if no key occurs twice among
    /// them.
    pub fn new(entries: Vec<(String, String)>) -> (settings: Option<Settings>)
        ensures
            settings is Some <==> distinct_keys(entries@),
            settings matches Some(found) ==> found@ == entries_map(entries@),
    {
        let mut j: usize = 0;
        while j < entries.len()
            invariant
                j <= entries.len(),
                distinct_keys(entries@.take(j as int)),
            decreases entries.len() - j,
        {
            let mut i: usize = 0;
            while i < j
                invariant
                    i <= j < entries.len(),
                    forall|k: int| 0 <= k < i ==> (#[trigger] entries@[k]).0@ != entries@[j as int].0@,
                decreases j - i,
            {
                if entries[i].0 == entries[j].0 {
                    return None;
                }
                i += 1;
            }
            j += 1;
        }
        assert(entries@.take(entries@.len() as int) =~= entries@);
        Some(Settings { entries })
    }

    /// The value of `key`, if the settings hold it.
    pub fn get(&self, key: &str) -> (value: Option<String>)
        ensures
            match value {
                Some(found) => self@.contains_key(key@) && found@ == self@[key@],
                None => !self@.contains_key(key@),
            },
    {
        proof {
            use_type_invariant(self);
        }
        let wanted: String = key.to_owned();
        let mut i: usize = 0;
        while i < self.entries.len()
            invariant
                i <= self.entries.len(),
                wanted@ == key@,
                distinct_keys(self.entries@),
                forall|k: int| 0 <= k < i ==> (#[trigger] self.entries@[k]).0@ != key@,
            decreases self.entries.len() - i,
        {
            if self.entries[i].0 == wanted {
                proof {
                    lemma_entries_map(self.entries@, key@);
                }
                return Some(self.entries[i].1.clone());
            }
            i += 1;
        }
        proof {
            lemma_entries_map(self.entries@, key@);
        }
        None
    }
}

/// Whether a configuration names the whole account.
pub open spec fn complete(settings: Map<Seq<char>, Seq<char>>) -> bool {
    &&& settings.contains_key("from"@)
    &&& settings.contains_key("to"@)
    &&& settings.contains_key("twilio_account_id"@)
    &&& settings.contains_key("twilio_access_token"@)
}

/// The first setting of the account that a configuration lacks, looked for
/// in this order: `from`, `to`, `twilio_account_id`, `twilio_access_token`.
pub open spec fn first_missing(settings: Map<Seq<char>, Seq<char>>) -> Option<ConfigError> {
    if !settings.contains_key("from"@) {
        Some(ConfigError::MissingFrom)
    } else if !settings.contains_key("to"@) {
        Some(ConfigError::MissingTo)
    } else if !settings.contains_key("twilio_account_id"@) {
        Some(ConfigError::MissingAccountId)
    } else if !settings.contains_key("twilio_access_token"@) {
        Some(ConfigError::MissingAccessToken)
    } else {
        None
    }
}

/// Says which setting of the account is missing, if any is. Where none is,
/// the configuration is complete.
pub fn missing_setting(settings: &Settings) -> (missing: Option<ConfigError>)
    ensures
        missing == first_missing(settings@),
        missing is None <==> complete(settings@),
{
    if settings.get("from").is_none() {
        Some(ConfigError::MissingFrom)
    } else if settings.get("to").is_none() {
        Some(ConfigError::MissingTo)
    } else if settings.get("twilio_account_id").is_none() {
        Some(ConfigError::MissingAccountId)
    } else if settings.get("twilio_access_token").is_none() {
        Some(ConfigError::MissingAccessToken)
    } else {
        None
    }
}

fn setting_of(settings: &Settings, key: &str) -> (value: String)
    requires
        settings@.contains_key(key@),
    ensures
        value@ == settings@[key@],
{
    settings.get(key).unwrap()
}

/// Picks the account out of a complete configuration: each of the four
/// settings goes where its key says.
pub fn get_twilio_config(settings: &Settings) -> (config: TwilioConfig)
    requires
        complete(settings@),
    ensures
        config.from@ == settings@["from"@],
        config.to@ == settings@["to"@],
        config.twilio_account_id@ == settings@["twilio_account_id"@],
        config.twilio_access_token@ == settings@["twilio_access_token"@],
{
    TwilioConfig {
        from: setting_of(settings, "from"),
        to: setting_of(settings, "to"),
        twilio_account_id: setting_of(settings, "twilio_account_id"),
        twilio_access_token: setting_of(settings, "twilio_access_token"),
    }
}

/// The alerts of one game, none where planning yields none.
pub open spec fn alerts_of(game: Game, now: int, offsets: Seq<u32>) -> Seq<AlertView> {
    match plan_of(game, now, offsets) {
        Some(plan) => plan,
        None => Seq::empty(),
    }
}

/// The alerts of all games, game after game, each game's by ascending
/// instant.
pub open spec fn all_alerts(games: Seq<Game>, now: int, offsets: Seq<u32>) -> Seq<AlertView>
    decreases games.len(),
{
    if games.len() == 0 {
        Seq::empty()
    } else {
        all_alerts(games.drop_last(), now, offsets) + alerts_of(games.last(), now, offsets)
    }
}

/// A job as the alert it sends.
pub open spec fn job_alert(job: Job) -> AlertView {
    AlertView { purpose: job.body@, time_to_alert: job.fire_instant as int }
}

/// The alerts that a list of jobs sends, in order.
pub open spec fn job_alerts(jobs: Seq<Job>) -> Seq<AlertView> {
    Seq::new(jobs.len(), |i: int| job_alert(jobs[i]))
}

/// The jobs of one run: one for every alert of every game, game after game,
/// each with its own copy of the account.
pub fn create_alert_jobs(games: &[Game], now: i64, policy: &AlertPolicy, t: &TwilioConfig) -> (jobs:
    Vec<Job>)
    ensures
        job_alerts(jobs@) == all_alerts(games@, now as int, policy@),
        forall|i: int| 0 <= i < jobs@.len() ==> (#[trigger] jobs@[i]).recipient == *t,
{
    let mut jobs: Vec<Job> = Vec::new();
    let mut i: usize = 0;
    while i < games.len()
        invariant
            i <= games@.len(),
            job_alerts(jobs@) == all_alerts(games@.take(i as int), now as int, policy@),
            forall|k: int| 0 <= k < jobs@.len() ==> (#[trigger] jobs@[k]).recipient == *t,
        decreases games.len() - i,
    {
        assert(games@.take(i + 1).drop_last() =~= games@.take(i as int));
        let ghost before = job_alerts(jobs@);
        let ghost due = alerts_of(games@[i as int], now as int, policy@);
        match get_times_to_alert(&games[i], now, policy) {
            Some(alerts) => {
                let mut k: usize = 0;
                while k < alerts.len()
                    invariant
                        k <= alerts@.len(),
                        alert_views(alerts@) == due,
                        job_alerts(jobs@) == before + due.take(k as int),
                        forall|j: int| 0 <= j < jobs@.len() ==> (#[trigger] jobs@[j]).recipient == *t,
                    decreases alerts.len() - k,
                {
                    let game_alert: GameAlert = GameAlert {
                        purpose: alerts[k].purpose.clone(),
                        time_to_alert: alerts[k].time_to_alert,
                    };
                    jobs.push(create_alert_job(game_alert, t.duplicate()));
                    assert(before + due.take(k + 1) =~= (before + due.take(k as int)).push(
                        due[k as int],
                    ));
                    k += 1;
                }
            },
            None => {},
        }
        i += 1;
    }
    assert(games@.take(games@.len() as int) =~= games@);
    jobs
}

/// Only the future is warned of: whatever the games, every alert of a run
/// is due after the instant at which the run was planned.
pub proof fn lemma_all_alerts_lie_ahead(games: Seq<Game>, now: int, offsets: Seq<u32>)
    requires
        valid_offsets(offsets),
    ensures
        forall|i: int|
            0 <= i < all_alerts(games, now, offsets).len() ==> now < (#[trigger] all_alerts(
                games,
                now,
                offsets,
            )[i]).time_to_alert,
    decreases games.len(),
{
    if games.len() > 0 {
        lemma_all_alerts_lie_ahead(games.drop_last(), now, offsets);
        let before = all_alerts(games.drop_last(), now, offsets);
        match games.last() {
            Game::PerfectlyScheduledGame { start_date_time } => {
                if start_date_time@ > now {
                    lemma_plan_ascends_ahead_of_now(offsets, start_date_time@, now);
                }
            },
            _ => {},
        }
    }
}

} // verus!
