//! Counters of the events a simulation produced, and the reports built from them.

use vstd::prelude::*;
use crate::text::{decimal, one_decimal, percent_text, round_half_even, push_decimal, push_one_decimal, push_percent, round_half_even_exec, two_decimals, push_two_decimals};
use vstd::string::StringExecFns;
use crate::time::{ElapsedTime, Timestamp};

verus! {

/// Statistics of a simulation run: infrastructure sizes, user profile
/// counts and event counters.
#[derive(Clone, Debug)]
pub struct ConsolidatedStatistics {
    /// Total number of users in the simulation.
    pub total_users: usize,
    /// Total number of locations.
    pub total_locations: usize,
    /// Total number of buildings.
    pub total_buildings: usize,
    /// Total number of rooms.
    pub total_rooms: usize,
    /// Users who attempt unauthorized access.
    pub curious_users: usize,
    /// Users with cloned badges.
    pub cloned_badge_users: usize,
    /// Night-shift users.
    pub night_shift_users: usize,
    /// Events counted as a success or a failure.
    pub total_events: usize,
    /// Successful access events.
    pub success_events: usize,
    /// Failed access events.
    pub failure_events: usize,
    /// Unauthorized access attempts by curious users.
    pub curious_events: usize,
    /// Impossible traveler events.
    pub impossible_traveler_events: usize,
    /// Night-shift events during off-hours.
    pub night_shift_events: usize,
    /// Badge reader failures.
    pub badge_reader_failure_events: usize,
    /// Invalid badge events.
    pub invalid_badge_events: usize,
    /// Events outside business hours.
    pub outside_hours_events: usize,
    /// Suspicious events.
    pub suspicious_events: usize,
    /// Number of days simulated.
    pub days_simulated: usize,
    /// Wall-clock duration of the simulation.
    pub simulation_duration: ElapsedTime,
}

/// Name under which the consolidated statistics are also known.
pub type SimulationStatistics = ConsolidatedStatistics;

/// `n` followed by its percentage of `total`: `n (p.p%)`.
pub open spec fn count_percent(n: nat, total: nat) -> Seq<char> {
    decimal(n) + " ("@ + percent_text(n, total) + "%)"@
}

/// `n / d` with one decimal, `0.0` when `d` is zero.
pub open spec fn ratio_text(n: nat, d: nat) -> Seq<char> {
    one_decimal(if d == 0 { 0 } else { round_half_even(10 * n, d) })
}

/// Append `n (p.p%)`.
fn push_count_percent(s: &mut String, n: usize, total: usize)
    ensures
        final(s)@ == old(s)@ + count_percent(n as nat, total as nat),
{
    push_decimal(s, n as u128);
    s.append(" (");
    push_percent(s, n as u64, total as u64);
    s.append("%)");
    assert(s@ =~= old(s)@ + count_percent(n as nat, total as nat));
}

/// Append `n / d` with one decimal.
fn push_ratio(s: &mut String, n: usize, d: usize)
    ensures
        final(s)@ == old(s)@ + ratio_text(n as nat, d as nat),
{
    if d == 0 {
        push_one_decimal(s, 0);
    } else {
        let t = round_half_even_exec((n as u128) * 10, d as u128);
        push_one_decimal(s, t);
    }
}


/// A labelled line `label n (p.p%)` ended by a newline.
pub open spec fn count_line(label: Seq<char>, n: nat, total: nat) -> Seq<char> {
    label + count_percent(n, total) + "\n"@
}

/// A labelled line `label n` ended by a newline.
pub open spec fn number_line(label: Seq<char>, n: nat) -> Seq<char> {
    label + decimal(n) + "\n"@
}

/// `n (p.p%, avg r.r/day)`.
pub open spec fn count_percent_avg(n: nat, total: nat, days: nat) -> Seq<char> {
    decimal(n) + " ("@ + percent_text(n, total) + "%, avg "@ + ratio_text(n, days) + "/day)"@
}

/// A duration in seconds rounded to hundredths.
pub open spec fn duration_hundredths(d: ElapsedTime) -> nat {
    round_half_even(d.total_nanos() * 100, 1_000_000_000)
}

/// Append `label n (p.p%)` and a newline.
fn push_count_line(s: &mut String, label: &str, n: usize, total: usize)
    ensures
        final(s)@ == old(s)@ + count_line(label@, n as nat, total as nat),
{
    s.append(label);
    push_count_percent(s, n, total);
    s.append("\n");
    assert(s@ =~= old(s)@ + count_line(label@, n as nat, total as nat));
}

/// Append `label n` and a newline.
fn push_number_line(s: &mut String, label: &str, n: u128)
    ensures
        final(s)@ == old(s)@ + number_line(label@, n as nat),
{
    s.append(label);
    push_decimal(s, n);
    s.append("\n");
    assert(s@ =~= old(s)@ + number_line(label@, n as nat));
}

/// Append `n (p.p%, avg r.r/day)`.
fn push_count_percent_avg(s: &mut String, n: usize, total: usize, days: usize)
    ensures
        final(s)@ == old(s)@ + count_percent_avg(n as nat, total as nat, days as nat),
{
    push_decimal(s, n as u128);
    s.append(" (");
    push_percent(s, n as u64, total as u64);
    s.append("%, avg ");
    push_ratio(s, n, days);
    s.append("/day)");
    assert(s@ =~= old(s)@ + count_percent_avg(n as nat, total as nat, days as nat));
}

/// Append a duration in seconds with two decimals.
fn push_duration_seconds(s: &mut String, d: ElapsedTime)
    ensures
        final(s)@ == old(s)@ + two_decimals(duration_hundredths(d)),
{
    let total: u128 = (d.secs as u128) * 1_000_000_000 + (d.nanos as u128);
    let h = round_half_even_exec(total * 100, 1_000_000_000);
    push_two_decimals(s, h);
}

impl ConsolidatedStatistics {
    /// Whether the total counts exactly the successes and failures, and the
    /// failures include the invalid badge, outside-hours, suspicious and
    /// badge reader events.
    pub open spec fn totals_add_up(&self) -> bool {
        &&& self.total_events == self.success_events + self.failure_events
        &&& self.failure_events >= self.invalid_badge_events + self.outside_hours_events + self.suspicious_events
            + self.badge_reader_failure_events
    }

    /// All counters zero and a zero duration.
    pub open spec fn zeroed() -> Self {
        ConsolidatedStatistics {
            total_users: 0,
            total_locations: 0,
            total_buildings: 0,
            total_rooms: 0,
            curious_users: 0,
            cloned_badge_users: 0,
            night_shift_users: 0,
            total_events: 0,
            success_events: 0,
            failure_events: 0,
            curious_events: 0,
            impossible_traveler_events: 0,
            night_shift_events: 0,
            badge_reader_failure_events: 0,
            invalid_badge_events: 0,
            outside_hours_events: 0,
            suspicious_events: 0,
            days_simulated: 0,
            simulation_duration: ElapsedTime { secs: 0, nanos: 0 },
        }
    }

    /// Statistics with the given infrastructure and user counts and no events.
    pub fn new(
        total_users: usize,
        total_locations: usize,
        total_buildings: usize,
        total_rooms: usize,
        curious_users: usize,
        cloned_badge_users: usize,
        night_shift_users: usize,
    ) -> (s: Self)
        ensures
            s == (ConsolidatedStatistics {
                total_users,
                total_locations,
                total_buildings,
                total_rooms,
                curious_users,
                cloned_badge_users,
                night_shift_users,
                ..Self::zeroed()
            }),
    {
        ConsolidatedStatistics {
            total_users,
            total_locations,
            total_buildings,
            total_rooms,
            curious_users,
            cloned_badge_users,
            night_shift_users,
            total_events: 0,
            success_events: 0,
            failure_events: 0,
            curious_events: 0,
            impossible_traveler_events: 0,
            night_shift_events: 0,
            badge_reader_failure_events: 0,
            invalid_badge_events: 0,
            outside_hours_events: 0,
            suspicious_events: 0,
            days_simulated: 0,
            simulation_duration: ElapsedTime { secs: 0, nanos: 0 },
        }
    }

    /// Count a success: the success and total counters grow by one.
    pub fn increment_success_events(&mut self)
        requires
            old(self).success_events < usize::MAX,
            old(self).total_events < usize::MAX,
        ensures
            *final(self) == (ConsolidatedStatistics {
                success_events: (old(self).success_events + 1) as usize,
                total_events: (old(self).total_events + 1) as usize,
                ..*old(self)
            }),
            old(self).totals_add_up() ==> final(self).totals_add_up(),
            old(self).total_events == old(self).success_events + old(self).failure_events
                ==> final(self).total_events == final(self).success_events + final(self).failure_events,
    {
        self.success_events = self.success_events + 1;
        self.total_events = self.total_events + 1;
    }

    /// Count a failure: the failure and total counters grow by one.
    pub fn increment_failure_events(&mut self)
        requires
            old(self).failure_events < usize::MAX,
            old(self).total_events < usize::MAX,
        ensures
            *final(self) == (ConsolidatedStatistics {
                failure_events: (old(self).failure_events + 1) as usize,
                total_events: (old(self).total_events + 1) as usize,
                ..*old(self)
            }),
            old(self).totals_add_up() ==> final(self).totals_add_up(),
            old(self).total_events == old(self).success_events + old(self).failure_events
                ==> final(self).total_events == final(self).success_events + final(self).failure_events,
    {
        self.failure_events = self.failure_events + 1;
        self.total_events = self.total_events + 1;
    }

    /// Count a curious event; the total is unchanged.
    pub fn increment_curious_events(&mut self)
        requires
            old(self).curious_events < usize::MAX,
        ensures
            *final(self) == (ConsolidatedStatistics {
                curious_events: (old(self).curious_events + 1) as usize,
                ..*old(self)
            }),
            old(self).totals_add_up() ==> final(self).totals_add_up(),
            old(self).total_events == old(self).success_events + old(self).failure_events
                ==> final(self).total_events == final(self).success_events + final(self).failure_events,
    {
        self.curious_events = self.curious_events + 1;
    }

    /// Count an impossible traveler event; the total is unchanged.
    pub fn increment_impossible_traveler_events(&mut self)
        requires
            old(self).impossible_traveler_events < usize::MAX,
        ensures
            *final(self) == (ConsolidatedStatistics {
                impossible_traveler_events: (old(self).impossible_traveler_events + 1) as usize,
                ..*old(self)
            }),
            old(self).totals_add_up() ==> final(self).totals_add_up(),
            old(self).total_events == old(self).success_events + old(self).failure_events
                ==> final(self).total_events == final(self).success_events + final(self).failure_events,
    {
        self.impossible_traveler_events = self.impossible_traveler_events + 1;
    }

    /// Count a night-shift event; the total is unchanged.
    pub fn increment_night_shift_events(&mut self)
        requires
            old(self).night_shift_events < usize::MAX,
        ensures
            *final(self) == (ConsolidatedStatistics {
                night_shift_events: (old(self).night_shift_events + 1) as usize,
                ..*old(self)
            }),
            old(self).totals_add_up() ==> final(self).totals_add_up(),
            old(self).total_events == old(self).success_events + old(self).failure_events
                ==> final(self).total_events == final(self).success_events + final(self).failure_events,
    {
        self.night_shift_events = self.night_shift_events + 1;
    }

    /// Count an invalid badge event, which also counts as a failure.
    pub fn increment_invalid_badge_events(&mut self)
        requires
            old(self).invalid_badge_events < usize::MAX,
            old(self).failure_events < usize::MAX,
            old(self).total_events < usize::MAX,
        ensures
            *final(self) == (ConsolidatedStatistics {
                invalid_badge_events: (old(self).invalid_badge_events + 1) as usize,
                failure_events: (old(self).failure_events + 1) as usize,
                total_events: (old(self).total_events + 1) as usize,
                ..*old(self)
            }),
            old(self).totals_add_up() ==> final(self).totals_add_up(),
            old(self).total_events == old(self).success_events + old(self).failure_events
                ==> final(self).total_events == final(self).success_events + final(self).failure_events,
    {
        self.invalid_badge_events = self.invalid_badge_events + 1;
        self.increment_failure_events();
    }

    /// Count an event outside business hours, which also counts as a failure.
    pub fn increment_outside_hours_events(&mut self)
        requires
            old(self).outside_hours_events < usize::MAX,
            old(self).failure_events < usize::MAX,
            old(self).total_events < usize::MAX,
        ensures
            *final(self) == (ConsolidatedStatistics {
                outside_hours_events: (old(self).outside_hours_events + 1) as usize,
                failure_events: (old(self).failure_events + 1) as usize,
                total_events: (old(self).total_events + 1) as usize,
                ..*old(self)
            }),
            old(self).totals_add_up() ==> final(self).totals_add_up(),
            old(self).total_events == old(self).success_events + old(self).failure_events
                ==> final(self).total_events == final(self).success_events + final(self).failure_events,
    {
        self.outside_hours_events = self.outside_hours_events + 1;
        self.increment_failure_events();
    }

    /// Count a suspicious event, which also counts as a failure.
    pub fn increment_suspicious_events(&mut self)
        requires
            old(self).suspicious_events < usize::MAX,
            old(self).failure_events < usize::MAX,
            old(self).total_events < usize::MAX,
        ensures
            *final(self) == (ConsolidatedStatistics {
                suspicious_events: (old(self).suspicious_events + 1) as usize,
                failure_events: (old(self).failure_events + 1) as usize,
                total_events: (old(self).total_events + 1) as usize,
                ..*old(self)
            }),
            old(self).totals_add_up() ==> final(self).totals_add_up(),
            old(self).total_events == old(self).success_events + old(self).failure_events
                ==> final(self).total_events == final(self).success_events + final(self).failure_events,
    {
        self.suspicious_events = self.suspicious_events + 1;
        self.increment_failure_events();
    }

    /// Count a badge reader failure, which also counts as a failure.
    pub fn increment_badge_reader_failure_events(&mut self)
        requires
            old(self).badge_reader_failure_events < usize::MAX,
            old(self).failure_events < usize::MAX,
            old(self).total_events < usize::MAX,
        ensures
            *final(self) == (ConsolidatedStatistics {
                badge_reader_failure_events: (old(self).badge_reader_failure_events + 1) as usize,
                failure_events: (old(self).failure_events + 1) as usize,
                total_events: (old(self).total_events + 1) as usize,
                ..*old(self)
            }),
            old(self).totals_add_up() ==> final(self).totals_add_up(),
            old(self).total_events == old(self).success_events + old(self).failure_events
                ==> final(self).total_events == final(self).success_events + final(self).failure_events,
    {
        self.badge_reader_failure_events = self.badge_reader_failure_events + 1;
        self.increment_failure_events();
    }

    /// Same as `increment_success_events`.
    pub fn increment_success(&mut self)
        requires
            old(self).success_events < usize::MAX,
            old(self).total_events < usize::MAX,
        ensures
            *final(self) == (ConsolidatedStatistics {
                success_events: (old(self).success_events + 1) as usize,
                total_events: (old(self).total_events + 1) as usize,
                ..*old(self)
            }),
            old(self).totals_add_up() ==> final(self).totals_add_up(),
            old(self).total_events == old(self).success_events + old(self).failure_events
                ==> final(self).total_events == final(self).success_events + final(self).failure_events,
    {
        self.increment_success_events();
    }

    /// Same as `increment_failure_events`.
    pub fn increment_failure(&mut self)
        requires
            old(self).failure_events < usize::MAX,
            old(self).total_events < usize::MAX,
        ensures
            *final(self) == (ConsolidatedStatistics {
                failure_events: (old(self).failure_events + 1) as usize,
                total_events: (old(self).total_events + 1) as usize,
                ..*old(self)
            }),
            old(self).totals_add_up() ==> final(self).totals_add_up(),
            old(self).total_events == old(self).success_events + old(self).failure_events
                ==> final(self).total_events == final(self).success_events + final(self).failure_events,
    {
        self.increment_failure_events();
    }

    /// Same as `increment_curious_events`.
    pub fn increment_curious(&mut self)
        requires
            old(self).curious_events < usize::MAX,
        ensures
            *final(self) == (ConsolidatedStatistics {
                curious_events: (old(self).curious_events + 1) as usize,
                ..*old(self)
            }),
            old(self).totals_add_up() ==> final(self).totals_add_up(),
            old(self).total_events == old(self).success_events + old(self).failure_events
                ==> final(self).total_events == final(self).success_events + final(self).failure_events,
    {
        self.increment_curious_events();
    }

    /// Same as `increment_impossible_traveler_events`.
    pub fn increment_impossible_traveler(&mut self)
        requires
            old(self).impossible_traveler_events < usize::MAX,
        ensures
            *final(self) == (ConsolidatedStatistics {
                impossible_traveler_events: (old(self).impossible_traveler_events + 1) as usize,
                ..*old(self)
            }),
            old(self).totals_add_up() ==> final(self).totals_add_up(),
            old(self).total_events == old(self).success_events + old(self).failure_events
                ==> final(self).total_events == final(self).success_events + final(self).failure_events,
    {
        self.increment_impossible_traveler_events();
    }

    /// Same as `increment_night_shift_events`.
    pub fn increment_night_shift(&mut self)
        requires
            old(self).night_shift_events < usize::MAX,
        ensures
            *final(self) == (ConsolidatedStatistics {
                night_shift_events: (old(self).night_shift_events + 1) as usize,
                ..*old(self)
            }),
            old(self).totals_add_up() ==> final(self).totals_add_up(),
            old(self).total_events == old(self).success_events + old(self).failure_events
                ==> final(self).total_events == final(self).success_events + final(self).failure_events,
    {
        self.increment_night_shift_events();
    }

    /// Same as `increment_invalid_badge_events`.
    pub fn increment_invalid_badge(&mut self)
        requires
            old(self).invalid_badge_events < usize::MAX,
            old(self).failure_events < usize::MAX,
            old(self).total_events < usize::MAX,
        ensures
            *final(self) == (ConsolidatedStatistics {
                invalid_badge_events: (old(self).invalid_badge_events + 1) as usize,
                failure_events: (old(self).failure_events + 1) as usize,
                total_events: (old(self).total_events + 1) as usize,
                ..*old(self)
            }),
            old(self).totals_add_up() ==> final(self).totals_add_up(),
            old(self).total_events == old(self).success_events + old(self).failure_events
                ==> final(self).total_events == final(self).success_events + final(self).failure_events,
    {
        self.increment_invalid_badge_events();
    }

    /// Same as `increment_outside_hours_events`.
    pub fn increment_outside_hours(&mut self)
        requires
            old(self).outside_hours_events < usize::MAX,
            old(self).failure_events < usize::MAX,
            old(self).total_events < usize::MAX,
        ensures
            *final(self) == (ConsolidatedStatistics {
                outside_hours_events: (old(self).outside_hours_events + 1) as usize,
                failure_events: (old(self).failure_events + 1) as usize,
                total_events: (old(self).total_events + 1) as usize,
                ..*old(self)
            }),
            old(self).totals_add_up() ==> final(self).totals_add_up(),
            old(self).total_events == old(self).success_events + old(self).failure_events
                ==> final(self).total_events == final(self).success_events + final(self).failure_events,
    {
        self.increment_outside_hours_events();
    }

    /// Same as `increment_suspicious_events`.
    pub fn increment_suspicious(&mut self)
        requires
            old(self).suspicious_events < usize::MAX,
            old(self).failure_events < usize::MAX,
            old(self).total_events < usize::MAX,
        ensures
            *final(self) == (ConsolidatedStatistics {
                suspicious_events: (old(self).suspicious_events + 1) as usize,
                failure_events: (old(self).failure_events + 1) as usize,
                total_events: (old(self).total_events + 1) as usize,
                ..*old(self)
            }),
            old(self).totals_add_up() ==> final(self).totals_add_up(),
            old(self).total_events == old(self).success_events + old(self).failure_events
                ==> final(self).total_events == final(self).success_events + final(self).failure_events,
    {
        self.increment_suspicious_events();
    }

    /// Same as `increment_badge_reader_failure_events`.
    pub fn increment_badge_reader_failure(&mut self)
        requires
            old(self).badge_reader_failure_events < usize::MAX,
            old(self).failure_events < usize::MAX,
            old(self).total_events < usize::MAX,
        ensures
            *final(self) == (ConsolidatedStatistics {
                badge_reader_failure_events: (old(self).badge_reader_failure_events + 1) as usize,
                failure_events: (old(self).failure_events + 1) as usize,
                total_events: (old(self).total_events + 1) as usize,
                ..*old(self)
            }),
            old(self).totals_add_up() ==> final(self).totals_add_up(),
            old(self).total_events == old(self).success_events + old(self).failure_events
                ==> final(self).total_events == final(self).success_events + final(self).failure_events,
    {
        self.increment_badge_reader_failure_events();
    }

    /// Record the number of days simulated.
    pub fn set_days_simulated(&mut self, days: usize)
        ensures
            *final(self) == (ConsolidatedStatistics { days_simulated: days, ..*old(self) }),
    {
        self.days_simulated = days;
    }

    /// Record the wall-clock duration of the simulation.
    pub fn set_simulation_duration(&mut self, duration: ElapsedTime)
        ensures
            *final(self) == (ConsolidatedStatistics { simulation_duration: duration, ..*old(self) }),
    {
        self.simulation_duration = duration;
    }

    /// The statistics themselves, under their older name.
    pub fn event_type_statistics(&self) -> (s: &Self)
        ensures
            *s == *self,
    {
        self
    }

    /// The statistics themselves, mutable, under their older name.
    pub fn event_type_statistics_mut(&mut self) -> (s: &mut Self)
        ensures
            *s == *old(self),
            *final(self) == *final(s),
    {
        self
    }

    /// Failure-type events, each counted once: plain failures, invalid
    /// badges, events outside hours and suspicious events, all of which the
    /// failure count already holds.
    pub open spec fn spec_total_failure_events(&self) -> int {
        self.failure_events as int
    }

    /// Anomalies: curious, impossible traveler and badge reader failure events.
    pub open spec fn spec_total_anomaly_events(&self) -> int {
        self.curious_events + self.impossible_traveler_events + self.badge_reader_failure_events
    }

    /// Failure-type events, each counted once.
    pub fn total_failure_events(&self) -> (n: usize)
        ensures
            n == self.spec_total_failure_events(),
    {
        self.failure_events
    }

    /// Anomalies of every kind.
    pub fn total_anomaly_events(&self) -> (n: usize)
        requires
            self.spec_total_anomaly_events() <= usize::MAX,
        ensures
            n == self.spec_total_anomaly_events(),
    {
        self.curious_events + self.impossible_traveler_events + self.badge_reader_failure_events
    }
}

/// The one-line summary of event counts.
pub open spec fn consolidated_summary_text(s: ConsolidatedStatistics) -> Seq<char> {
    let t = s.total_events as nat;
    "Event Summary: "@ + decimal(t) + " total events | Success: "@ + count_percent(
        s.success_events as nat,
        t,
    ) + " | Failures: "@ + count_percent(s.failure_events as nat, t) + " | Anomalies: "@
        + decimal(s.curious_events as nat) + " curious ("@ + percent_text(
        s.curious_events as nat,
        t,
    ) + "%), "@ + decimal(s.impossible_traveler_events as nat) + " impossible traveler ("@
        + percent_text(s.impossible_traveler_events as nat, t) + "%)"@
}

/// The breakdown of event counts by kind, one line each.
pub open spec fn consolidated_breakdown_text(s: ConsolidatedStatistics) -> Seq<char> {
    let t = s.total_events as nat;
    "=== Event Type Breakdown ===\n"@ + "Total Events Generated: "@ + decimal(t) + "\n\n"@
        + "Standard Event Types:\n"@ + count_line(
        "  • Success Events: "@,
        s.success_events as nat,
        t,
    ) + count_line("  • Failure Events: "@, s.failure_events as nat, t)
        + "\nSecurity Anomaly Events:\n"@ + count_line(
        "  • Curious Events: "@,
        s.curious_events as nat,
        t,
    ) + count_line("  • Impossible Traveler Events: "@, s.impossible_traveler_events as nat, t)
        + "\nAuthorized Off-Hours Events:\n"@ + count_line(
        "  • Night-Shift Events: "@,
        s.night_shift_events as nat,
        t,
    )
}

/// The compact one-line summary.
pub open spec fn consolidated_compact_text(s: ConsolidatedStatistics) -> Seq<char> {
    "Simulation: "@ + decimal(s.days_simulated as nat) + " days, "@ + decimal(
        s.total_events as nat,
    ) + " events ("@ + decimal(s.success_events as nat) + " success, "@ + decimal(
        s.failure_events as nat,
    ) + " failures), "@ + decimal((s.curious_events + s.impossible_traveler_events) as nat)
        + " anomalies ("@ + decimal(s.curious_events as nat) + " curious, "@ + decimal(
        s.impossible_traveler_events as nat,
    ) + " impossible traveler)"@
}

/// Header, infrastructure and user sections of the summary report.
pub open spec fn report_head_text(s: ConsolidatedStatistics) -> Seq<char> {
    let u = s.total_users as nat;
    "=== Simulation Summary Report ===\n\n"@ + "Simulation Duration: "@ + two_decimals(
        duration_hundredths(s.simulation_duration),
    ) + " seconds\n"@ + "Days Simulated: "@ + decimal(s.days_simulated as nat) + "\n\n"@
        + "Infrastructure Overview:\n"@ + number_line(
        "  • Total Users: "@,
        u,
    ) + number_line("  • Total Locations: "@, s.total_locations as nat) + number_line(
        "  • Total Buildings: "@,
        s.total_buildings as nat,
    ) + number_line("  • Total Rooms: "@, s.total_rooms as nat) + "\n"@ + "User Breakdown:\n"@
        + count_line("  • Curious Users: "@, s.curious_users as nat, u) + count_line(
        "  • Cloned Badge Users: "@,
        s.cloned_badge_users as nat,
        u,
    ) + count_line("  • Night-Shift Users: "@, s.night_shift_users as nat, u) + "\n"@
}

/// Event and anomaly sections of the summary report.
pub open spec fn report_tail_text(s: ConsolidatedStatistics) -> Seq<char> {
    let t = s.total_events as nat;
    let d = s.days_simulated as nat;
    "Event Statistics:\n"@ + "  • Total Events: "@ + decimal(t) + " (avg "@ + ratio_text(t, d)
        + "/day)\n"@ + count_line("  • Success Events: "@, s.success_events as nat, t)
        + count_line("  • Failure Events: "@, s.failure_events as nat, t) + "\n"@
        + "Security Anomalies:\n"@ + "  • Curious Events: "@ + count_percent_avg(
        s.curious_events as nat,
        t,
        d,
    ) + "\n"@ + "  • Impossible Traveler Events: "@ + count_percent_avg(
        s.impossible_traveler_events as nat,
        t,
        d,
    ) + "\n"@ + "  • Night-Shift Events: "@ + count_percent_avg(s.night_shift_events as nat, t, d)
        + "\n"@
}

impl ConsolidatedStatistics {
    /// One line with the event counts and their percentages.
    pub fn summary(&self) -> (text: String)
        ensures
            text@ == consolidated_summary_text(*self),
    {
        let t = self.total_events;
        let mut s = String::new();
        s.append("Event Summary: ");
        push_decimal(&mut s, t as u128);
        s.append(" total events | Success: ");
        push_count_percent(&mut s, self.success_events, t);
        s.append(" | Failures: ");
        push_count_percent(&mut s, self.failure_events, t);
        s.append(" | Anomalies: ");
        push_decimal(&mut s, self.curious_events as u128);
        s.append(" curious (");
        push_percent(&mut s, self.curious_events as u64, t as u64);
        s.append("%), ");
        push_decimal(&mut s, self.impossible_traveler_events as u128);
        s.append(" impossible traveler (");
        push_percent(&mut s, self.impossible_traveler_events as u64, t as u64);
        s.append("%)");
        assert(s@ =~= consolidated_summary_text(*self));
        s
    }

    /// The event counts by kind, one line each.
    pub fn detailed_breakdown(&self) -> (text: String)
        ensures
            text@ == consolidated_breakdown_text(*self),
    {
        let t = self.total_events;
        let mut s = String::new();
        s.append("=== Event Type Breakdown ===\n");
        s.append("Total Events Generated: ");
        push_decimal(&mut s, t as u128);
        s.append("\n\n");
        s.append("Standard Event Types:\n");
        push_count_line(&mut s, "  • Success Events: ", self.success_events, t);
        push_count_line(&mut s, "  • Failure Events: ", self.failure_events, t);
        s.append("\nSecurity Anomaly Events:\n");
        push_count_line(&mut s, "  • Curious Events: ", self.curious_events, t);
        push_count_line(
            &mut s,
            "  • Impossible Traveler Events: ",
            self.impossible_traveler_events,
            t,
        );
        s.append("\nAuthorized Off-Hours Events:\n");
        push_count_line(&mut s, "  • Night-Shift Events: ", self.night_shift_events, t);
        assert(s@ =~= consolidated_breakdown_text(*self));
        s
    }

    /// One line with days, events, successes, failures and anomalies.
    pub fn generate_compact_summary(&self) -> (text: String)
        ensures
            text@ == consolidated_compact_text(*self),
    {
        let mut s = String::new();
        s.append("Simulation: ");
        push_decimal(&mut s, self.days_simulated as u128);
        s.append(" days, ");
        push_decimal(&mut s, self.total_events as u128);
        s.append(" events (");
        push_decimal(&mut s, self.success_events as u128);
        s.append(" success, ");
        push_decimal(&mut s, self.failure_events as u128);
        s.append(" failures), ");
        push_decimal(&mut s, (self.curious_events as u128) + (self.impossible_traveler_events as u128));
        s.append(" anomalies (");
        push_decimal(&mut s, self.curious_events as u128);
        s.append(" curious, ");
        push_decimal(&mut s, self.impossible_traveler_events as u128);
        s.append(" impossible traveler)");
        assert(s@ =~= consolidated_compact_text(*self));
        s
    }

    /// Same as `generate_compact_summary`.
    pub fn compact_summary(&self) -> (text: String)
        ensures
            text@ == consolidated_compact_text(*self),
    {
        self.generate_compact_summary()
    }

    /// The full summary report: duration, infrastructure, users, events and anomalies.
    /// Percentages, averages, rates and durations are the exact ratios
    /// rounded half to even (see `round_half_even`), which can differ in
    /// the last digit from the same ratio computed in floating point.
    pub fn generate_summary_report(&self) -> (text: String)
        ensures
            text@ == report_head_text(*self) + report_tail_text(*self),
    {
        let mut s = String::new();
        self.push_report_head(&mut s);
        self.push_report_tail(&mut s);
        s
    }

    /// The full summary report, as the statistics display themselves.
    pub fn to_display_string(&self) -> (text: String)
        ensures
            text@ == report_head_text(*self) + report_tail_text(*self),
    {
        self.generate_summary_report()
    }

    #[verifier::rlimit(50)]
    fn push_report_head(&self, s: &mut String)
        ensures
            final(s)@ == old(s)@ + report_head_text(*self),
    {
        let u = self.total_users;
        s.append("=== Simulation Summary Report ===\n\n");
        s.append("Simulation Duration: ");
        push_duration_seconds(s, self.simulation_duration);
        s.append(" seconds\n");
        s.append("Days Simulated: ");
        push_decimal(s, self.days_simulated as u128);
        s.append("\n\n");
        s.append("Infrastructure Overview:\n");
        push_number_line(s, "  • Total Users: ", u as u128);
        push_number_line(s, "  • Total Locations: ", self.total_locations as u128);
        push_number_line(s, "  • Total Buildings: ", self.total_buildings as u128);
        push_number_line(s, "  • Total Rooms: ", self.total_rooms as u128);
        s.append("\n");
        s.append("User Breakdown:\n");
        push_count_line(s, "  • Curious Users: ", self.curious_users, u);
        push_count_line(s, "  • Cloned Badge Users: ", self.cloned_badge_users, u);
        push_count_line(s, "  • Night-Shift Users: ", self.night_shift_users, u);
        s.append("\n");
        assert(s@ =~= old(s)@ + report_head_text(*self));
    }

    #[verifier::rlimit(50)]
    fn push_report_tail(&self, s: &mut String)
        ensures
            final(s)@ == old(s)@ + report_tail_text(*self),
    {
        let t = self.total_events;
        let d = self.days_simulated;
        s.append("Event Statistics:\n");
        s.append("  • Total Events: ");
        push_decimal(s, t as u128);
        s.append(" (avg ");
        push_ratio(s, t, d);
        s.append("/day)\n");
        push_count_line(s, "  • Success Events: ", self.success_events, t);
        push_count_line(s, "  • Failure Events: ", self.failure_events, t);
        s.append("\n");
        s.append("Security Anomalies:\n");
        s.append("  • Curious Events: ");
        push_count_percent_avg(s, self.curious_events, t, d);
        s.append("\n");
        s.append("  • Impossible Traveler Events: ");
        push_count_percent_avg(s, self.impossible_traveler_events, t, d);
        s.append("\n");
        s.append("  • Night-Shift Events: ");
        push_count_percent_avg(s, self.night_shift_events, t, d);
        s.append("\n");
        assert(s@ =~= old(s)@ + report_tail_text(*self));
    }
}

/// `n (p.p%`, then `, avg r.r/day` when days were simulated, then `)`.
pub open spec fn anomaly_text(n: nat, total: nat, days: nat) -> Seq<char> {
    decimal(n) + " ("@ + percent_text(n, total) + (if days > 0 {
        ", avg "@ + ratio_text(n, days) + "/day"@
    } else {
        Seq::<char>::empty()
    }) + ")\n"@
}

/// The daily average line, present only when days were simulated.
pub open spec fn daily_average_text(t: nat, d: nat) -> Seq<char> {
    if d > 0 {
        "   Daily Average: "@ + ratio_text(t, d) + " events/day\n"@
    } else {
        Seq::<char>::empty()
    }
}

/// The performance section, present only when the duration is positive.
pub open spec fn performance_text(t: nat, ns: nat) -> Seq<char> {
    if ns > 0 {
        "⚡ Performance:\n"@ + "   Generated "@ + decimal(round_half_even(t * 1_000_000_000, ns))
            + " events/second\n\n"@
    } else {
        Seq::<char>::empty()
    }
}

/// Header and simulation summary of the simplified output.
pub open spec fn simplified_summary_text(s: ConsolidatedStatistics) -> Seq<char> {
    "🎯 Badge Access Simulation Complete!\n"@ + "=====================================\n\n"@
        + "📊 Simulation Summary:\n"@ + "   Days Simulated: "@ + decimal(s.days_simulated as nat)
        + "\n"@ + "   Duration: "@ + two_decimals(duration_hundredths(s.simulation_duration))
        + " seconds\n"@ + "   Infrastructure: "@ + decimal(s.total_users as nat)
        + " users across "@ + decimal(s.total_locations as nat) + " locations ("@ + decimal(
        s.total_buildings as nat,
    ) + " buildings, "@ + decimal(s.total_rooms as nat) + " rooms)\n\n"@
}

/// Event section of the simplified output.
pub open spec fn simplified_events_text(s: ConsolidatedStatistics) -> Seq<char> {
    let t = s.total_events as nat;
    "📈 Event Statistics:\n"@ + "   Total Events Generated: "@ + decimal(t) + "\n"@
        + daily_average_text(t, s.days_simulated as nat) + "   Success Rate: "@ + percent_text(
        s.success_events as nat,
        t,
    ) + "% ("@ + decimal(s.success_events as nat) + " successful, "@ + decimal(
        s.failure_events as nat,
    ) + " failed)\n\n"@
}

/// Anomaly section of the simplified output.
pub open spec fn simplified_anomalies_text(s: ConsolidatedStatistics) -> Seq<char> {
    let t = s.total_events as nat;
    let d = s.days_simulated as nat;
    "🚨 Security Anomalies Detected:\n"@ + "   Impossible Traveler Events: "@ + anomaly_text(
        s.impossible_traveler_events as nat,
        t,
        d,
    ) + "   Curious User Events: "@ + anomaly_text(s.curious_events as nat, t, d)
        + "   Night-Shift Events: "@ + anomaly_text(s.night_shift_events as nat, t, d) + "\n"@
}

/// User section of the simplified output.
pub open spec fn simplified_users_text(s: ConsolidatedStatistics) -> Seq<char> {
    let u = s.total_users as nat;
    "👥 User Profile:\n"@ + "   "@ + decimal(s.curious_users as nat) + " curious users ("@
        + percent_text(s.curious_users as nat, u) + "%), "@ + decimal(
        s.cloned_badge_users as nat,
    ) + " with cloned badges ("@ + percent_text(s.cloned_badge_users as nat, u) + "%), "@
        + decimal(s.night_shift_users as nat) + " night-shift ("@ + percent_text(
        s.night_shift_users as nat,
        u,
    ) + "%)\n\n"@
}

/// The whole simplified output.
pub open spec fn simplified_output_text(s: ConsolidatedStatistics) -> Seq<char> {
    simplified_summary_text(s) + simplified_events_text(s) + simplified_anomalies_text(s)
        + simplified_users_text(s) + performance_text(
        s.total_events as nat,
        s.simulation_duration.total_nanos(),
    ) + "💡 Summary: "@ + consolidated_compact_text(s) + "\n"@
}

/// Append the anomaly line body for `n` events.
fn push_anomaly(s: &mut String, n: usize, total: usize, days: usize)
    ensures
        final(s)@ == old(s)@ + anomaly_text(n as nat, total as nat, days as nat),
{
    push_decimal(s, n as u128);
    s.append(" (");
    push_percent(s, n as u64, total as u64);
    if days > 0 {
        s.append(", avg ");
        push_ratio(s, n, days);
        s.append("/day");
    }
    s.append(")\n");
    assert(s@ =~= old(s)@ + anomaly_text(n as nat, total as nat, days as nat));
}

impl ConsolidatedStatistics {
    /// The report printed at the end of a batch run.
    /// Percentages, averages, rates and durations are the exact ratios
    /// rounded half to even (see `round_half_even`), which can differ in
    /// the last digit from the same ratio computed in floating point.
    pub fn generate_simplified_statistics_output(&self) -> (text: String)
        ensures
            text@ == simplified_output_text(*self),
    {
        let mut s = String::new();
        self.push_simplified_summary(&mut s);
        self.push_simplified_events(&mut s);
        self.push_simplified_anomalies(&mut s);
        self.push_simplified_users(&mut s);
        let ns: u128 = (self.simulation_duration.secs as u128) * 1_000_000_000
            + (self.simulation_duration.nanos as u128);
        push_performance(&mut s, self.total_events, ns);
        s.append("💡 Summary: ");
        let compact = self.generate_compact_summary();
        s.append(compact.as_str());
        s.append("\n");
        assert(s@ =~= simplified_output_text(*self));
        s
    }

    fn push_simplified_summary(&self, s: &mut String)
        ensures
            final(s)@ == old(s)@ + simplified_summary_text(*self),
    {
        s.append("🎯 Badge Access Simulation Complete!\n");
        s.append("=====================================\n\n");
        s.append("📊 Simulation Summary:\n");
        s.append("   Days Simulated: ");
        push_decimal(s, self.days_simulated as u128);
        s.append("\n");
        s.append("   Duration: ");
        push_duration_seconds(s, self.simulation_duration);
        s.append(" seconds\n");
        s.append("   Infrastructure: ");
        push_decimal(s, self.total_users as u128);
        s.append(" users across ");
        push_decimal(s, self.total_locations as u128);
        s.append(" locations (");
        push_decimal(s, self.total_buildings as u128);
        s.append(" buildings, ");
        push_decimal(s, self.total_rooms as u128);
        s.append(" rooms)\n\n");
        assert(s@ =~= old(s)@ + simplified_summary_text(*self));
    }

    fn push_simplified_events(&self, s: &mut String)
        ensures
            final(s)@ == old(s)@ + simplified_events_text(*self),
    {
        let t = self.total_events;
        s.append("📈 Event Statistics:\n");
        s.append("   Total Events Generated: ");
        push_decimal(s, t as u128);
        s.append("\n");
        push_daily_average(s, t, self.days_simulated);
        s.append("   Success Rate: ");
        push_percent(s, self.success_events as u64, t as u64);
        s.append("% (");
        push_decimal(s, self.success_events as u128);
        s.append(" successful, ");
        push_decimal(s, self.failure_events as u128);
        s.append(" failed)\n\n");
        assert(s@ =~= old(s)@ + simplified_events_text(*self));
    }

    fn push_simplified_anomalies(&self, s: &mut String)
        ensures
            final(s)@ == old(s)@ + simplified_anomalies_text(*self),
    {
        let t = self.total_events;
        let d = self.days_simulated;
        s.append("🚨 Security Anomalies Detected:\n");
        s.append("   Impossible Traveler Events: ");
        push_anomaly(s, self.impossible_traveler_events, t, d);
        s.append("   Curious User Events: ");
        push_anomaly(s, self.curious_events, t, d);
        s.append("   Night-Shift Events: ");
        push_anomaly(s, self.night_shift_events, t, d);
        s.append("\n");
        assert(s@ =~= old(s)@ + simplified_anomalies_text(*self));
    }

    fn push_simplified_users(&self, s: &mut String)
        ensures
            final(s)@ == old(s)@ + simplified_users_text(*self),
    {
        let u = self.total_users;
        s.append("👥 User Profile:\n");
        s.append("   ");
        push_decimal(s, self.curious_users as u128);
        s.append(" curious users (");
        push_percent(s, self.curious_users as u64, u as u64);
        s.append("%), ");
        push_decimal(s, self.cloned_badge_users as u128);
        s.append(" with cloned badges (");
        push_percent(s, self.cloned_badge_users as u64, u as u64);
        s.append("%), ");
        push_decimal(s, self.night_shift_users as u128);
        s.append(" night-shift (");
        push_percent(s, self.night_shift_users as u64, u as u64);
        s.append("%)\n\n");
        assert(s@ =~= old(s)@ + simplified_users_text(*self));
    }
}

/// Append the daily average line when days were simulated.
fn push_daily_average(s: &mut String, t: usize, d: usize)
    ensures
        final(s)@ == old(s)@ + daily_average_text(t as nat, d as nat),
{
    if d > 0 {
        s.append("   Daily Average: ");
        push_ratio(s, t, d);
        s.append(" events/day\n");
        assert(s@ =~= old(s)@ + daily_average_text(t as nat, d as nat));
    } else {
        assert(s@ =~= old(s)@ + daily_average_text(t as nat, d as nat));
    }
}

/// Append the performance section when the duration is positive.
fn push_performance(s: &mut String, t: usize, ns: u128)
    requires
        ns <= u64::MAX as u128 * 1_000_000_000 + u32::MAX as u128,
    ensures
        final(s)@ == old(s)@ + performance_text(t as nat, ns as nat),
{
    if ns > 0 {
        s.append("⚡ Performance:\n");
        s.append("   Generated ");
        let eps = round_half_even_exec((t as u128) * 1_000_000_000, ns);
        push_decimal(s, eps);
        s.append(" events/second\n\n");
        assert(s@ =~= old(s)@ + performance_text(t as nat, ns as nat));
    } else {
        assert(s@ =~= old(s)@ + performance_text(t as nat, ns as nat));
    }
}
/// Counters of access events by kind.
#[derive(Clone, Debug)]
pub struct EventTypeStatistics {
    /// Events counted as a success or a failure of some kind.
    pub total_events: usize,
    /// Successful access events.
    pub success_events: usize,
    /// Failed access events.
    pub failure_events: usize,
    /// Invalid badge events.
    pub invalid_badge_events: usize,
    /// Events outside business hours.
    pub outside_hours_events: usize,
    /// Suspicious events.
    pub suspicious_events: usize,
    /// Unauthorized access attempts by curious users.
    pub curious_events: usize,
    /// Impossible traveler events.
    pub impossible_traveler_events: usize,
    /// Badge reader failures.
    pub badge_reader_failure_events: usize,
    /// Night-shift events during off-hours.
    pub night_shift_events: usize,
}

impl EventTypeStatistics {
    /// Whether the total counts exactly the successes, failures, invalid
    /// badge, outside-hours and suspicious events; curious, impossible
    /// traveler, badge reader and night-shift events do not count toward it.
    pub open spec fn counts_add_up(&self) -> bool {
        self.total_events == self.success_events + self.failure_events + self.invalid_badge_events
            + self.outside_hours_events + self.suspicious_events
    }

    /// All counters zero.
    pub open spec fn zeroed() -> Self {
        EventTypeStatistics {
            total_events: 0,
            success_events: 0,
            failure_events: 0,
            invalid_badge_events: 0,
            outside_hours_events: 0,
            suspicious_events: 0,
            curious_events: 0,
            impossible_traveler_events: 0,
            badge_reader_failure_events: 0,
            night_shift_events: 0,
        }
    }

    /// Statistics with every counter at zero.
    pub fn new() -> (s: Self)
        ensures
            s == Self::zeroed(),
    {
        EventTypeStatistics {
            total_events: 0,
            success_events: 0,
            failure_events: 0,
            invalid_badge_events: 0,
            outside_hours_events: 0,
            suspicious_events: 0,
            curious_events: 0,
            impossible_traveler_events: 0,
            badge_reader_failure_events: 0,
            night_shift_events: 0,
        }
    }

    /// Count a successful event; the total grows by one as well.
    pub fn increment_success(&mut self)
        requires
            old(self).success_events < usize::MAX,
            old(self).total_events < usize::MAX,
        ensures
            *final(self) == (EventTypeStatistics {
                success_events: (old(self).success_events + 1) as usize,
                total_events: (old(self).total_events + 1) as usize,
                ..*old(self)
            }),
            old(self).counts_add_up() ==> final(self).counts_add_up(),
    {
        self.success_events = self.success_events + 1;
        self.total_events = self.total_events + 1;
    }

    /// Count a failed event; the total grows by one as well.
    pub fn increment_failure(&mut self)
        requires
            old(self).failure_events < usize::MAX,
            old(self).total_events < usize::MAX,
        ensures
            *final(self) == (EventTypeStatistics {
                failure_events: (old(self).failure_events + 1) as usize,
                total_events: (old(self).total_events + 1) as usize,
                ..*old(self)
            }),
            old(self).counts_add_up() ==> final(self).counts_add_up(),
    {
        self.failure_events = self.failure_events + 1;
        self.total_events = self.total_events + 1;
    }

    /// Count an invalid badge event; the total grows by one as well.
    pub fn increment_invalid_badge(&mut self)
        requires
            old(self).invalid_badge_events < usize::MAX,
            old(self).total_events < usize::MAX,
        ensures
            *final(self) == (EventTypeStatistics {
                invalid_badge_events: (old(self).invalid_badge_events + 1) as usize,
                total_events: (old(self).total_events + 1) as usize,
                ..*old(self)
            }),
            old(self).counts_add_up() ==> final(self).counts_add_up(),
    {
        self.invalid_badge_events = self.invalid_badge_events + 1;
        self.total_events = self.total_events + 1;
    }

    /// Count an event outside business hours; the total grows by one as well.
    pub fn increment_outside_hours(&mut self)
        requires
            old(self).outside_hours_events < usize::MAX,
            old(self).total_events < usize::MAX,
        ensures
            *final(self) == (EventTypeStatistics {
                outside_hours_events: (old(self).outside_hours_events + 1) as usize,
                total_events: (old(self).total_events + 1) as usize,
                ..*old(self)
            }),
            old(self).counts_add_up() ==> final(self).counts_add_up(),
    {
        self.outside_hours_events = self.outside_hours_events + 1;
        self.total_events = self.total_events + 1;
    }

    /// Count a suspicious event; the total grows by one as well.
    pub fn increment_suspicious(&mut self)
        requires
            old(self).suspicious_events < usize::MAX,
            old(self).total_events < usize::MAX,
        ensures
            *final(self) == (EventTypeStatistics {
                suspicious_events: (old(self).suspicious_events + 1) as usize,
                total_events: (old(self).total_events + 1) as usize,
                ..*old(self)
            }),
            old(self).counts_add_up() ==> final(self).counts_add_up(),
    {
        self.suspicious_events = self.suspicious_events + 1;
        self.total_events = self.total_events + 1;
    }

    /// Count a curious event; the total is unchanged.
    pub fn increment_curious(&mut self)
        requires
            old(self).curious_events < usize::MAX,
        ensures
            *final(self) == (EventTypeStatistics {
                curious_events: (old(self).curious_events + 1) as usize,
                ..*old(self)
            }),
            old(self).counts_add_up() ==> final(self).counts_add_up(),
    {
        self.curious_events = self.curious_events + 1;
    }

    /// Count an impossible traveler event; the total is unchanged.
    pub fn increment_impossible_traveler(&mut self)
        requires
            old(self).impossible_traveler_events < usize::MAX,
        ensures
            *final(self) == (EventTypeStatistics {
                impossible_traveler_events: (old(self).impossible_traveler_events + 1) as usize,
                ..*old(self)
            }),
            old(self).counts_add_up() ==> final(self).counts_add_up(),
    {
        self.impossible_traveler_events = self.impossible_traveler_events + 1;
    }

    /// Count a badge reader failure; the total is unchanged.
    pub fn increment_badge_reader_failure(&mut self)
        requires
            old(self).badge_reader_failure_events < usize::MAX,
        ensures
            *final(self) == (EventTypeStatistics {
                badge_reader_failure_events: (old(self).badge_reader_failure_events + 1) as usize,
                ..*old(self)
            }),
            old(self).counts_add_up() ==> final(self).counts_add_up(),
    {
        self.badge_reader_failure_events = self.badge_reader_failure_events + 1;
    }

    /// Count a night-shift event; the total is unchanged.
    pub fn increment_night_shift(&mut self)
        requires
            old(self).night_shift_events < usize::MAX,
        ensures
            *final(self) == (EventTypeStatistics {
                night_shift_events: (old(self).night_shift_events + 1) as usize,
                ..*old(self)
            }),
            old(self).counts_add_up() ==> final(self).counts_add_up(),
    {
        self.night_shift_events = self.night_shift_events + 1;
    }

    /// Failures of every kind: plain failures, invalid badges, events
    /// outside hours and suspicious events.
    pub open spec fn spec_total_failure_events(&self) -> int {
        self.failure_events + self.invalid_badge_events + self.outside_hours_events
            + self.suspicious_events
    }

    /// Anomalies: curious, impossible traveler and badge reader failure events.
    pub open spec fn spec_total_anomaly_events(&self) -> int {
        self.curious_events + self.impossible_traveler_events + self.badge_reader_failure_events
    }

    /// Failures of every kind.
    pub fn total_failure_events(&self) -> (n: usize)
        requires
            self.spec_total_failure_events() <= usize::MAX,
        ensures
            n == self.spec_total_failure_events(),
    {
        self.failure_events + self.invalid_badge_events + self.outside_hours_events
            + self.suspicious_events
    }

    /// Anomalies of every kind.
    pub fn total_anomaly_events(&self) -> (n: usize)
        requires
            self.spec_total_anomaly_events() <= usize::MAX,
        ensures
            n == self.spec_total_anomaly_events(),
    {
        self.curious_events + self.impossible_traveler_events + self.badge_reader_failure_events
    }
}

impl Default for EventTypeStatistics {
    fn default() -> (s: Self)
        ensures
            s == Self::zeroed(),
    {
        Self::new()
    }
}

/// `n (p.p%)` where `n` is a count that may exceed a machine word.
pub open spec fn big_count_percent(n: nat, total: nat) -> Seq<char> {
    decimal(n) + " ("@ + percent_text(n, total) + "%)"@
}

/// The one-line summary of event counts by kind.
pub open spec fn event_summary_text(s: EventTypeStatistics) -> Seq<char> {
    let t = s.total_events as nat;
    "Event Summary: "@ + decimal(t) + " total events | Success: "@ + count_percent(
        s.success_events as nat,
        t,
    ) + " | Failures: "@ + count_percent(s.spec_total_failure_events() as nat, t)
        + " | Anomalies: "@ + decimal(s.curious_events as nat) + " curious ("@ + percent_text(
        s.curious_events as nat,
        t,
    ) + "%), "@ + decimal(s.impossible_traveler_events as nat) + " impossible traveler ("@
        + percent_text(s.impossible_traveler_events as nat, t) + "%)"@
}

/// The compact one-line summary of event counts by kind.
pub open spec fn event_compact_text(s: EventTypeStatistics) -> Seq<char> {
    let t = s.total_events as nat;
    "Events: "@ + decimal(t) + " total, "@ + decimal(s.success_events as nat) + " success ("@
        + percent_text(s.success_events as nat, t) + "%), "@ + decimal(
        s.spec_total_failure_events() as nat,
    ) + " failures ("@ + percent_text(s.spec_total_failure_events() as nat, t) + "%), "@
        + decimal(s.curious_events as nat) + " curious ("@ + percent_text(
        s.curious_events as nat,
        t,
    ) + "%), "@ + decimal(s.impossible_traveler_events as nat) + " impossible traveler ("@
        + percent_text(s.impossible_traveler_events as nat, t) + "%)"@
}

/// The standard event types part of the breakdown.
pub open spec fn event_breakdown_standard_text(s: EventTypeStatistics) -> Seq<char> {
    let t = s.total_events as nat;
    "=== Event Type Breakdown ===\n"@ + "Total Events Generated: "@ + decimal(t) + "\n\n"@
        + "Standard Event Types:\n"@ + count_line(
        "  • Success Events: "@,
        s.success_events as nat,
        t,
    ) + count_line("  • Failure Events: "@, s.failure_events as nat, t) + count_line(
        "  • Invalid Badge Events: "@,
        s.invalid_badge_events as nat,
        t,
    ) + count_line("  • Outside Hours Events: "@, s.outside_hours_events as nat, t) + count_line(
        "  • Suspicious Events: "@,
        s.suspicious_events as nat,
        t,
    )
}

/// The anomaly and off-hours part of the breakdown.
pub open spec fn event_breakdown_anomaly_text(s: EventTypeStatistics) -> Seq<char> {
    let t = s.total_events as nat;
    "\nSecurity Anomaly Events:\n"@ + count_line(
        "  • Curious Events: "@,
        s.curious_events as nat,
        t,
    ) + count_line("  • Impossible Traveler Events: "@, s.impossible_traveler_events as nat, t)
        + count_line("  • Badge Technical Failures: "@, s.badge_reader_failure_events as nat, t)
        + "\nAuthorized Off-Hours Events:\n"@ + count_line(
        "  • Night-Shift Events: "@,
        s.night_shift_events as nat,
        t,
    )
}

/// How the event counters display themselves.
pub open spec fn event_display_text(s: EventTypeStatistics) -> Seq<char> {
    let t = s.total_events as nat;
    "Event Type Statistics:\n"@ + number_line("  Total Events: "@, t) + count_line(
        "  Success Events: "@,
        s.success_events as nat,
        t,
    ) + count_line("  Failure Events: "@, s.failure_events as nat, t) + count_line(
        "  Invalid Badge Events: "@,
        s.invalid_badge_events as nat,
        t,
    ) + count_line("  Outside Hours Events: "@, s.outside_hours_events as nat, t) + count_line(
        "  Suspicious Events: "@,
        s.suspicious_events as nat,
        t,
    ) + count_line("  Curious Events: "@, s.curious_events as nat, t) + count_line(
        "  Impossible Traveler Events: "@,
        s.impossible_traveler_events as nat,
        t,
    ) + count_line("  Badge Technical Failures: "@, s.badge_reader_failure_events as nat, t)
        + "  Night-Shift Events: "@ + count_percent(s.night_shift_events as nat, t)
}

/// Append `n (p.p%)` for a count given as a wide integer.
fn push_big_count_percent(s: &mut String, n: u128, total: usize)
    requires
        n <= 4 * (usize::MAX as u128),
    ensures
        final(s)@ == old(s)@ + count_percent(n as nat, total as nat),
{
    push_decimal(s, n);
    s.append(" (");
    let t = if total == 0 {
        0
    } else {
        round_half_even_exec(n * 1000, total as u128)
    };
    push_one_decimal(s, t);
    s.append("%)");
    assert(s@ =~= old(s)@ + count_percent(n as nat, total as nat));
}

impl EventTypeStatistics {
    /// Failures of every kind, without overflow.
    fn failure_sum(&self) -> (n: u128)
        ensures
            n == self.spec_total_failure_events(),
            n <= 4 * (usize::MAX as u128),
    {
        (self.failure_events as u128) + (self.invalid_badge_events as u128)
            + (self.outside_hours_events as u128) + (self.suspicious_events as u128)
    }

    /// One line with the event counts by kind and their percentages.
    pub fn summary(&self) -> (text: String)
        ensures
            text@ == event_summary_text(*self),
    {
        let t = self.total_events;
        let mut s = String::new();
        s.append("Event Summary: ");
        push_decimal(&mut s, t as u128);
        s.append(" total events | Success: ");
        push_count_percent(&mut s, self.success_events, t);
        s.append(" | Failures: ");
        push_big_count_percent(&mut s, self.failure_sum(), t);
        s.append(" | Anomalies: ");
        push_decimal(&mut s, self.curious_events as u128);
        s.append(" curious (");
        push_percent(&mut s, self.curious_events as u64, t as u64);
        s.append("%), ");
        push_decimal(&mut s, self.impossible_traveler_events as u128);
        s.append(" impossible traveler (");
        push_percent(&mut s, self.impossible_traveler_events as u64, t as u64);
        s.append("%)");
        assert(s@ =~= event_summary_text(*self));
        s
    }

    /// A compact line with the main counts and percentages.
    pub fn compact_summary(&self) -> (text: String)
        ensures
            text@ == event_compact_text(*self),
    {
        let t = self.total_events;
        let f = self.failure_sum();
        let mut s = String::new();
        s.append("Events: ");
        push_decimal(&mut s, t as u128);
        s.append(" total, ");
        push_decimal(&mut s, self.success_events as u128);
        s.append(" success (");
        push_percent(&mut s, self.success_events as u64, t as u64);
        s.append("%), ");
        push_decimal(&mut s, f);
        s.append(" failures (");
        let ft = if t == 0 { 0 } else { round_half_even_exec(f * 1000, t as u128) };
        push_one_decimal(&mut s, ft);
        s.append("%), ");
        push_decimal(&mut s, self.curious_events as u128);
        s.append(" curious (");
        push_percent(&mut s, self.curious_events as u64, t as u64);
        s.append("%), ");
        push_decimal(&mut s, self.impossible_traveler_events as u128);
        s.append(" impossible traveler (");
        push_percent(&mut s, self.impossible_traveler_events as u64, t as u64);
        s.append("%)");
        assert(s@ =~= event_compact_text(*self));
        s
    }

    /// The event counts by kind, one line each, in sections.
    #[verifier::rlimit(50)]
    pub fn detailed_breakdown(&self) -> (text: String)
        ensures
            text@ == event_breakdown_standard_text(*self) + event_breakdown_anomaly_text(*self),
    {
        let t = self.total_events;
        let mut s = String::new();
        s.append("=== Event Type Breakdown ===\n");
        s.append("Total Events Generated: ");
        push_decimal(&mut s, t as u128);
        s.append("\n\n");
        s.append("Standard Event Types:\n");
        push_count_line(&mut s, "  • Success Events: ", self.success_events, t);
        push_count_line(&mut s, "  • Failure Events: ", self.failure_events, t);
        push_count_line(&mut s, "  • Invalid Badge Events: ", self.invalid_badge_events, t);
        push_count_line(&mut s, "  • Outside Hours Events: ", self.outside_hours_events, t);
        push_count_line(&mut s, "  • Suspicious Events: ", self.suspicious_events, t);
        assert(s@ =~= event_breakdown_standard_text(*self));
        let ghost head = s@;
        s.append("\nSecurity Anomaly Events:\n");
        push_count_line(&mut s, "  • Curious Events: ", self.curious_events, t);
        push_count_line(
            &mut s,
            "  • Impossible Traveler Events: ",
            self.impossible_traveler_events,
            t,
        );
        push_count_line(
            &mut s,
            "  • Badge Technical Failures: ",
            self.badge_reader_failure_events,
            t,
        );
        s.append("\nAuthorized Off-Hours Events:\n");
        push_count_line(&mut s, "  • Night-Shift Events: ", self.night_shift_events, t);
        assert(s@ =~= head + event_breakdown_anomaly_text(*self));
        s
    }

    /// How the event counters display themselves: a title and one line per kind.
    #[verifier::rlimit(50)]
    pub fn to_display_string(&self) -> (text: String)
        ensures
            text@ == event_display_text(*self),
    {
        let t = self.total_events;
        let mut s = String::new();
        s.append("Event Type Statistics:\n");
        push_number_line(&mut s, "  Total Events: ", t as u128);
        push_count_line(&mut s, "  Success Events: ", self.success_events, t);
        push_count_line(&mut s, "  Failure Events: ", self.failure_events, t);
        push_count_line(&mut s, "  Invalid Badge Events: ", self.invalid_badge_events, t);
        push_count_line(&mut s, "  Outside Hours Events: ", self.outside_hours_events, t);
        push_count_line(&mut s, "  Suspicious Events: ", self.suspicious_events, t);
        push_count_line(&mut s, "  Curious Events: ", self.curious_events, t);
        push_count_line(
            &mut s,
            "  Impossible Traveler Events: ",
            self.impossible_traveler_events,
            t,
        );
        push_count_line(
            &mut s,
            "  Badge Technical Failures: ",
            self.badge_reader_failure_events,
            t,
        );
        s.append("  Night-Shift Events: ");
        push_count_percent(&mut s, self.night_shift_events, t);
        assert(s@ =~= event_display_text(*self));
        s
    }
}

impl ConsolidatedStatistics {
    /// Apply `update_fn` to the statistics: it runs once, on these
    /// statistics, and they end as it leaves them.
    pub fn update_event_type_counters<F: FnOnce(&mut Self)>(&mut self, update_fn: F)
        requires
            forall|s: &mut Self| *s == *old(self) ==> #[trigger] call_requires(update_fn, (s,)),
        ensures
            exists|s: &mut Self| *s == *old(self) && *final(s) == *final(self) && call_ensures(update_fn, (s,), ()),
    {
        update_fn(self);
    }
}

impl Default for ConsolidatedStatistics {
    /// All counters zero and a zero duration.
    fn default() -> (s: Self)
        ensures
            s == Self::zeroed(),
    {
        ConsolidatedStatistics::new(0, 0, 0, 0, 0, 0, 0)
    }
}

/// What a running simulation is doing at a moment.
#[derive(Clone, Copy, Debug, PartialEq, Eq, Structural)]
pub struct RuntimeStatistics {
    /// The simulated time.
    pub current_simulated_time: Timestamp,
    /// Users busy with an activity.
    pub users_with_current_activities: usize,
    /// Idle users.
    pub users_idle: usize,
    /// Wall-clock time the simulation has run.
    pub simulation_uptime: ElapsedTime,
}

impl RuntimeStatistics {
    /// Statistics with the given parts.
    pub fn new(
        current_simulated_time: Timestamp,
        users_with_current_activities: usize,
        users_idle: usize,
        simulation_uptime: ElapsedTime,
    ) -> (s: Self)
        ensures
            s == (RuntimeStatistics { current_simulated_time, users_with_current_activities, users_idle, simulation_uptime }),
    {
        RuntimeStatistics { current_simulated_time, users_with_current_activities, users_idle, simulation_uptime }
    }

    /// Busy and idle users together.
    pub fn total_users(&self) -> (n: usize)
        requires
            self.users_with_current_activities + self.users_idle <= usize::MAX,
        ensures
            n == self.users_with_current_activities + self.users_idle,
    {
        self.users_with_current_activities + self.users_idle
    }

    /// Whole seconds of uptime.
    pub fn uptime_seconds(&self) -> (s: u64)
        ensures
            s == self.simulation_uptime.secs,
    {
        self.simulation_uptime.as_secs()
    }
}

impl Default for RuntimeStatistics {
    /// No users, no uptime, at the current time.
    fn default() -> (s: Self)
        ensures
            s.users_with_current_activities == 0,
            s.users_idle == 0,
            s.simulation_uptime == (ElapsedTime { secs: 0, nanos: 0 }),
    {
        RuntimeStatistics {
            current_simulated_time: Timestamp::now(),
            users_with_current_activities: 0,
            users_idle: 0,
            simulation_uptime: ElapsedTime::from_secs(0),
        }
    }
}

/// Counters of access attempts and the busiest hour and room type.
#[derive(Clone, Debug)]
pub struct AccessComplexityStats {
    /// Attempts recorded.
    pub total_access_attempts: usize,
    /// Attempts that succeeded.
    pub successful_attempts: usize,
    /// Attempts that failed.
    pub failed_attempts: usize,
    /// Attempts without authorization.
    pub unauthorized_attempts: usize,
    /// Average attempts per user and day, held as the bit pattern of an
    /// IEEE-754 double (`f64::to_bits`).
    pub avg_attempts_per_user_per_day: u64,
    /// The kind of room accessed most.
    pub most_accessed_room_type: String,
    /// The hour of the day with most attempts, 0 to 23.
    pub peak_access_hour: u8,
}

impl AccessComplexityStats {
    /// No attempts, an average of 0.0, room type `Unknown`, peak at 9.
    pub fn new() -> (s: Self)
        ensures
            s.total_access_attempts == 0,
            s.successful_attempts == 0,
            s.failed_attempts == 0,
            s.unauthorized_attempts == 0,
            s.avg_attempts_per_user_per_day == 0,
            s.most_accessed_room_type@ == "Unknown"@,
            s.peak_access_hour == 9,
    {
        AccessComplexityStats {
            total_access_attempts: 0,
            successful_attempts: 0,
            failed_attempts: 0,
            unauthorized_attempts: 0,
            avg_attempts_per_user_per_day: 0,
            most_accessed_room_type: String::from_str("Unknown"),
            peak_access_hour: 9,
        }
    }

    /// Count an attempt: it succeeded or failed, and may have been unauthorized.
    pub fn record_access_attempt(&mut self, success: bool, unauthorized: bool)
        requires
            old(self).total_access_attempts < usize::MAX,
            old(self).successful_attempts < usize::MAX,
            old(self).failed_attempts < usize::MAX,
            old(self).unauthorized_attempts < usize::MAX,
        ensures
            final(self).total_access_attempts == old(self).total_access_attempts + 1,
            final(self).successful_attempts == old(self).successful_attempts + if success { 1int } else { 0int },
            final(self).failed_attempts == old(self).failed_attempts + if success { 0int } else { 1int },
            final(self).unauthorized_attempts == old(self).unauthorized_attempts + if unauthorized { 1int } else { 0int },
            final(self).avg_attempts_per_user_per_day == old(self).avg_attempts_per_user_per_day,
            final(self).most_accessed_room_type == old(self).most_accessed_room_type,
            final(self).peak_access_hour == old(self).peak_access_hour,
    {
        self.total_access_attempts = self.total_access_attempts + 1;
        if success {
            self.successful_attempts = self.successful_attempts + 1;
        } else {
            self.failed_attempts = self.failed_attempts + 1;
        }
        if unauthorized {
            self.unauthorized_attempts = self.unauthorized_attempts + 1;
        }
    }

    /// Record the kind of room accessed most.
    pub fn update_most_accessed_room_type(&mut self, room_type: String)
        ensures
            final(self).most_accessed_room_type == room_type,
            final(self).total_access_attempts == old(self).total_access_attempts,
            final(self).successful_attempts == old(self).successful_attempts,
            final(self).failed_attempts == old(self).failed_attempts,
            final(self).unauthorized_attempts == old(self).unauthorized_attempts,
            final(self).avg_attempts_per_user_per_day == old(self).avg_attempts_per_user_per_day,
            final(self).peak_access_hour == old(self).peak_access_hour,
    {
        self.most_accessed_room_type = room_type;
    }

    /// Record the busiest hour; an hour past 23 is ignored.
    pub fn update_peak_access_hour(&mut self, hour: u8)
        ensures
            final(self).peak_access_hour == if hour < 24 { hour } else { old(self).peak_access_hour },
            final(self).total_access_attempts == old(self).total_access_attempts,
            final(self).successful_attempts == old(self).successful_attempts,
            final(self).failed_attempts == old(self).failed_attempts,
            final(self).unauthorized_attempts == old(self).unauthorized_attempts,
            final(self).avg_attempts_per_user_per_day == old(self).avg_attempts_per_user_per_day,
            final(self).most_accessed_room_type == old(self).most_accessed_room_type,
    {
        if hour < 24 {
            self.peak_access_hour = hour;
        }
    }

    /// Record the average attempts per user and day (as `f64` bits).
    pub fn update_avg_attempts_per_user_per_day(&mut self, avg: u64)
        ensures
            final(self).avg_attempts_per_user_per_day == avg,
            final(self).total_access_attempts == old(self).total_access_attempts,
            final(self).successful_attempts == old(self).successful_attempts,
            final(self).failed_attempts == old(self).failed_attempts,
            final(self).unauthorized_attempts == old(self).unauthorized_attempts,
            final(self).most_accessed_room_type == old(self).most_accessed_room_type,
            final(self).peak_access_hour == old(self).peak_access_hour,
    {
        self.avg_attempts_per_user_per_day = avg;
    }
}

impl Default for AccessComplexityStats {
    /// No attempts, an average of 0.0, room type `Unknown`, peak at 9.
    fn default() -> (s: Self)
        ensures
            s.total_access_attempts == 0,
            s.successful_attempts == 0,
            s.failed_attempts == 0,
            s.unauthorized_attempts == 0,
            s.avg_attempts_per_user_per_day == 0,
            s.most_accessed_room_type@ == "Unknown"@,
            s.peak_access_hour == 9,
    {
        AccessComplexityStats::new()
    }
}

/// Of event-type statistics whose counts add up (fresh ones do, and every
/// increment keeps them so), the successes and the failures of every kind
/// make the total, each event counted once.
pub proof fn law_event_type_totals(e: EventTypeStatistics)
    requires
        e.counts_add_up(),
    ensures
        EventTypeStatistics::zeroed().counts_add_up(),
        e.spec_total_failure_events() == e.failure_events + e.invalid_badge_events + e.outside_hours_events + e.suspicious_events,
        e.success_events + e.spec_total_failure_events() == e.total_events,
{
}

/// Of consolidated statistics whose totals add up (fresh ones do, and
/// every increment keeps them so), the successes and the failure-type
/// events make the total, each event counted once.
pub proof fn law_consolidated_totals(s: ConsolidatedStatistics)
    requires
        s.totals_add_up(),
    ensures
        ConsolidatedStatistics::zeroed().totals_add_up(),
        s.success_events + s.spec_total_failure_events() == s.total_events,
        s.spec_total_failure_events() >= s.invalid_badge_events + s.outside_hours_events + s.suspicious_events,
{
}


/// Concatenation of texts groups either way.
proof fn lemma_concat_assoc(a: Seq<char>, b: Seq<char>, c: Seq<char>)
    ensures
        (a + b) + c == a + (b + c),
{
    assert((a + b) + c =~= a + (b + c));
}

/// The summary report's event section lists the successes and the failures,
/// each with its share of all events (not of the users or anything else);
/// the number of users plays no part in that section: statistics that
/// differ only in their user count have the same event and anomaly sections.
pub proof fn law_summary_report_event_shares(s: ConsolidatedStatistics, users: usize)
    ensures
        exists|lead: Seq<char>, rest: Seq<char>| report_tail_text(s) == lead
            + count_line("  • Success Events: "@, s.success_events as nat, s.total_events as nat)
            + count_line("  • Failure Events: "@, s.failure_events as nat, s.total_events as nat) + rest,
        report_tail_text(ConsolidatedStatistics { total_users: users, ..s }) == report_tail_text(s),
{
    let t = s.total_events as nat;
    let d = s.days_simulated as nat;
    let lead = "Event Statistics:\n"@ + "  • Total Events: "@ + decimal(t) + " (avg "@ + ratio_text(t, d) + "/day)\n"@;
    let x = lead + count_line("  • Success Events: "@, s.success_events as nat, t)
        + count_line("  • Failure Events: "@, s.failure_events as nat, t);
    let q1 = "\n"@;
    let q2 = "Security Anomalies:\n"@;
    let q3 = "  • Curious Events: "@;
    let q4 = count_percent_avg(s.curious_events as nat, t, d);
    let q5 = "\n"@;
    let q6 = "  • Impossible Traveler Events: "@;
    let q7 = count_percent_avg(s.impossible_traveler_events as nat, t, d);
    let q8 = "\n"@;
    let q9 = "  • Night-Shift Events: "@;
    let q10 = count_percent_avg(s.night_shift_events as nat, t, d);
    let q11 = "\n"@;
    let r2 = q1 + q2;
    lemma_concat_assoc(x, q1, q2);
    let r3 = r2 + q3;
    lemma_concat_assoc(x, r2, q3);
    let r4 = r3 + q4;
    lemma_concat_assoc(x, r3, q4);
    let r5 = r4 + q5;
    lemma_concat_assoc(x, r4, q5);
    let r6 = r5 + q6;
    lemma_concat_assoc(x, r5, q6);
    let r7 = r6 + q7;
    lemma_concat_assoc(x, r6, q7);
    let r8 = r7 + q8;
    lemma_concat_assoc(x, r7, q8);
    let r9 = r8 + q9;
    lemma_concat_assoc(x, r8, q9);
    let r10 = r9 + q10;
    lemma_concat_assoc(x, r9, q10);
    let r11 = r10 + q11;
    lemma_concat_assoc(x, r10, q11);
    assert(report_tail_text(s) == x + r11);
}
} // verus!
