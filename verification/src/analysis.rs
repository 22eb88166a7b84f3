//! Anomalies found in user profile records, and the text edits of the report upload.

use vstd::prelude::*;
use vstd::string::{StringExecFns, StrSliceExecFns};

verus! {

/// An anomaly found in a user's profile.
#[derive(Clone, Debug)]
pub struct UserAnomaly {
    /// The user.
    pub user_id: String,
    /// `cloned_badge`, `curious_access` or `night_shift_access`.
    pub anomaly_type: String,
    /// What was found.
    pub details: String,
    /// The issue it points to.
    pub issue: String,
    /// `low`, `medium` or `high`.
    pub severity: String,
    /// When the anomaly was found.
    pub timestamp: String,
}

/// Whether `a` has exactly the given texts.
pub open spec fn anomaly_has(
    a: UserAnomaly,
    user_id: Seq<char>,
    anomaly_type: Seq<char>,
    details: Seq<char>,
    issue: Seq<char>,
    severity: Seq<char>,
    timestamp: Seq<char>,
) -> bool {
    &&& a.user_id@ == user_id
    &&& a.anomaly_type@ == anomaly_type
    &&& a.details@ == details
    &&& a.issue@ == issue
    &&& a.severity@ == severity
    &&& a.timestamp@ == timestamp
}

/// The seconds since midnight of a time of day written `HH:MM:SS`, as
/// `chrono::NaiveTime::parse_from_str(text, "%H:%M:%S")` reads it, or
/// `None` when it does not parse.
pub uninterp spec fn parsed_seconds_of_day(text: Seq<char>) -> Option<u32>;

/// Calls `chrono::NaiveTime::parse_from_str(text, "%H:%M:%S")` and, when it
/// parses, `num_seconds_from_midnight`, which chrono documents as the
/// non-leap seconds past midnight, below 86 400. The parse itself is named,
/// not stated.
#[verifier::external_body]
fn parse_seconds_of_day(text: &str) -> (r: Option<u32>)
    ensures
        r == parsed_seconds_of_day(text@),
        r matches Some(s) ==> s < 86_400,
{
    match chrono::NaiveTime::parse_from_str(text, "%H:%M:%S") {
        Ok(t) => Some(chrono::Timelike::num_seconds_from_midnight(&t)),
        Err(_) => None,
    }
}

/// Whether a time of day, in seconds since midnight, is at night: before
/// 06:00:00 or after 22:00:00.
pub open spec fn at_night(seconds: nat) -> bool {
    seconds < 21_600 || seconds > 79_200
}

/// The anomaly of a user with a cloned badge, when the profile says so.
pub fn cloned_badge_anomaly(user_id: String, has_cloned_badge: bool, timestamp: String) -> (r: Option<UserAnomaly>)
    ensures
        r.is_some() == has_cloned_badge,
        r matches Some(a) ==> anomaly_has(
            a,
            user_id@,
            "cloned_badge"@,
            "User has a cloned badge assigned."@,
            "Multiple active badge IDs detected"@,
            "high"@,
            timestamp@,
        ),
{
    if !has_cloned_badge {
        return None;
    }
    Some(UserAnomaly {
        user_id,
        anomaly_type: String::from_str("cloned_badge"),
        details: String::from_str("User has a cloned badge assigned."),
        issue: String::from_str("Multiple active badge IDs detected"),
        severity: String::from_str("high"),
        timestamp,
    })
}

/// The anomaly of a curious user, when the profile says so.
pub fn curious_access_anomaly(user_id: String, is_curious: bool, timestamp: String) -> (r: Option<UserAnomaly>)
    ensures
        r.is_some() == is_curious,
        r matches Some(a) ==> anomaly_has(
            a,
            user_id@,
            "curious_access"@,
            "User accessed unauthorized rooms."@,
            "Unauthorized access pattern detected"@,
            "high"@,
            timestamp@,
        ),
{
    if !is_curious {
        return None;
    }
    Some(UserAnomaly {
        user_id,
        anomaly_type: String::from_str("curious_access"),
        details: String::from_str("User accessed unauthorized rooms."),
        issue: String::from_str("Unauthorized access pattern detected"),
        severity: String::from_str("high"),
        timestamp,
    })
}

/// The anomaly of an access at `access_time`, read as `seconds` past
/// midnight (`None` when it did not read as a time of day): there is one
/// exactly when the time is before 06:00:00 or after 22:00:00.
pub fn night_anomaly_for_time(
    user_id: String,
    access_time: &str,
    seconds: Option<u32>,
    timestamp: String,
) -> (r: Option<UserAnomaly>)
    ensures
        r.is_some() == (seconds matches Some(s) && at_night(s as nat)),
        r matches Some(a) ==> anomaly_has(
            a,
            user_id@,
            "night_shift_access"@,
            "User accessed during night hours: "@ + access_time@,
            "Access outside normal business hours"@,
            "medium"@,
            timestamp@,
        ),
{
    let seconds = match seconds {
        Some(s) => s,
        None => return None,
    };
    if !(seconds < 21_600 || seconds > 79_200) {
        return None;
    }
    let mut details = String::from_str("User accessed during night hours: ");
    details.append(access_time);
    Some(UserAnomaly {
        user_id,
        anomaly_type: String::from_str("night_shift_access"),
        details,
        issue: String::from_str("Access outside normal business hours"),
        severity: String::from_str("medium"),
        timestamp,
    })
}

/// The anomaly of an access at night, when the profile's last access time
/// parses as a time of day before 06:00:00 or after 22:00:00.
pub fn night_shift_anomaly(user_id: String, last_access_time: Option<&str>, timestamp: String) -> (r: Option<UserAnomaly>)
    ensures
        r.is_some() == (last_access_time matches Some(t) && parsed_seconds_of_day(t@) matches Some(s) && at_night(s as nat)),
        r matches Some(a) ==> last_access_time matches Some(t) && anomaly_has(
            a,
            user_id@,
            "night_shift_access"@,
            "User accessed during night hours: "@ + t@,
            "Access outside normal business hours"@,
            "medium"@,
            timestamp@,
        ),
{
    match last_access_time {
        Some(access_time) => {
            let seconds = parse_seconds_of_day(access_time);
            night_anomaly_for_time(user_id, access_time, seconds, timestamp)
        },
        None => None,
    }
}

/// What the anomaly checks read of a user profile record: each field when
/// the record has it with the expected JSON type.
#[derive(Clone, Debug)]
pub struct ProfileFields {
    /// The `user_id` string.
    pub user_id: Option<String>,
    /// The `has_cloned_badge` flag.
    pub has_cloned_badge: Option<bool>,
    /// The `is_curious` flag.
    pub is_curious: Option<bool>,
    /// The `last_access_time` string.
    pub last_access_time: Option<String>,
}

/// The text of an optional string.
pub open spec fn text_of(s: Option<String>) -> Option<Seq<char>> {
    match s {
        Some(t) => Some(t@),
        None => None,
    }
}

/// The fields of a profile record, as plain values.
pub open spec fn profile_view(p: ProfileFields) -> (Option<Seq<char>>, Option<bool>, Option<bool>, Option<Seq<char>>) {
    (text_of(p.user_id), p.has_cloned_badge, p.is_curious, text_of(p.last_access_time))
}

/// What a line of a profile file holds, as `serde_json::from_str::<Value>`
/// reads it: `None` when it is not JSON; otherwise the `user_id`,
/// `has_cloned_badge`, `is_curious` and `last_access_time` members, each
/// where it is present with the expected type (string, boolean, boolean,
/// string).
pub uninterp spec fn parsed_profile(line: Seq<char>) -> Option<(Option<Seq<char>>, Option<bool>, Option<bool>, Option<Seq<char>>)>;

/// Calls `serde_json::from_str::<serde_json::Value>` on the line and, when
/// it parses, reads the four members with `as_str` and `as_bool` (a member
/// that is missing or of another type reads as `None`). The parse itself
/// is named, not stated.
#[verifier::external_body]
fn parse_profile_line(line: &str) -> (r: Option<ProfileFields>)
    ensures
        r is None <==> parsed_profile(line@) is None,
        r matches Some(p) ==> parsed_profile(line@) == Some(profile_view(p)),
{
    let v: serde_json::Value = match serde_json::from_str(line) {
        Ok(v) => v,
        Err(_) => return None,
    };
    Some(ProfileFields {
        user_id: v["user_id"].as_str().map(String::from),
        has_cloned_badge: v["has_cloned_badge"].as_bool(),
        is_curious: v["is_curious"].as_bool(),
        last_access_time: v["last_access_time"].as_str().map(String::from),
    })
}

/// The three checks run over profile records.
#[derive(Clone, Copy, Debug, PartialEq, Eq, Structural)]
pub enum ProfileCheck {
    /// A cloned badge assigned.
    ClonedBadge,
    /// A user trying rooms they may not enter.
    Curious,
    /// A last access at night.
    NightShift,
}

/// The user an anomaly of the profile names: its `user_id`, or `unknown`.
pub open spec fn profile_user(p: (Option<Seq<char>>, Option<bool>, Option<bool>, Option<Seq<char>>)) -> Seq<char> {
    match p.0 {
        Some(u) => u,
        None => "unknown"@,
    }
}

/// Whether the check finds an anomaly in the profile: the flag set (a
/// missing flag counts as unset), or a last access time that reads as a
/// time of day before 06:00:00 or after 22:00:00.
pub open spec fn check_finds(check: ProfileCheck, p: (Option<Seq<char>>, Option<bool>, Option<bool>, Option<Seq<char>>)) -> bool {
    match check {
        ProfileCheck::ClonedBadge => p.1 == Some(true),
        ProfileCheck::Curious => p.2 == Some(true),
        ProfileCheck::NightShift => p.3 matches Some(t) && parsed_seconds_of_day(t) matches Some(s) && at_night(s as nat),
    }
}

/// Whether `a` is the anomaly the check reports for the profile, stamped
/// with the timestamp.
pub open spec fn check_anomaly(
    check: ProfileCheck,
    p: (Option<Seq<char>>, Option<bool>, Option<bool>, Option<Seq<char>>),
    timestamp: Seq<char>,
    a: UserAnomaly,
) -> bool {
    match check {
        ProfileCheck::ClonedBadge => anomaly_has(
            a, profile_user(p), "cloned_badge"@, "User has a cloned badge assigned."@,
            "Multiple active badge IDs detected"@, "high"@, timestamp,
        ),
        ProfileCheck::Curious => anomaly_has(
            a, profile_user(p), "curious_access"@, "User accessed unauthorized rooms."@,
            "Unauthorized access pattern detected"@, "high"@, timestamp,
        ),
        ProfileCheck::NightShift => p.3 matches Some(t) && anomaly_has(
            a, profile_user(p), "night_shift_access"@, "User accessed during night hours: "@ + t,
            "Access outside normal business hours"@, "medium"@, timestamp,
        ),
    }
}

/// The profiles the lines hold, when every line parses.
pub open spec fn profiles_of(lines: Seq<String>) -> Seq<(Option<Seq<char>>, Option<bool>, Option<bool>, Option<Seq<char>>)> {
    lines.map_values(|l: String| parsed_profile(l@).unwrap())
}

/// The predicate "the check finds an anomaly in the profile".
pub open spec fn found_by(check: ProfileCheck) -> spec_fn((Option<Seq<char>>, Option<bool>, Option<bool>, Option<Seq<char>>)) -> bool {
    |p: (Option<Seq<char>>, Option<bool>, Option<bool>, Option<Seq<char>>)| check_finds(check, p)
}

/// Whether the result is that of running the check over the lines of a
/// profile file: the index of the first line that is not JSON, or the
/// anomalies of the profiles the check finds one in, in the lines' order.
pub open spec fn check_result(check: ProfileCheck, lines: Seq<String>, timestamp: Seq<char>, r: Result<Vec<UserAnomaly>, usize>) -> bool {
    match r {
        Err(i) => 0 <= i < lines.len() && parsed_profile(lines[i as int]@) is None
            && forall|j: int| 0 <= j < i ==> (#[trigger] parsed_profile(lines[j]@)) is Some,
        Ok(v) => {
            let found = profiles_of(lines).filter(found_by(check));
            &&& forall|j: int| 0 <= j < lines.len() ==> (#[trigger] parsed_profile(lines[j]@)) is Some
            &&& v@.len() == found.len()
            &&& forall|j: int| 0 <= j < found.len() ==> check_anomaly(check, found[j], timestamp, #[trigger] v@[j])
        },
    }
}

/// Run the check over the lines of a profile file.
fn detect_in(check: ProfileCheck, lines: &Vec<String>, timestamp: &str) -> (r: Result<Vec<UserAnomaly>, usize>)
    ensures
        check_result(check, lines@, timestamp@, r),
{
    let ghost pred = found_by(check);
    let mut out: Vec<UserAnomaly> = Vec::new();
    let mut i: usize = 0;
    while i < lines.len()
        invariant
            i <= lines@.len(),
            pred == found_by(check),
            forall|j: int| 0 <= j < i ==> (#[trigger] parsed_profile(lines@[j]@)) is Some,
            out@.len() == profiles_of(lines@.take(i as int)).filter(pred).len(),
            forall|j: int| 0 <= j < out@.len()
                ==> check_anomaly(check, profiles_of(lines@.take(i as int)).filter(pred)[j], timestamp@, #[trigger] out@[j]),
        decreases lines.len() - i,
    {
        let fields = match parse_profile_line(lines[i].as_str()) {
            Some(f) => f,
            None => return Err(i),
        };
        let ghost p = profile_view(fields);
        let user_id = match fields.user_id {
            Some(u) => u,
            None => String::from_str("unknown"),
        };
        let stamp = String::from_str(timestamp);
        let found = match check {
            ProfileCheck::ClonedBadge => {
                let flag = match fields.has_cloned_badge {
                    Some(b) => b,
                    None => false,
                };
                cloned_badge_anomaly(user_id, flag, stamp)
            },
            ProfileCheck::Curious => {
                let flag = match fields.is_curious {
                    Some(b) => b,
                    None => false,
                };
                curious_access_anomaly(user_id, flag, stamp)
            },
            ProfileCheck::NightShift => match &fields.last_access_time {
                Some(t) => night_shift_anomaly(user_id, Some(t.as_str()), stamp),
                None => night_shift_anomaly(user_id, None, stamp),
            },
        };
        proof {
            let before = lines@.take(i as int);
            assert(lines@.take(i as int + 1) =~= before.push(lines@[i as int]));
            assert(profiles_of(before.push(lines@[i as int])) =~= profiles_of(before).push(p));
            profiles_of(before).lemma_filter_push(p, pred);
            assert(found.is_some() == check_finds(check, p));
        }
        let ghost prev = out@;
        match found {
            Some(a) => {
                out.push(a);
                proof {
                    assert forall|j: int| 0 <= j < out@.len() implies check_anomaly(
                        check, profiles_of(lines@.take(i as int + 1)).filter(pred)[j], timestamp@, #[trigger] out@[j],
                    ) by {
                        if j < prev.len() {
                            assert(out@[j] == prev[j]);
                        }
                    }
                }
            },
            None => {},
        }
        i = i + 1;
    }
    assert(lines@.take(i as int) =~= lines@);
    Ok(out)
}

/// The anomalies of users with cloned badges among the lines of a profile
/// file, or the index of the first line that is not JSON.
pub fn detect_cloned_badges_in(lines: &Vec<String>, timestamp: &str) -> (r: Result<Vec<UserAnomaly>, usize>)
    ensures
        check_result(ProfileCheck::ClonedBadge, lines@, timestamp@, r),
{
    detect_in(ProfileCheck::ClonedBadge, lines, timestamp)
}

/// The anomalies of curious users among the lines of a profile file, or
/// the index of the first line that is not JSON.
pub fn detect_curious_users_in(lines: &Vec<String>, timestamp: &str) -> (r: Result<Vec<UserAnomaly>, usize>)
    ensures
        check_result(ProfileCheck::Curious, lines@, timestamp@, r),
{
    detect_in(ProfileCheck::Curious, lines, timestamp)
}

/// The anomalies of users whose last access was at night among the lines
/// of a profile file, or the index of the first line that is not JSON.
pub fn detect_night_shift_users_in(lines: &Vec<String>, timestamp: &str) -> (r: Result<Vec<UserAnomaly>, usize>)
    ensures
        check_result(ProfileCheck::NightShift, lines@, timestamp@, r),
{
    detect_in(ProfileCheck::NightShift, lines, timestamp)
}

/// The predicate "is an anomaly of the kind".
pub open spec fn of_kind(kind: Seq<char>) -> spec_fn(UserAnomaly) -> bool {
    |a: UserAnomaly| a.anomaly_type@ == kind
}

/// How many anomalies are of the kind.
pub fn count_anomalies(anomalies: &Vec<UserAnomaly>, anomaly_type: &str) -> (n: usize)
    ensures
        n == anomalies@.filter(of_kind(anomaly_type@)).len(),
{
    let ghost pred = of_kind(anomaly_type@);
    let kind = String::from_str(anomaly_type);
    let mut n: usize = 0;
    let mut i: usize = 0;
    while i < anomalies.len()
        invariant
            i <= anomalies@.len(),
            kind@ == anomaly_type@,
            pred == of_kind(anomaly_type@),
            n == anomalies@.take(i as int).filter(pred).len(),
            n <= i,
        decreases anomalies.len() - i,
    {
        proof {
            let s = anomalies@;
            assert(s.take(i as int + 1) =~= s.take(i as int).push(s[i as int]));
            s.take(i as int).lemma_filter_push(s[i as int], pred);
        }
        if anomalies[i].anomaly_type == kind {
            n = n + 1;
        }
        i = i + 1;
    }
    assert(anomalies@.take(i as int) =~= anomalies@);
    n
}

/// The block appended to a report after its upload: a JSON object naming
/// the bucket and the time, after a comma.
pub open spec fn upload_summary_text(bucket_name: Seq<char>, timestamp: Seq<char>) -> Seq<char> {
    ",\n{\n    \"summary\": {\n        \"uploaded_to_s3\": true,\n        \"s3_bucket\": \""@
        + bucket_name + "\",\n        \"timestamp\": \""@ + timestamp + "\"\n    }\n}"@
}

/// The block appended to a report after its upload.
pub fn upload_summary(bucket_name: &str, timestamp: &str) -> (s: String)
    ensures
        s@ == upload_summary_text(bucket_name@, timestamp@),
{
    let mut s = String::from_str(",\n{\n    \"summary\": {\n        \"uploaded_to_s3\": true,\n        \"s3_bucket\": \"");
    s.append(bucket_name);
    s.append("\",\n        \"timestamp\": \"");
    s.append(timestamp);
    s.append("\"\n    }\n}");
    s
}

/// Whether `p` is the last position of `c` in `text`.
pub open spec fn is_last_position(text: Seq<char>, c: char, p: int) -> bool {
    &&& 0 <= p < text.len()
    &&& text[p] == c
    &&& forall|q: int| p < q < text.len() ==> text[q] != c
}

/// `text` with `insert` put right after its last `]`, or unchanged when it has none.
pub open spec fn inserted_after_last_bracket(text: Seq<char>, insert: Seq<char>) -> Seq<char> {
    if exists|p: int| is_last_position(text, ']', p) {
        let p = choose|p: int| is_last_position(text, ']', p);
        text.subrange(0, p + 1) + insert + text.subrange(p + 1, text.len() as int)
    } else {
        text
    }
}

/// Put `insert` right after the last `]` of `text`.
pub fn insert_after_last_bracket(text: &str, insert: &str) -> (s: String)
    ensures
        s@ == inserted_after_last_bracket(text@, insert@),
{
    let n = text.unicode_len();
    let mut i: usize = n;
    while i > 0
        invariant
            i <= n,
            n == text@.len(),
            forall|q: int| i <= q < n ==> text@[q] != ']',
        decreases i,
    {
        if text.get_char(i - 1) == ']' {
            let p = i - 1;
            proof {
                assert(is_last_position(text@, ']', p as int));
                let c = choose|c: int| is_last_position(text@, ']', c);
                if c < p {
                    assert(text@[p as int] == ']');
                } else if c > p {
                    assert(text@[c] != ']');
                }
            }
            let mut s = String::from_str(text.substring_char(0, p + 1));
            s.append(insert);
            s.append(text.substring_char(p + 1, n));
            return s;
        }
        i = i - 1;
    }
    proof {
        assert(!exists|p: int| is_last_position(text@, ']', p));
    }
    String::from_str(text)
}

} // verus!
