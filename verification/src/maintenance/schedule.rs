//! Evaluation of maintenance windows at an instant.
use super::calendar::{
    add_minutes, clock_time, day_text, instant_after, is_clock, is_day, is_instant,
    is_local_instant, is_zone, local_day, local_instants, read_clock, show_day, weekday,
    weekday_of, zone_day, zone_instants, zone_known, MAX_DAY, MIN_DAY,
};
use super::window::{
    bad_start, start_text, unknown_zone, unknown_zone_text, window_models, window_refusal, Window,
    WindowModel,
};
use crate::text::{zero_pad, zero_padded};
use vstd::prelude::*;

verus! {

/// Whether work may start now.
#[derive(Debug, PartialEq, Eq)]
pub enum Eligibility {
    Open { window: String, closes_at: i64 },
    Closed { next_opens_at: Option<i64> },
    Invalid { detail: String },
}

/// What an eligibility says.
pub enum EligibilityModel {
    Open { window: Seq<char>, closes_at: i64 },
    Closed { next_opens_at: Option<i64> },
    Invalid { detail: Seq<char> },
}

impl View for Eligibility {
    type V = EligibilityModel;

    open spec fn view(&self) -> EligibilityModel {
        match *self {
            Eligibility::Open { window, closes_at } => EligibilityModel::Open {
                window: window@,
                closes_at,
            },
            Eligibility::Closed { next_opens_at } => EligibilityModel::Closed { next_opens_at },
            Eligibility::Invalid { detail } => EligibilityModel::Invalid { detail: detail@ },
        }
    }
}

/// What a window does on a day.
enum Occurrence {
    /// It does not recur on the day.
    Absent,
    Valid { start: i64, end: i64 },
    /// Its start is shown twice by the clocks, or never.
    Invalid { starts: Option<(i64, i64)>, sort_at: i64, detail: String },
}

/// What a window does on a day.
pub enum OccurrenceModel {
    Absent,
    Valid { start: i64, end: i64 },
    Invalid { starts: Option<(i64, i64)>, sort_at: i64, detail: Seq<char> },
}

impl View for Occurrence {
    type V = OccurrenceModel;

    closed spec fn view(&self) -> OccurrenceModel {
        match *self {
            Occurrence::Absent => OccurrenceModel::Absent,
            Occurrence::Valid { start, end } => OccurrenceModel::Valid { start, end },
            Occurrence::Invalid { starts, sort_at, detail } => OccurrenceModel::Invalid {
                starts,
                sort_at,
                detail: detail@,
            },
        }
    }
}

/// The first instant that shows a local time some minutes after a clock time
/// of a day.
pub open spec fn shown_after(
    zone: Seq<char>,
    day: int,
    hour: u32,
    minute: u32,
    minutes: int,
) -> Option<i64> {
    let total = hour * 60 + minute + minutes;
    let date = day + total / 1440;
    if !is_day(date) {
        None
    } else {
        match zone_instants(
            zone,
            date as i32,
            (total % 1440 / 60) as u32,
            (total % 60) as u32,
        ) {
            None => None,
            Some((first, None)) => Some(first),
            Some((first, Some(second))) => Some(
                if first <= second {
                    first
                } else {
                    second
                },
            ),
        }
    }
}

/// The instant of the first local time, from a number of minutes behind a
/// clock time up to a day behind it, that the clocks of the zone show.
pub open spec fn next_shown(
    zone: Seq<char>,
    day: int,
    hour: u32,
    minute: u32,
    from: int,
) -> Option<i64>
    decreases 1441 - from,
{
    if from > 1440 {
        None
    } else if shown_after(zone, day, hour, minute, from) is Some {
        shown_after(zone, day, hour, minute, from)
    } else {
        next_shown(zone, day, hour, minute, from + 1)
    }
}

/// What is said of a start that the clocks show twice or never.
pub open spec fn start_detail(kind: Seq<char>, zone: Seq<char>, day: int) -> Seq<char> {
    "maintenance window start "@ + kind + " in "@ + zone + " on "@ + day_text(day as i32)
}

/// A clock time with its seconds.
pub open spec fn clock_text(hour: u32, minute: u32) -> Seq<char> {
    zero_padded(hour as nat, 2) + ":"@ + zero_padded(minute as nat, 2) + ":00"@
}

/// What a window does on a day, or why that cannot be told.
pub open spec fn occurs(w: WindowModel, day: int) -> Result<OccurrenceModel, Seq<char>> {
    if !w.weekdays.contains(weekday(day) as u32) {
        Ok(OccurrenceModel::Absent)
    } else if !zone_known(w.timezone) {
        Err(unknown_zone_text(w.timezone))
    } else {
        match clock_time(w.start) {
            None => Err(start_text(w.start)),
            Some((hour, minute)) => match zone_instants(w.timezone, day as i32, hour, minute) {
                Some((start, None)) => match instant_after(
                    start as int,
                    w.duration_minutes as int,
                ) {
                    Some(end) => Ok(OccurrenceModel::Valid { start, end: end as i64 }),
                    None => Err("maintenance window end overflows supported time range"@),
                },
                Some((first, Some(second))) => {
                    let early = if first <= second {
                        first
                    } else {
                        second
                    };
                    let late = if first <= second {
                        second
                    } else {
                        first
                    };
                    Ok(
                        OccurrenceModel::Invalid {
                            starts: Some((early, late)),
                            sort_at: early,
                            detail: start_detail("is ambiguous"@, w.timezone, day),
                        },
                    )
                },
                None => match next_shown(w.timezone, day, hour, minute, 1) {
                    None => Err(
                        "could not resolve timezone "@ + w.timezone + " after "@ + day_text(
                            day as i32,
                        ) + " "@ + clock_text(hour, minute),
                    ),
                    Some(at) => Ok(
                        OccurrenceModel::Invalid {
                            starts: None,
                            sort_at: at,
                            detail: start_detail("does not exist"@, w.timezone, day),
                        },
                    ),
                },
            },
        }
    }
}

/// A time of a number of minutes from a start covers an instant.
pub open spec fn covers(start: i64, minutes: u32, now: i64) -> bool {
    start <= now && instant_after(start as int, minutes as int) is Some && now < instant_after(
        start as int,
        minutes as int,
    )->0
}

/// An occurrence with a start in doubt could cover an instant.
pub open spec fn doubt_covers(
    starts: Option<(i64, i64)>,
    sort_at: i64,
    minutes: u32,
    now: i64,
) -> bool {
    match starts {
        Some((early, late)) => covers(early, minutes, now) || covers(late, minutes, now),
        None => covers(sort_at, minutes, now),
    }
}

/// When an occurrence with a start in doubt could start after an instant.
pub open spec fn doubt_after(starts: Option<(i64, i64)>, sort_at: i64, now: i64) -> Option<i64> {
    match starts {
        Some((early, late)) => if early > now {
            Some(early)
        } else if late > now {
            Some(late)
        } else {
            None
        },
        None => if sort_at > now {
            Some(sort_at)
        } else {
            None
        },
    }
}

/// A closing time and the window that closes then.
pub struct OpenModel {
    pub closes_at: i64,
    pub window: Seq<char>,
}

/// A start and the doubt about it.
pub struct NextModel {
    pub start: i64,
    pub doubt: Option<Seq<char>>,
}

/// What is known of the occurrences that could cover an instant.
pub struct PastModel {
    /// Why the evaluation ended.
    pub stopped: Option<Seq<char>>,
    /// The last doubt about an occurrence that could cover the instant.
    pub doubt: Option<Seq<char>>,
    /// The last closing time of the occurrences that cover the instant, and
    /// the window that closes then.
    pub open: Option<OpenModel>,
}

/// What is known after a further day of a window.
pub open spec fn look_back(past: PastModel, w: WindowModel, day: int, now: i64) -> PastModel {
    if past.stopped is Some {
        past
    } else if !is_day(day) {
        PastModel {
            stopped: Some("maintenance window date overflows supported time range"@),
            ..past
        }
    } else {
        match occurs(w, day) {
            Err(detail) => PastModel { stopped: Some(detail), ..past },
            Ok(OccurrenceModel::Valid { start, end }) => if start <= now < end && (past.open is None
                || past.open->0.closes_at <= end) {
                PastModel { open: Some(OpenModel { closes_at: end, window: w.identity }), ..past }
            } else {
                past
            },
            Ok(OccurrenceModel::Invalid { starts, sort_at, detail }) => if doubt_covers(
                starts,
                sort_at,
                w.duration_minutes,
                now,
            ) {
                PastModel { doubt: Some(detail), ..past }
            } else {
                past
            },
            Ok(OccurrenceModel::Absent) => past,
        }
    }
}

/// What is known after the first of the eight days up to the local day.
pub open spec fn look_back_days(
    past: PastModel,
    w: WindowModel,
    today: int,
    now: i64,
    days: nat,
) -> PastModel
    decreases days,
{
    if days == 0 {
        past
    } else {
        look_back(
            look_back_days(past, w, today, now, (days - 1) as nat),
            w,
            today - 8 + days,
            now,
        )
    }
}

/// What is known of all windows.
pub open spec fn look_back_all(windows: Seq<WindowModel>, now: i64) -> PastModel
    decreases windows.len(),
{
    if windows.len() == 0 {
        PastModel { stopped: None, doubt: None, open: None }
    } else {
        look_back_days(
            look_back_all(windows.drop_last(), now),
            windows.last(),
            zone_day(windows.last().timezone, now) as int,
            now,
            8,
        )
    }
}

/// What is known of the occurrences that could start after an instant.
pub struct AheadModel {
    /// Why the evaluation ended.
    pub stopped: Option<Seq<char>>,
    /// The first start after the instant, and the doubt about it.
    pub next: Option<NextModel>,
}

/// What is known with a further start.
pub open spec fn sooner(ahead: AheadModel, start: i64, doubt: Option<Seq<char>>) -> AheadModel {
    if ahead.next is None || start < ahead.next->0.start {
        AheadModel { next: Some(NextModel { start, doubt }), ..ahead }
    } else {
        ahead
    }
}

/// What is known after a further day of a window.
pub open spec fn look_ahead(ahead: AheadModel, w: WindowModel, day: int, now: i64) -> AheadModel {
    if ahead.stopped is Some {
        ahead
    } else if !is_day(day) {
        AheadModel {
            stopped: Some("maintenance window date overflows supported time range"@),
            ..ahead
        }
    } else {
        match occurs(w, day) {
            Err(detail) => AheadModel { stopped: Some(detail), ..ahead },
            Ok(OccurrenceModel::Valid { start, end }) => if start > now {
                sooner(ahead, start, None)
            } else {
                ahead
            },
            Ok(OccurrenceModel::Invalid { starts, sort_at, detail }) => match doubt_after(
                starts,
                sort_at,
                now,
            ) {
                Some(start) => sooner(ahead, start, Some(detail)),
                None => ahead,
            },
            Ok(OccurrenceModel::Absent) => ahead,
        }
    }
}

/// What is known after the first of the eight days from the local day.
pub open spec fn look_ahead_days(
    ahead: AheadModel,
    w: WindowModel,
    today: int,
    now: i64,
    days: nat,
) -> AheadModel
    decreases days,
{
    if days == 0 {
        ahead
    } else {
        look_ahead(
            look_ahead_days(ahead, w, today, now, (days - 1) as nat),
            w,
            today + days - 1,
            now,
        )
    }
}

/// What is known of all windows.
pub open spec fn look_ahead_all(windows: Seq<WindowModel>, now: i64) -> AheadModel
    decreases windows.len(),
{
    if windows.len() == 0 {
        AheadModel { stopped: None, next: None }
    } else {
        look_ahead_days(
            look_ahead_all(windows.drop_last(), now),
            windows.last(),
            zone_day(windows.last().timezone, now) as int,
            now,
            8,
        )
    }
}

/// Why a list of windows is refused: the refusal of the first that is.
pub open spec fn rules_refusal(windows: Seq<WindowModel>) -> Option<Seq<char>>
    decreases windows.len(),
{
    if windows.len() == 0 {
        None
    } else {
        crate::error::first_refusal(
            rules_refusal(windows.drop_last()),
            window_refusal(windows.last()),
        )
    }
}

/// Whether work may start at an instant.
pub open spec fn eligibility(windows: Seq<WindowModel>, now: i64) -> EligibilityModel {
    let rules = rules_refusal(windows);
    let past = look_back_all(windows, now);
    let ahead = look_ahead_all(windows, now);
    if windows.len() == 0 {
        EligibilityModel::Open { window: "unrestricted"@, closes_at: i64::MAX }
    } else if rules is Some {
        EligibilityModel::Invalid { detail: rules->0 }
    } else if past.stopped is Some {
        EligibilityModel::Invalid { detail: past.stopped->0 }
    } else if past.doubt is Some {
        EligibilityModel::Invalid { detail: past.doubt->0 }
    } else if past.open is Some {
        EligibilityModel::Open {
            window: past.open->0.window,
            closes_at: past.open->0.closes_at,
        }
    } else if ahead.stopped is Some {
        EligibilityModel::Invalid { detail: ahead.stopped->0 }
    } else {
        match ahead.next {
            Some(next) => match next.doubt {
                Some(detail) => EligibilityModel::Invalid { detail },
                None => EligibilityModel::Closed { next_opens_at: Some(next.start) },
            },
            None => EligibilityModel::Closed { next_opens_at: None },
        }
    }
}

proof fn lemma_rules_stop(windows: Seq<WindowModel>, at: int)
    requires
        0 <= at < windows.len(),
        rules_refusal(windows.take(at + 1)) is Some,
    ensures
        rules_refusal(windows) == rules_refusal(windows.take(at + 1)),
    decreases windows.len() - at,
{
    if at + 1 == windows.len() {
        assert(windows.take(at + 1) =~= windows);
    } else {
        assert(windows.take(at + 2).drop_last() =~= windows.take(at + 1));
        lemma_rules_stop(windows, at + 1);
    }
}

proof fn lemma_rules_each(windows: Seq<WindowModel>, i: int)
    requires
        rules_refusal(windows) is None,
        0 <= i < windows.len(),
    ensures
        window_refusal(windows[i]) is None,
    decreases windows.len(),
{
    if i + 1 < windows.len() {
        lemma_rules_each(windows.drop_last(), i);
    }
}

fn detail_of(kind: &str, zone: &str, day: i32) -> (text: String)
    requires
        is_day(day as int),
    ensures
        text@ == start_detail(kind@, zone@, day as int),
{
    let mut text = "maintenance window start ".to_owned();
    text.append(kind);
    text.append(" in ");
    text.append(zone);
    text.append(" on ");
    text.append(show_day(day).as_str());
    text
}

fn unresolved(zone: &str, day: i32, hour: u32, minute: u32) -> (text: String)
    requires
        is_day(day as int),
    ensures
        text@ == "could not resolve timezone "@ + zone@ + " after "@ + day_text(day) + " "@
            + clock_text(hour, minute),
{
    let mut clock = zero_pad(hour as u64, 2);
    clock.append(":");
    clock.append(zero_pad(minute as u64, 2).as_str());
    clock.append(":00");
    let mut text = "could not resolve timezone ".to_owned();
    text.append(zone);
    text.append(" after ");
    text.append(show_day(day).as_str());
    text.append(" ");
    text.append(clock.as_str());
    text
}

fn find_shown(zone: &str, day: i32, hour: u32, minute: u32) -> (found: Option<i64>)
    requires
        zone_known(zone@),
        is_day(day as int),
        is_clock(hour as int, minute as int),
    ensures
        found == next_shown(zone@, day as int, hour, minute, 1),
        found matches Some(at) ==> is_instant(at as int),
{
    let mut minutes: u32 = 1;
    while minutes <= 1440
        invariant
            1 <= minutes <= 1441,
            zone_known(zone@),
            is_day(day as int),
            is_clock(hour as int, minute as int),
            next_shown(zone@, day as int, hour, minute, 1) == next_shown(
                zone@,
                day as int,
                hour,
                minute,
                minutes as int,
            ),
        decreases 1441 - minutes,
    {
        let total: u32 = hour * 60 + minute + minutes;
        let date: i32 = day + (total / 1440) as i32;
        if date <= MAX_DAY {
            match local_instants(zone, date, total % 1440 / 60, total % 60) {
                None => {},
                Some((first, None)) => return Some(first),
                Some((first, Some(second))) => {
                    if first <= second {
                        return Some(first);
                    } else {
                        return Some(second);
                    }
                },
            }
        }
        minutes = minutes + 1;
    }
    None
}

fn listed(days: &Vec<u32>, wanted: u32) -> (answer: bool)
    ensures
        answer == days@.contains(wanted),
{
    let mut i: usize = 0;
    while i < days.len()
        invariant
            i <= days.len(),
            forall|k: int| 0 <= k < i ==> days@[k] != wanted,
        decreases days.len() - i,
    {
        if days[i] == wanted {
            assert(days@[i as int] == wanted);
            return true;
        }
        i = i + 1;
    }
    false
}

/// What can be said of an occurrence's instants.
spec fn placed(occurrence: OccurrenceModel) -> bool {
    match occurrence {
        OccurrenceModel::Absent => true,
        OccurrenceModel::Valid { start, end } => is_instant(start as int) && is_instant(end as int),
        OccurrenceModel::Invalid { starts, sort_at, detail } => {
            &&& is_instant(sort_at as int)
            &&& starts matches Some((early, late)) ==> is_instant(early as int) && is_instant(
                late as int,
            )
        },
    }
}

fn occurrence(window: &Window, day: i32) -> (result: Result<Occurrence, String>)
    requires
        is_day(day as int),
    ensures
        match (result, occurs(window@, day as int)) {
            (Ok(found), Ok(model)) => found@ == model && placed(model),
            (Err(detail), Err(text)) => detail@ == text,
            _ => false,
        },
{
    if !listed(&window.weekdays, weekday_of(day)) {
        return Ok(Occurrence::Absent);
    }
    if !is_zone(window.timezone.as_str()) {
        return Err(unknown_zone(window.timezone.as_str()));
    }
    let (hour, minute) = match read_clock(window.start.as_str()) {
        None => return Err(bad_start(window.start.as_str())),
        Some(time) => time,
    };
    match local_instants(window.timezone.as_str(), day, hour, minute) {
        Some((start, None)) => match add_minutes(start, window.duration_minutes) {
            Some(end) => Ok(Occurrence::Valid { start, end }),
            None => Err("maintenance window end overflows supported time range".to_owned()),
        },
        Some((first, Some(second))) => {
            let (early, late): (i64, i64) = if first <= second {
                (first, second)
            } else {
                (second, first)
            };
            Ok(
                Occurrence::Invalid {
                    starts: Some((early, late)),
                    sort_at: early,
                    detail: detail_of("is ambiguous", window.timezone.as_str(), day),
                },
            )
        },
        None => match find_shown(window.timezone.as_str(), day, hour, minute) {
            None => Err(unresolved(window.timezone.as_str(), day, hour, minute)),
            Some(at) => Ok(
                Occurrence::Invalid {
                    starts: None,
                    sort_at: at,
                    detail: detail_of("does not exist", window.timezone.as_str(), day),
                },
            ),
        },
    }
}

fn is_covering(start: i64, minutes: u32, now: i64) -> (answer: bool)
    requires
        is_instant(start as int),
    ensures
        answer == covers(start, minutes, now),
{
    if start > now {
        return false;
    }
    match add_minutes(start, minutes) {
        Some(end) => now < end,
        None => false,
    }
}

struct Past {
    stopped: Option<String>,
    doubt: Option<String>,
    open: Option<(i64, String)>,
}

impl View for Past {
    type V = PastModel;

    closed spec fn view(&self) -> PastModel {
        PastModel {
            stopped: crate::text::opt_text(self.stopped),
            doubt: crate::text::opt_text(self.doubt),
            open: match self.open {
                Some((end, identity)) => Some(
                    OpenModel { closes_at: end, window: identity@ },
                ),
                None => None,
            },
        }
    }
}

fn see_back(past: Past, window: &Window, day: i32, now: i64) -> (result: Past)
    ensures
        result@ == look_back(past@, window@, day as int, now),
{
    if past.stopped.is_some() {
        return past;
    }
    if day < MIN_DAY || day > MAX_DAY {
        return Past {
            stopped: Some("maintenance window date overflows supported time range".to_owned()),
            doubt: past.doubt,
            open: past.open,
        };
    }
    match occurrence(window, day) {
        Err(detail) => Past { stopped: Some(detail), doubt: past.doubt, open: past.open },
        Ok(Occurrence::Absent) => past,
        Ok(Occurrence::Valid { start, end }) => {
            let later = match &past.open {
                None => true,
                Some((other, _)) => *other <= end,
            };
            if start <= now && now < end && later {
                Past {
                    stopped: past.stopped,
                    doubt: past.doubt,
                    open: Some((end, window.identity.clone())),
                }
            } else {
                past
            }
        },
        Ok(Occurrence::Invalid { starts, sort_at, detail }) => {
            let covered = match starts {
                Some((early, late)) => is_covering(early, window.duration_minutes, now)
                    || is_covering(late, window.duration_minutes, now),
                None => is_covering(sort_at, window.duration_minutes, now),
            };
            if covered {
                Past { stopped: past.stopped, doubt: Some(detail), open: past.open }
            } else {
                past
            }
        },
    }
}

fn scan_back(windows: &[Window], now: i64) -> (past: Past)
    requires
        rules_refusal(window_models(windows@)) is None,
        is_local_instant(now as int),
    ensures
        past@ == look_back_all(window_models(windows@), now),
{
    let ghost models = window_models(windows@);
    let mut past = Past { stopped: None, doubt: None, open: None };
    let mut i: usize = 0;
    assert(models.take(0) =~= Seq::<WindowModel>::empty());
    while i < windows.len()
        invariant
            i <= windows.len(),
            models == window_models(windows@),
            rules_refusal(models) is None,
            is_local_instant(now as int),
            past@ == look_back_all(models.take(i as int), now),
        decreases windows.len() - i,
    {
        let window = &windows[i];
        proof {
            lemma_rules_each(models, i as int);
        }
        assert(models[i as int] == window@);
        assert(models.take(i + 1).drop_last() =~= models.take(i as int));
        assert(models.take(i + 1).last() == window@);
        let ghost before = past@;
        let today = local_day(window.timezone.as_str(), now);
        let mut days: i32 = 0;
        while days < 8
            invariant
                0 <= days <= 8,
                is_day(today as int),
                past@ == look_back_days(before, window@, today as int, now, days as nat),
            decreases 8 - days,
        {
            past = see_back(past, window, today - 7 + days, now);
            days = days + 1;
        }
        i = i + 1;
    }
    assert(models.take(i as int) =~= models);
    past
}

struct Ahead {
    stopped: Option<String>,
    next: Option<(i64, Option<String>)>,
}

impl View for Ahead {
    type V = AheadModel;

    closed spec fn view(&self) -> AheadModel {
        AheadModel {
            stopped: crate::text::opt_text(self.stopped),
            next: match self.next {
                Some((start, doubt)) => Some(
                    NextModel { start, doubt: crate::text::opt_text(doubt) },
                ),
                None => None,
            },
        }
    }
}

fn take_sooner(ahead: Ahead, start: i64, doubt: Option<String>) -> (result: Ahead)
    ensures
        result@ == sooner(ahead@, start, crate::text::opt_text(doubt)),
{
    let first = match &ahead.next {
        None => true,
        Some((other, _)) => start < *other,
    };
    if first {
        Ahead { stopped: ahead.stopped, next: Some((start, doubt)) }
    } else {
        ahead
    }
}

fn see_ahead(ahead: Ahead, window: &Window, day: i32, now: i64) -> (result: Ahead)
    ensures
        result@ == look_ahead(ahead@, window@, day as int, now),
{
    if ahead.stopped.is_some() {
        return ahead;
    }
    if day < MIN_DAY || day > MAX_DAY {
        return Ahead {
            stopped: Some("maintenance window date overflows supported time range".to_owned()),
            next: ahead.next,
        };
    }
    match occurrence(window, day) {
        Err(detail) => Ahead { stopped: Some(detail), next: ahead.next },
        Ok(Occurrence::Absent) => ahead,
        Ok(Occurrence::Valid { start, end: _ }) => {
            if start > now {
                take_sooner(ahead, start, None)
            } else {
                ahead
            }
        },
        Ok(Occurrence::Invalid { starts, sort_at, detail }) => {
            let candidate: Option<i64> = match starts {
                Some((early, late)) => if early > now {
                    Some(early)
                } else if late > now {
                    Some(late)
                } else {
                    None
                },
                None => if sort_at > now {
                    Some(sort_at)
                } else {
                    None
                },
            };
            match candidate {
                Some(start) => take_sooner(ahead, start, Some(detail)),
                None => ahead,
            }
        },
    }
}

fn scan_ahead(windows: &[Window], now: i64) -> (ahead: Ahead)
    requires
        rules_refusal(window_models(windows@)) is None,
        is_local_instant(now as int),
    ensures
        ahead@ == look_ahead_all(window_models(windows@), now),
{
    let ghost models = window_models(windows@);
    let mut ahead = Ahead { stopped: None, next: None };
    let mut i: usize = 0;
    assert(models.take(0) =~= Seq::<WindowModel>::empty());
    while i < windows.len()
        invariant
            i <= windows.len(),
            models == window_models(windows@),
            rules_refusal(models) is None,
            is_local_instant(now as int),
            ahead@ == look_ahead_all(models.take(i as int), now),
        decreases windows.len() - i,
    {
        let window = &windows[i];
        proof {
            lemma_rules_each(models, i as int);
        }
        assert(models[i as int] == window@);
        assert(models.take(i + 1).drop_last() =~= models.take(i as int));
        assert(models.take(i + 1).last() == window@);
        let ghost before = ahead@;
        let today = local_day(window.timezone.as_str(), now);
        let mut days: i32 = 0;
        while days < 8
            invariant
                0 <= days <= 8,
                is_day(today as int),
                ahead@ == look_ahead_days(before, window@, today as int, now, days as nat),
            decreases 8 - days,
        {
            ahead = see_ahead(ahead, window, today + days, now);
            days = days + 1;
        }
        i = i + 1;
    }
    assert(models.take(i as int) =~= models);
    ahead
}

fn check_rules(windows: &[Window]) -> (result: Result<(), crate::error::Error>)
    ensures
        crate::error::refusal(result) == rules_refusal(window_models(windows@)),
{
    let ghost models = window_models(windows@);
    let mut i: usize = 0;
    assert(models.take(0) =~= Seq::<WindowModel>::empty());
    while i < windows.len()
        invariant
            i <= windows.len(),
            models == window_models(windows@),
            rules_refusal(models.take(i as int)) is None,
        decreases windows.len() - i,
    {
        assert(models[i as int] == windows@[i as int]@);
        assert(models.take(i + 1).drop_last() =~= models.take(i as int));
        assert(models.take(i + 1).last() == models[i as int]);
        match windows[i].validate() {
            Err(error) => {
                proof {
                    lemma_rules_stop(models, i as int);
                }
                return Err(error);
            },
            Ok(_) => {},
        }
        i = i + 1;
    }
    assert(models.take(i as int) =~= models);
    Ok(())
}

/// Evaluate all configured windows at an instant in milliseconds.
///
/// An empty set means unrestricted execution. Any invalid rule fails closed.
pub fn evaluate(windows: &[Window], now: i64) -> (result: Eligibility)
    requires
        windows@.len() > 0 && rules_refusal(window_models(windows@)) is None ==> is_local_instant(
            now as int,
        ),
    ensures
        result@ == eligibility(window_models(windows@), now),
{
    if windows.len() == 0 {
        return Eligibility::Open { window: "unrestricted".to_owned(), closes_at: i64::MAX };
    }
    match check_rules(windows) {
        Err(error) => return Eligibility::Invalid { detail: error.to_string() },
        Ok(_) => {},
    }
    let past = scan_back(windows, now);
    if let Some(detail) = past.stopped {
        return Eligibility::Invalid { detail };
    }
    if let Some(detail) = past.doubt {
        return Eligibility::Invalid { detail };
    }
    if let Some((end, identity)) = past.open {
        return Eligibility::Open { window: identity, closes_at: end };
    }
    let ahead = scan_ahead(windows, now);
    if let Some(detail) = ahead.stopped {
        return Eligibility::Invalid { detail };
    }
    match ahead.next {
        Some((_, Some(detail))) => Eligibility::Invalid { detail },
        Some((start, None)) => Eligibility::Closed { next_opens_at: Some(start) },
        None => Eligibility::Closed { next_opens_at: None },
    }
}

/// A window has a valid occurrence, on one of the eight days up to the local
/// day, that covers an instant and ends at another.
pub open spec fn has_occurrence(w: WindowModel, today: int, now: i64, end: i64) -> bool {
    exists|day: int|
        today - 7 <= day <= today && is_day(day) && (#[trigger] occurs(w, day) matches Ok(
            OccurrenceModel::Valid { start, end: closes },
        ) && start <= now < closes && closes == end)
}

/// A window has an occurrence with a start in doubt, on one of the eight days
/// up to the local day, that could cover an instant.
pub open spec fn has_doubt(w: WindowModel, today: int, now: i64) -> bool {
    exists|day: int|
        today - 7 <= day <= today && is_day(day) && (#[trigger] occurs(w, day) matches Ok(
            OccurrenceModel::Invalid { starts, sort_at, detail },
        ) && doubt_covers(starts, sort_at, w.duration_minutes, now))
}

proof fn lemma_days_open(past: PastModel, w: WindowModel, today: int, now: i64, days: nat)
    requires
        days <= 8,
    ensures
        ({
            let after = look_back_days(past, w, today, now, days);
            &&& after.open is Some ==> after.open == past.open || (after.open->0.window == w.identity
                && has_occurrence(w, today, now, after.open->0.closes_at))
            &&& past.doubt is Some ==> after.doubt is Some
            &&& past.stopped is Some ==> after.stopped is Some
        }),
    decreases days,
{
    if days > 0 {
        lemma_days_open(past, w, today, now, (days - 1) as nat);
        let day = today - 8 + days;
        assert(occurs(w, day) == occurs(w, day));
    }
}

proof fn lemma_days_doubt(
    past: PastModel,
    w: WindowModel,
    today: int,
    now: i64,
    days: nat,
    day: int,
)
    requires
        days <= 8,
        today - 7 <= day < today - 7 + days,
        is_day(day),
        occurs(w, day) is Ok,
        occurs(w, day)->Ok_0 is Invalid,
        doubt_covers(
            occurs(w, day)->Ok_0->Invalid_starts,
            occurs(w, day)->Ok_0->Invalid_sort_at,
            w.duration_minutes,
            now,
        ),
    ensures
        look_back_days(past, w, today, now, days).stopped is Some || look_back_days(
            past,
            w,
            today,
            now,
            days,
        ).doubt is Some,
    decreases days,
{
    if day < today - 8 + days {
        lemma_days_doubt(past, w, today, now, (days - 1) as nat, day);
    }
}

/// Work starts only inside a window: unless nothing is configured, the
/// instant lies in an occurrence of the window that is named, on one of the
/// eight days up to the local day, and that occurrence closes when it is said
/// to.
pub proof fn open_is_backed_by_an_occurrence(windows: Seq<WindowModel>, now: i64)
    requires
        windows.len() > 0,
        eligibility(windows, now) is Open,
    ensures
        exists|i: int|
            0 <= i < windows.len() && (#[trigger] windows[i]).identity == eligibility(
                windows,
                now,
            )->window && has_occurrence(
                windows[i],
                zone_day(windows[i].timezone, now) as int,
                now,
                eligibility(windows, now)->closes_at,
            ),
{
    lemma_open_backed(windows, now);
}

proof fn lemma_open_backed(windows: Seq<WindowModel>, now: i64)
    requires
        look_back_all(windows, now).open is Some,
    ensures
        exists|i: int|
            0 <= i < windows.len() && (#[trigger] windows[i]).identity == look_back_all(
                windows,
                now,
            ).open->0.window && has_occurrence(
                windows[i],
                zone_day(windows[i].timezone, now) as int,
                now,
                look_back_all(windows, now).open->0.closes_at,
            ),
    decreases windows.len(),
{
    if windows.len() > 0 {
        let before = look_back_all(windows.drop_last(), now);
        let last = windows.last();
        let after = look_back_all(windows, now);
        lemma_days_open(before, last, zone_day(last.timezone, now) as int, now, 8);
        if after.open == before.open {
            lemma_open_backed(windows.drop_last(), now);
            let i = choose|i: int|
                0 <= i < windows.drop_last().len() && (#[trigger] windows.drop_last()[i]).identity
                    == before.open->0.window && has_occurrence(
                    windows.drop_last()[i],
                    zone_day(windows.drop_last()[i].timezone, now) as int,
                    now,
                    before.open->0.closes_at,
                );
            assert(windows[i] == windows.drop_last()[i]);
        } else {
            assert(windows[windows.len() - 1] == last);
        }
    }
}

/// A start in doubt fails closed: where an occurrence whose start the clocks
/// show twice or never could cover the instant, no other window opens it.
pub proof fn active_doubt_fails_closed(windows: Seq<WindowModel>, now: i64, i: int)
    requires
        0 <= i < windows.len(),
        has_doubt(windows[i], zone_day(windows[i].timezone, now) as int, now),
    ensures
        eligibility(windows, now) is Invalid,
{
    lemma_doubt_kept(windows, now, i);
}

proof fn lemma_doubt_kept(windows: Seq<WindowModel>, now: i64, i: int)
    requires
        0 <= i < windows.len(),
        has_doubt(windows[i], zone_day(windows[i].timezone, now) as int, now),
    ensures
        look_back_all(windows, now).stopped is Some || look_back_all(windows, now).doubt is Some,
    decreases windows.len(),
{
    let before = look_back_all(windows.drop_last(), now);
    let last = windows.last();
    let today = zone_day(last.timezone, now) as int;
    lemma_days_open(before, last, today, now, 8);
    if i + 1 < windows.len() {
        assert(windows[i] == windows.drop_last()[i]);
        lemma_doubt_kept(windows.drop_last(), now, i);
    } else {
        let day = choose|day: int|
            today - 7 <= day <= today && is_day(day) && (#[trigger] occurs(last, day) matches Ok(
                OccurrenceModel::Invalid { starts, sort_at, detail },
            ) && doubt_covers(starts, sort_at, last.duration_minutes, now));
        lemma_days_doubt(before, last, today, now, 8, day);
    }
}

/// An invalid rule fails closed.
pub proof fn invalid_rule_fails_closed(windows: Seq<WindowModel>, now: i64, i: int)
    requires
        0 <= i < windows.len(),
        window_refusal(windows[i]) is Some,
    ensures
        eligibility(windows, now) is Invalid,
{
    if rules_refusal(windows) is None {
        lemma_rules_each(windows, i);
    }
}

proof fn lemma_days_ahead(ahead: AheadModel, w: WindowModel, today: int, now: i64, days: nat)
    requires
        ahead.next is Some ==> ahead.next->0.start > now,
    ensures
        ({
            let after = look_ahead_days(ahead, w, today, now, days);
            after.next is Some ==> after.next->0.start > now
        }),
    decreases days,
{
    if days > 0 {
        lemma_days_ahead(ahead, w, today, now, (days - 1) as nat);
    }
}

proof fn lemma_ahead_later(windows: Seq<WindowModel>, now: i64)
    ensures
        look_ahead_all(windows, now).next is Some ==> look_ahead_all(windows, now).next->0.start > now,
    decreases windows.len(),
{
    if windows.len() > 0 {
        lemma_ahead_later(windows.drop_last(), now);
        lemma_days_ahead(
            look_ahead_all(windows.drop_last(), now),
            windows.last(),
            zone_day(windows.last().timezone, now) as int,
            now,
            8,
        );
    }
}

/// The next opening that is announced lies in the future.
pub proof fn next_opening_is_later(windows: Seq<WindowModel>, now: i64)
    requires
        eligibility(windows, now) is Closed,
        eligibility(windows, now)->next_opens_at is Some,
    ensures
        eligibility(windows, now)->next_opens_at->0 > now,
{
    lemma_ahead_later(windows, now);
}

/// It can be told what a window does on each day of a range.
pub open spec fn told(w: WindowModel, from: int, to: int) -> bool {
    forall|day: int| from <= day <= to ==> is_day(day) && #[trigger] occurs(w, day) is Ok
}

proof fn lemma_days_settled(past: PastModel, w: WindowModel, today: int, now: i64, days: nat)
    requires
        days <= 8,
        told(w, today - 7, today),
        !has_doubt(w, today, now),
        past.stopped is None,
        past.doubt is None,
    ensures
        look_back_days(past, w, today, now, days).stopped is None,
        look_back_days(past, w, today, now, days).doubt is None,
    decreases days,
{
    if days > 0 {
        lemma_days_settled(past, w, today, now, (days - 1) as nat);
        assert(occurs(w, today - 8 + days) is Ok);
    }
}

/// The look back is stopped by nothing and in doubt about nothing where it can
/// be told what each window does on the eight days up to its local day, and
/// none of its starts in doubt could cover the instant.
pub proof fn clear_days_leave_no_doubt(windows: Seq<WindowModel>, now: i64)
    requires
        forall|i: int|
            0 <= i < windows.len() ==> {
                let today = zone_day((#[trigger] windows[i]).timezone, now) as int;
                told(windows[i], today - 7, today) && !has_doubt(windows[i], today, now)
            },
    ensures
        look_back_all(windows, now).stopped is None,
        look_back_all(windows, now).doubt is None,
    decreases windows.len(),
{
    if windows.len() > 0 {
        let front = windows.drop_last();
        let last = windows[windows.len() - 1];
        assert forall|i: int| 0 <= i < front.len() implies ({
            let today = zone_day((#[trigger] front[i]).timezone, now) as int;
            told(front[i], today - 7, today) && !has_doubt(front[i], today, now)
        }) by {
            assert(front[i] == windows[i]);
        }
        clear_days_leave_no_doubt(front, now);
        lemma_days_settled(
            look_back_all(front, now),
            last,
            zone_day(last.timezone, now) as int,
            now,
            8,
        );
    }
}

proof fn lemma_days_grow(past: PastModel, w: WindowModel, today: int, now: i64, days: nat)
    ensures
        past.open is Some ==> {
            let after = look_back_days(past, w, today, now, days);
            after.open is Some && past.open->0.closes_at <= after.open->0.closes_at
        },
    decreases days,
{
    if days > 0 {
        lemma_days_grow(past, w, today, now, (days - 1) as nat);
    }
}

proof fn lemma_days_cover(
    past: PastModel,
    w: WindowModel,
    today: int,
    now: i64,
    days: nat,
    day: int,
)
    requires
        days <= 8,
        today - 7 <= day < today - 7 + days,
        is_day(day),
        occurs(w, day) matches Ok(OccurrenceModel::Valid { start, end }) && start <= now < end,
        look_back_days(past, w, today, now, days).stopped is None,
    ensures
        ({
            let after = look_back_days(past, w, today, now, days);
            after.open is Some && occurs(w, day)->Ok_0->Valid_end <= after.open->0.closes_at
        }),
    decreases days,
{
    if day < today - 8 + days {
        lemma_days_cover(past, w, today, now, (days - 1) as nat, day);
    }
}

proof fn lemma_cover(windows: Seq<WindowModel>, now: i64, i: int, end: i64)
    requires
        0 <= i < windows.len(),
        has_occurrence(windows[i], zone_day(windows[i].timezone, now) as int, now, end),
        look_back_all(windows, now).stopped is None,
    ensures
        look_back_all(windows, now).open is Some,
        end <= look_back_all(windows, now).open->0.closes_at,
    decreases windows.len(),
{
    let before = look_back_all(windows.drop_last(), now);
    let last = windows.last();
    let today = zone_day(last.timezone, now) as int;
    lemma_days_open(before, last, today, now, 8);
    if i + 1 < windows.len() {
        assert(windows[i] == windows.drop_last()[i]);
        lemma_cover(windows.drop_last(), now, i, end);
        lemma_days_grow(before, last, today, now, 8);
    } else {
        let day = choose|day: int|
            today - 7 <= day <= today && is_day(day) && (#[trigger] occurs(last, day) matches Ok(
                OccurrenceModel::Valid { start, end: closes },
            ) && start <= now < closes && closes == end);
        lemma_days_cover(before, last, today, now, 8, day);
    }
}

/// An instant inside a window is open: where the rules are valid, the look back
/// was not stopped and no start in doubt could cover the instant, an occurrence
/// of any window that covers it opens it, and it closes no sooner than that
/// occurrence ends.
pub proof fn covering_occurrence_opens(windows: Seq<WindowModel>, now: i64, i: int, end: i64)
    requires
        0 <= i < windows.len(),
        has_occurrence(windows[i], zone_day(windows[i].timezone, now) as int, now, end),
        rules_refusal(windows) is None,
        look_back_all(windows, now).stopped is None,
        look_back_all(windows, now).doubt is None,
    ensures
        eligibility(windows, now) is Open,
        end <= eligibility(windows, now)->closes_at,
{
    lemma_cover(windows, now, i, end);
}

/// An instant inside a window is never closed: it is open, or in doubt.
pub proof fn covering_occurrence_is_not_closed(
    windows: Seq<WindowModel>,
    now: i64,
    i: int,
    end: i64,
)
    requires
        0 <= i < windows.len(),
        has_occurrence(windows[i], zone_day(windows[i].timezone, now) as int, now, end),
    ensures
        !(eligibility(windows, now) is Closed),
        eligibility(windows, now) is Open ==> end <= eligibility(windows, now)->closes_at,
{
    if look_back_all(windows, now).stopped is None {
        lemma_cover(windows, now, i, end);
    }
}

/// When a window starts after an instant on a day: at a valid start, or at one
/// in doubt.
pub open spec fn start_after(w: WindowModel, day: int, now: i64) -> Option<i64> {
    match occurs(w, day) {
        Ok(OccurrenceModel::Valid { start, end }) => if start > now {
            Some(start)
        } else {
            None
        },
        Ok(OccurrenceModel::Invalid { starts, sort_at, detail }) => doubt_after(
            starts,
            sort_at,
            now,
        ),
        _ => None,
    }
}

/// A window has a valid start at an instant, on one of the eight days from the
/// local day.
pub open spec fn has_start(w: WindowModel, today: int, at: i64) -> bool {
    exists|day: int|
        today <= day <= today + 7 && is_day(day) && (#[trigger] occurs(w, day) matches Ok(
            OccurrenceModel::Valid { start, end },
        ) && start == at)
}

proof fn lemma_days_start(
    ahead: AheadModel,
    w: WindowModel,
    today: int,
    now: i64,
    days: nat,
    day: int,
)
    requires
        days <= 8,
        look_ahead_days(ahead, w, today, now, days).stopped is None,
    ensures
        ({
            let after = look_ahead_days(ahead, w, today, now, days);
            &&& ahead.stopped is None
            &&& ahead.next is Some ==> after.next is Some && after.next->0.start
                <= ahead.next->0.start
            &&& today <= day < today + days ==> is_day(day) && occurs(w, day) is Ok && (start_after(
                w,
                day,
                now,
            ) is Some ==> after.next is Some && after.next->0.start <= start_after(w, day, now)->0)
            &&& after.next is Some && after.next->0.doubt is None ==> after.next == ahead.next
                || has_start(w, today, after.next->0.start)
        }),
    decreases days,
{
    if days > 0 {
        lemma_days_start(ahead, w, today, now, (days - 1) as nat, day);
        let last = today + days - 1;
        assert(occurs(w, last) == occurs(w, last));
    }
}

proof fn lemma_starts(windows: Seq<WindowModel>, now: i64, i: int, day: int)
    requires
        0 <= i < windows.len(),
        look_ahead_all(windows, now).stopped is None,
        zone_day(windows[i].timezone, now) <= day <= zone_day(windows[i].timezone, now) + 7,
    ensures
        is_day(day),
        occurs(windows[i], day) is Ok,
        start_after(windows[i], day, now) is Some ==> look_ahead_all(windows, now).next is Some
            && look_ahead_all(windows, now).next->0.start <= start_after(windows[i], day, now)->0,
    decreases windows.len(),
{
    let before = look_ahead_all(windows.drop_last(), now);
    let last = windows.last();
    lemma_days_start(before, last, zone_day(last.timezone, now) as int, now, 8, day);
    if i + 1 < windows.len() {
        assert(windows[i] == windows.drop_last()[i]);
        lemma_starts(windows.drop_last(), now, i, day);
    }
}

/// The next opening that is announced is the first: no window starts after the
/// instant and before it on the eight days from its local day, neither at a
/// valid start nor at one in doubt. Where none is announced, no window starts
/// on them.
pub proof fn announced_opening_is_the_first(
    windows: Seq<WindowModel>,
    now: i64,
    i: int,
    day: int,
)
    requires
        eligibility(windows, now) is Closed,
        0 <= i < windows.len(),
        zone_day(windows[i].timezone, now) <= day <= zone_day(windows[i].timezone, now) + 7,
        start_after(windows[i], day, now) is Some,
    ensures
        ({
            let next = eligibility(windows, now)->next_opens_at;
            next is Some && next->0 <= start_after(windows[i], day, now)->0
        }),
{
    lemma_starts(windows, now, i, day);
}

proof fn lemma_start_backed(windows: Seq<WindowModel>, now: i64)
    requires
        look_ahead_all(windows, now).stopped is None,
        look_ahead_all(windows, now).next is Some,
        look_ahead_all(windows, now).next->0.doubt is None,
    ensures
        exists|i: int|
            0 <= i < windows.len() && has_start(
                #[trigger] windows[i],
                zone_day(windows[i].timezone, now) as int,
                look_ahead_all(windows, now).next->0.start,
            ),
    decreases windows.len(),
{
    if windows.len() > 0 {
        let front = windows.drop_last();
        let before = look_ahead_all(front, now);
        let last = windows[windows.len() - 1];
        let today = zone_day(last.timezone, now) as int;
        let after = look_ahead_all(windows, now);
        lemma_days_start(before, last, today, now, 8, today);
        if !has_start(last, today, after.next->0.start) {
            lemma_start_backed(front, now);
            let i = choose|i: int|
                0 <= i < front.len() && has_start(
                    #[trigger] front[i],
                    zone_day(front[i].timezone, now) as int,
                    before.next->0.start,
                );
            assert(windows[i] == front[i]);
        }
    }
}

/// The next opening that is announced is the valid start of a window, on one of
/// the eight days from its local day.
pub proof fn announced_opening_is_a_start(windows: Seq<WindowModel>, now: i64)
    requires
        eligibility(windows, now) is Closed,
        eligibility(windows, now)->next_opens_at is Some,
    ensures
        exists|i: int|
            0 <= i < windows.len() && has_start(
                #[trigger] windows[i],
                zone_day(windows[i].timezone, now) as int,
                eligibility(windows, now)->next_opens_at->0,
            ),
{
    lemma_start_backed(windows, now);
}

/// On every day that falls on any weekday of its list a window has an
/// occurrence, from its start for its duration, where the clocks of its zone
/// show the start once.
pub proof fn every_listed_weekday_has_an_occurrence(
    w: WindowModel,
    day: int,
    i: int,
    hour: u32,
    minute: u32,
    start: i64,
)
    requires
        0 <= i < w.weekdays.len(),
        1 <= w.weekdays[i] <= 7,
        (w.weekdays[i] - day) % 7 == 0,
        zone_known(w.timezone),
        clock_time(w.start) == Some((hour, minute)),
        zone_instants(w.timezone, day as i32, hour, minute) == Some((start, None::<i64>)),
        is_instant(start as int),
        start + w.duration_minutes * 60_000 <= super::calendar::MAX_INSTANT,
    ensures
        occurs(w, day) == Ok::<OccurrenceModel, Seq<char>>(
            OccurrenceModel::Valid {
                start,
                end: (start + w.duration_minutes * 60_000) as i64,
            },
        ),
{
    assert(weekday(day) == w.weekdays[i]);
    assert(w.weekdays.contains(weekday(day) as u32));
}

/// On a day that falls on no weekday of its list a window has no occurrence.
pub proof fn unlisted_weekday_has_no_occurrence(w: WindowModel, day: int)
    requires
        forall|i: int| 0 <= i < w.weekdays.len() ==> (#[trigger] w.weekdays[i] - day) % 7 != 0,
    ensures
        occurs(w, day) == Ok::<OccurrenceModel, Seq<char>>(OccurrenceModel::Absent),
{
    if w.weekdays.contains(weekday(day) as u32) {
        let i = choose|i: int|
            0 <= i < w.weekdays.len() && w.weekdays[i] == weekday(day) as u32;
        assert((w.weekdays[i] - day) % 7 == 0);
    }
}

/// A start that the clocks show twice, or never, is in doubt: the occurrence
/// has both instants, or none, and is never taken as valid.
pub proof fn doubtful_start_is_never_valid(
    w: WindowModel,
    day: int,
    i: int,
    hour: u32,
    minute: u32,
)
    requires
        0 <= i < w.weekdays.len(),
        1 <= w.weekdays[i] <= 7,
        (w.weekdays[i] - day) % 7 == 0,
        zone_known(w.timezone),
        clock_time(w.start) == Some((hour, minute)),
    ensures
        zone_instants(w.timezone, day as i32, hour, minute) is None ==> (occurs(w, day) is Err || (
        occurs(w, day) matches Ok(OccurrenceModel::Invalid { starts, .. }) && starts is None)),
        zone_instants(w.timezone, day as i32, hour, minute) matches Some((first, Some(second)))
            ==> (occurs(w, day) matches Ok(OccurrenceModel::Invalid { starts, sort_at, .. })
            && starts matches Some((early, late)) && early <= late && sort_at == early && ((early
            == first && late == second) || (early == second && late == first))),
{
    assert(weekday(day) == w.weekdays[i]);
    assert(w.weekdays.contains(weekday(day) as u32));
}

/// An instant inside a window is never found closed: where the clocks of its
/// zone show the start once, on a day of the week up to the local day that
/// falls on any weekday of the list, and the instant comes before the duration
/// has passed, the evaluation finds the window open until then or later, or
/// fails closed because another rule is in doubt.
pub proof fn evaluation_opens_inside_a_window(
    windows: &[Window],
    now: i64,
    result: Eligibility,
    i: int,
    j: int,
    day: int,
    hour: u32,
    minute: u32,
    start: i64,
)
    requires
        call_ensures(evaluate, (windows, now), result),
        0 <= i < windows@.len(),
        0 <= j < windows@[i].weekdays@.len(),
        1 <= windows@[i].weekdays@[j] <= 7,
        (windows@[i].weekdays@[j] - day) % 7 == 0,
        is_day(day),
        zone_day(windows@[i].timezone@, now) - 7 <= day <= zone_day(windows@[i].timezone@, now),
        zone_known(windows@[i].timezone@),
        clock_time(windows@[i].start@) == Some((hour, minute)),
        zone_instants(windows@[i].timezone@, day as i32, hour, minute) == Some(
            (start, None::<i64>),
        ),
        is_instant(start as int),
        start + windows@[i].duration_minutes * 60_000 <= super::calendar::MAX_INSTANT,
        start <= now < start + windows@[i].duration_minutes * 60_000,
    ensures
        !(result is Closed),
        result matches Eligibility::Open { closes_at, .. } ==> start
            + windows@[i].duration_minutes * 60_000 <= closes_at,
{
    let models = window_models(windows@);
    let w = models[i];
    let today = zone_day(w.timezone, now) as int;
    let end = (start + w.duration_minutes * 60_000) as i64;
    every_listed_weekday_has_an_occurrence(w, day, j, hour, minute, start);
    assert(has_occurrence(w, today, now, end));
    covering_occurrence_is_not_closed(models, now, i, end);
}

/// What the evaluation finds open is open: a configured window has a start,
/// shown once by the clocks of its zone on a weekday of its list, and the
/// instant lies between it and the closing time, a duration later.
pub proof fn evaluation_opens_only_inside_a_window(
    windows: &[Window],
    now: i64,
    result: Eligibility,
)
    requires
        call_ensures(evaluate, (windows, now), result),
        windows@.len() > 0,
        result is Open,
    ensures
        exists|i: int, day: int, hour: u32, minute: u32|
            {
                &&& 0 <= i < windows@.len()
                &&& windows@[i].identity@ == result->window@
                &&& windows@[i].weekdays@.contains(weekday(day) as u32)
                &&& clock_time(windows@[i].start@) == Some((hour, minute))
                &&& (#[trigger] zone_instants(
                    windows@[i].timezone@,
                    day as i32,
                    hour,
                    minute,
                ) matches Some((start, None)) && start <= now < result->closes_at
                    && result->closes_at == start + windows@[i].duration_minutes * 60_000)
            },
{
    let models = window_models(windows@);
    open_is_backed_by_an_occurrence(models, now);
    let i = choose|i: int|
        0 <= i < models.len() && (#[trigger] models[i]).identity == eligibility(
            models,
            now,
        )->window && has_occurrence(
            models[i],
            zone_day(models[i].timezone, now) as int,
            now,
            result->closes_at,
        );
    let w = models[i];
    assert(w == windows@[i]@);
    let today = zone_day(w.timezone, now) as int;
    let day = choose|day: int|
        today - 7 <= day <= today && is_day(day) && (#[trigger] occurs(w, day) matches Ok(
            OccurrenceModel::Valid { start, end: closes },
        ) && start <= now < closes && closes == result->closes_at);
    let (hour, minute) = clock_time(w.start)->0;
    assert(zone_instants(windows@[i].timezone@, day as i32, hour, minute) is Some);
}

/// Without windows execution is unrestricted.
pub proof fn no_windows_restrict_nothing(windows: &[Window], now: i64, result: Eligibility)
    requires
        call_ensures(evaluate, (windows, now), result),
        windows@.len() == 0,
    ensures
        result matches Eligibility::Open { closes_at, .. } && closes_at == i64::MAX,
{
}

/// One invalid rule fails the evaluation closed, whatever the other windows
/// say.
pub proof fn evaluation_with_an_invalid_rule_is_invalid(
    windows: &[Window],
    now: i64,
    result: Eligibility,
    i: int,
)
    requires
        call_ensures(evaluate, (windows, now), result),
        0 <= i < windows@.len(),
        !zone_known(windows@[i].timezone@) || clock_time(windows@[i].start@) is None
            || windows@[i].weekdays@.len() == 0 || windows@[i].duration_minutes == 0
            || windows@[i].duration_minutes > 7 * 24 * 60,
    ensures
        result is Invalid,
{
    let models = window_models(windows@);
    assert(models[i] == windows@[i]@);
    assert(window_refusal(models[i]) is Some);
    invalid_rule_fails_closed(models, now, i);
}

} // verus!
