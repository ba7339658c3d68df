//! Recurring windows and their validity.
use super::calendar::{clock_time, is_zone, read_clock, zone_known};
use crate::error::{first_refusal, refusal, Error};
use crate::ontology::{identifier_refusal, validate_identifier};
use crate::text::{ascii_lower, quote, quoted, same, split, split_on, texts, trimmed};
use vstd::prelude::*;

verus! {

/// The longest window: seven days.
pub const MAX_DURATION_MINUTES: u32 = 10_080;

/// A window that recurs on weekdays at a local wall-clock time.
#[derive(Debug, PartialEq, Eq)]
pub struct Window {
    pub identity: String,
    pub timezone: String,
    /// ISO weekday numbers: Monday is 1 and Sunday is 7.
    pub weekdays: Vec<u32>,
    /// Local wall-clock time in HH:MM form.
    pub start: String,
    pub duration_minutes: u32,
}

/// What a window says.
pub struct WindowModel {
    pub identity: Seq<char>,
    pub timezone: Seq<char>,
    pub weekdays: Seq<u32>,
    pub start: Seq<char>,
    pub duration_minutes: u32,
}

impl View for Window {
    type V = WindowModel;

    open spec fn view(&self) -> WindowModel {
        WindowModel {
            identity: self.identity@,
            timezone: self.timezone@,
            weekdays: self.weekdays@,
            start: self.start@,
            duration_minutes: self.duration_minutes,
        }
    }
}

/// What windows say, in order.
pub open spec fn window_models(list: Seq<Window>) -> Seq<WindowModel> {
    list.map_values(|item: Window| item@)
}

/// Each weekday is an ISO number and none is named twice.
pub open spec fn proper_weekdays(days: Seq<u32>) -> bool {
    &&& days.no_duplicates()
    &&& forall|i: int| 0 <= i < days.len() ==> 1 <= #[trigger] days[i] <= 7
}

/// What is said of a time zone that the database does not have.
pub open spec fn unknown_zone_text(timezone: Seq<char>) -> Seq<char> {
    "unknown IANA timezone "@ + quoted(timezone)
}

/// What is said of a start that is no clock time.
pub open spec fn start_text(start: Seq<char>) -> Seq<char> {
    "maintenance-window start "@ + quoted(start) + " must use HH:MM"@
}

/// Why a window is refused.
pub open spec fn window_refusal(w: WindowModel) -> Option<Seq<char>> {
    let identity = identifier_refusal("maintenance-window identity"@, w.identity);
    if identity is Some {
        identity
    } else if !zone_known(w.timezone) {
        Some(unknown_zone_text(w.timezone))
    } else if clock_time(w.start) is None {
        Some(start_text(w.start))
    } else if w.weekdays.len() == 0 {
        Some("maintenance window must include at least one weekday"@)
    } else if !proper_weekdays(w.weekdays) {
        Some("maintenance-window weekdays must be unique ISO values from 1 through 7"@)
    } else if w.duration_minutes == 0 || w.duration_minutes > MAX_DURATION_MINUTES {
        Some("maintenance-window duration must be between 1 and 10080 minutes"@)
    } else {
        None
    }
}

pub(crate) fn unknown_zone(timezone: &str) -> (text: String)
    ensures
        text@ == unknown_zone_text(timezone@),
{
    let mut text = "unknown IANA timezone ".to_owned();
    text.append(quote(timezone).as_str());
    text
}

pub(crate) fn bad_start(start: &str) -> (text: String)
    ensures
        text@ == start_text(start@),
{
    let mut text = "maintenance-window start ".to_owned();
    text.append(quote(start).as_str());
    text.append(" must use HH:MM");
    text
}

fn distinct(days: &Vec<u32>) -> (answer: bool)
    ensures
        answer == days@.no_duplicates(),
{
    let mut i: usize = 0;
    while i < days.len()
        invariant
            i <= days.len(),
            forall|a: int, b: int| 0 <= a < b < i ==> days@[a] != days@[b],
        decreases days.len() - i,
    {
        let mut j: usize = 0;
        while j < i
            invariant
                j <= i < days.len(),
                forall|a: int| 0 <= a < j ==> days@[a] != days@[i as int],
            decreases i - j,
        {
            if days[j] == days[i] {
                return false;
            }
            j = j + 1;
        }
        i = i + 1;
    }
    true
}

fn in_week(days: &Vec<u32>) -> (answer: bool)
    ensures
        answer == forall|i: int| 0 <= i < days@.len() ==> 1 <= #[trigger] days@[i] <= 7,
{
    let mut i: usize = 0;
    while i < days.len()
        invariant
            i <= days.len(),
            forall|k: int| 0 <= k < i ==> 1 <= #[trigger] days@[k] <= 7,
        decreases days.len() - i,
    {
        if days[i] < 1 || days[i] > 7 {
            return false;
        }
        i = i + 1;
    }
    true
}

impl Window {
    /// A valid window.
    pub fn new(
        identity: &str,
        timezone: &str,
        weekdays: Vec<u32>,
        start: &str,
        duration_minutes: u32,
    ) -> (result: Result<Window, Error>)
        ensures
            ({
                let model = WindowModel {
                    identity: identity@,
                    timezone: timezone@,
                    weekdays: weekdays@,
                    start: start@,
                    duration_minutes,
                };
                &&& refusal(result) == window_refusal(model)
                &&& result matches Ok(window) ==> window@ == model
            }),
    {
        let window = Window {
            identity: identity.to_owned(),
            timezone: timezone.to_owned(),
            weekdays,
            start: start.to_owned(),
            duration_minutes,
        };
        match window.validate() {
            Err(error) => Err(error),
            Ok(_) => Ok(window),
        }
    }

    /// Check a window.
    pub fn validate(&self) -> (result: Result<(), Error>)
        ensures
            refusal(result) == window_refusal(self@),
    {
        match validate_identifier("maintenance-window identity", self.identity.as_str()) {
            Err(error) => return Err(error),
            Ok(_) => {},
        }
        if !is_zone(self.timezone.as_str()) {
            return Err(Error::new(unknown_zone(self.timezone.as_str())));
        }
        if read_clock(self.start.as_str()).is_none() {
            return Err(Error::new(bad_start(self.start.as_str())));
        }
        if self.weekdays.len() == 0 {
            return Err(Error::fixed("maintenance window must include at least one weekday"));
        }
        if !distinct(&self.weekdays) || !in_week(&self.weekdays) {
            return Err(
                Error::fixed(
                    "maintenance-window weekdays must be unique ISO values from 1 through 7",
                ),
            );
        }
        if self.duration_minutes == 0 || self.duration_minutes > MAX_DURATION_MINUTES {
            return Err(
                Error::fixed("maintenance-window duration must be between 1 and 10080 minutes"),
            );
        }
        Ok(())
    }

    /// A copy of the window.
    pub fn copy(&self) -> (copy: Window)
        ensures
            copy@ == self@,
    {
        let mut weekdays: Vec<u32> = Vec::new();
        let mut i: usize = 0;
        while i < self.weekdays.len()
            invariant
                i <= self.weekdays.len(),
                weekdays@ == self.weekdays@.take(i as int),
            decreases self.weekdays.len() - i,
        {
            weekdays.push(self.weekdays[i]);
            i = i + 1;
            assert(weekdays@ =~= self.weekdays@.take(i as int));
        }
        assert(weekdays@ =~= self.weekdays@);
        Window {
            identity: self.identity.clone(),
            timezone: self.timezone.clone(),
            weekdays,
            start: self.start.clone(),
            duration_minutes: self.duration_minutes,
        }
    }
}

/// The ISO number of a weekday's three-letter name.
pub open spec fn weekday_named(name: Seq<char>) -> Option<u32> {
    if name == "mon"@ {
        Some(1)
    } else if name == "tue"@ {
        Some(2)
    } else if name == "wed"@ {
        Some(3)
    } else if name == "thu"@ {
        Some(4)
    } else if name == "fri"@ {
        Some(5)
    } else if name == "sat"@ {
        Some(6)
    } else if name == "sun"@ {
        Some(7)
    } else {
        None
    }
}

fn number_of(name: &str) -> (number: Option<u32>)
    ensures
        number == weekday_named(name@),
{
    if same(name, "mon") {
        Some(1)
    } else if same(name, "tue") {
        Some(2)
    } else if same(name, "wed") {
        Some(3)
    } else if same(name, "thu") {
        Some(4)
    } else if same(name, "fri") {
        Some(5)
    } else if same(name, "sat") {
        Some(6)
    } else if same(name, "sun") {
        Some(7)
    } else {
        None
    }
}

/// The number that one part of a list of weekdays stands for.
pub open spec fn weekday_part(part: Seq<char>) -> Option<u32> {
    weekday_named(trimmed(part).map_values(|c: char| ascii_lower(c)))
}

/// Why the parts of a list of weekdays are refused: the first that names none.
pub open spec fn parts_refusal(parts: Seq<Seq<char>>) -> Option<Seq<char>>
    decreases parts.len(),
{
    if parts.len() == 0 {
        None
    } else {
        first_refusal(
            parts_refusal(parts.drop_last()),
            if weekday_part(parts.last()) is None {
                Some(
                    "unknown weekday "@ + quoted(parts.last())
                        + "; use mon,tue,wed,thu,fri,sat,sun"@,
                )
            } else {
                None
            },
        )
    }
}

proof fn lemma_parts_stop(parts: Seq<Seq<char>>, at: int)
    requires
        0 <= at < parts.len(),
        parts_refusal(parts.take(at + 1)) is Some,
    ensures
        parts_refusal(parts) == parts_refusal(parts.take(at + 1)),
    decreases parts.len() - at,
{
    if at + 1 == parts.len() {
        assert(parts.take(at + 1) =~= parts);
    } else {
        assert(parts.take(at + 2).drop_last() =~= parts.take(at + 1));
        lemma_parts_stop(parts, at + 1);
    }
}

/// The numbers of the parts of a list of weekdays.
pub open spec fn weekday_numbers(parts: Seq<Seq<char>>) -> Seq<u32> {
    parts.map_values(|part: Seq<char>| weekday_part(part)->0)
}

/// Why a comma-separated list of weekdays is refused.
pub open spec fn weekdays_refusal(value: Seq<char>) -> Option<Seq<char>> {
    let parts = split_on(value, ',');
    let unknown = parts_refusal(parts);
    if unknown is Some {
        unknown
    } else if parts.len() == 0 || !weekday_numbers(parts).no_duplicates() {
        Some("maintenance-window weekdays must be non-empty and unique"@)
    } else {
        None
    }
}

/// The ISO numbers of a comma-separated list of weekday names.
pub fn weekday_values(value: &str) -> (result: Result<Vec<u32>, Error>)
    ensures
        refusal(result) == weekdays_refusal(value@),
        result matches Ok(days) ==> days@ == weekday_numbers(split_on(value@, ',')),
{
    let parts = split(value, ',');
    let ghost models = split_on(value@, ',');
    let mut days: Vec<u32> = Vec::new();
    let mut i: usize = 0;
    assert(models.take(0) =~= Seq::<Seq<char>>::empty());
    while i < parts.len()
        invariant
            i <= parts.len(),
            models == split_on(value@, ','),
            texts(parts@) == models,
            parts_refusal(models.take(i as int)) is None,
            days@ == weekday_numbers(models.take(i as int)),
        decreases parts.len() - i,
    {
        let part = &parts[i];
        assert(models[i as int] == part@);
        assert(models.take(i + 1).drop_last() =~= models.take(i as int));
        assert(models.take(i + 1).last() == part@);
        let name = part.as_str().trim().to_ascii_lowercase();
        match number_of(name.as_str()) {
            None => {
                proof {
                    lemma_parts_stop(models, i as int);
                }
                let mut message = "unknown weekday ".to_owned();
                message.append(quote(part.as_str()).as_str());
                message.append("; use mon,tue,wed,thu,fri,sat,sun");
                return Err(Error::new(message));
            },
            Some(number) => {
                days.push(number);
            },
        }
        i = i + 1;
        assert(days@ =~= weekday_numbers(models.take(i as int)));
    }
    assert(models.take(i as int) =~= models);
    if days.len() == 0 || !distinct(&days) {
        return Err(Error::fixed("maintenance-window weekdays must be non-empty and unique"));
    }
    Ok(days)
}

/// A window is valid if and only if its identity is an identifier, its zone and
/// its start are known, it names at least one weekday from Monday to Sunday and
/// none twice, and it lasts from a minute to a week.
pub proof fn valid_windows(window: &Window, result: Result<(), Error>)
    requires
        call_ensures(Window::validate, (window,), result),
    ensures
        result is Ok <==> {
            &&& identifier_refusal("maintenance-window identity"@, window.identity@) is None
            &&& zone_known(window.timezone@)
            &&& clock_time(window.start@) is Some
            &&& window.weekdays@.len() > 0
            &&& forall|i: int|
                0 <= i < window.weekdays@.len() ==> 1 <= #[trigger] window.weekdays@[i] <= 7
            &&& forall|i: int, j: int|
                0 <= i < j < window.weekdays@.len() ==> #[trigger] window.weekdays@[i]
                    != #[trigger] window.weekdays@[j]
            &&& 1 <= window.duration_minutes <= 7 * 24 * 60
        },
{
    assert(window.weekdays@.no_duplicates() <==> forall|i: int, j: int|
        0 <= i < j < window.weekdays@.len() ==> #[trigger] window.weekdays@[i]
            != #[trigger] window.weekdays@[j]);
}

/// A window is made with what it was asked for, if that is valid.
pub proof fn made_window_is_as_asked(
    identity: &str,
    timezone: &str,
    weekdays: Vec<u32>,
    start: &str,
    duration_minutes: u32,
    result: Result<Window, Error>,
)
    requires
        call_ensures(
            Window::new,
            (identity, timezone, weekdays, start, duration_minutes),
            result,
        ),
    ensures
        result matches Ok(window) ==> window.identity@ == identity@ && window.timezone@
            == timezone@ && window.weekdays@ == weekdays@ && window.start@ == start@
            && window.duration_minutes == duration_minutes,
        result is Ok <==> {
            &&& identifier_refusal("maintenance-window identity"@, identity@) is None
            &&& zone_known(timezone@)
            &&& clock_time(start@) is Some
            &&& weekdays@.len() > 0
            &&& forall|i: int| 0 <= i < weekdays@.len() ==> 1 <= #[trigger] weekdays@[i] <= 7
            &&& forall|i: int, j: int|
                0 <= i < j < weekdays@.len() ==> #[trigger] weekdays@[i]
                    != #[trigger] weekdays@[j]
            &&& 1 <= duration_minutes <= 7 * 24 * 60
        },
{
    assert(weekdays@.no_duplicates() <==> forall|i: int, j: int|
        0 <= i < j < weekdays@.len() ==> #[trigger] weekdays@[i] != #[trigger] weekdays@[j]);
}

proof fn lemma_parts_each(parts: Seq<Seq<char>>)
    ensures
        parts_refusal(parts) is None <==> forall|i: int|
            0 <= i < parts.len() ==> weekday_part(#[trigger] parts[i]) is Some,
    decreases parts.len(),
{
    if parts.len() > 0 {
        let front = parts.drop_last();
        lemma_parts_each(front);
        assert(forall|i: int| 0 <= i < front.len() ==> front[i] == parts[i]);
        if parts_refusal(parts) is None {
            assert forall|i: int| 0 <= i < parts.len() implies weekday_part(
                #[trigger] parts[i],
            ) is Some by {
                if i < front.len() {
                    assert(weekday_part(front[i]) is Some);
                }
            }
        }
    }
}

/// A list of weekdays is read if and only if every part of it, trimmed and in
/// any case, names a weekday and none comes twice; its numbers stand in the
/// order of the parts.
pub proof fn weekday_lists(value: &str, result: Result<Vec<u32>, Error>)
    requires
        call_ensures(weekday_values, (value,), result),
    ensures
        result is Ok ==> forall|i: int|
            0 <= i < split_on(value@, ',').len() ==> {
                let name = trimmed(#[trigger] split_on(value@, ',')[i]).map_values(
                    |c: char| ascii_lower(c),
                );
                &&& result->Ok_0@.len() == split_on(value@, ',').len()
                &&& 1 <= result->Ok_0@[i] <= 7
                &&& name == ([
                    "mon"@,
                    "tue"@,
                    "wed"@,
                    "thu"@,
                    "fri"@,
                    "sat"@,
                    "sun"@,
                ])@[result->Ok_0@[i] - 1]
            },
        result matches Ok(days) ==> days@.no_duplicates(),
        result is Ok <==> {
            let parts = split_on(value@, ',');
            &&& parts.len() > 0
            &&& weekday_numbers(parts).no_duplicates()
            &&& forall|i: int| 0 <= i < parts.len() ==> weekday_part(#[trigger] parts[i]) is Some
        },
{
    lemma_parts_each(split_on(value@, ','));
}

} // verus!
