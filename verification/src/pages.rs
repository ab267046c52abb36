//! The values that the page templates show, computed from a configuration.

use crate::breaks::{
    exam_map, exam_names_by_day, exam_outcome, holiday_entries, holiday_map, holiday_outcome,
    lemma_holiday_date_entry, lemma_holiday_dates_unique, names_by_day,
};
use crate::calendar::weekday_of;
use crate::course::{Config, Exam};
use crate::instructors::{instructor_html, instructor_list};
use crate::meetings::{lemma_named_days_meet, meeting_days, meeting_days_outcome, named_weekday};
use crate::schedule::{
    date_label, day_rows, event_rows, holiday_row, lemma_rows_split, listed_last_day, rows_from,
    schedule_html, schedule_outcome, Plan,
};
use crate::text::{holds_text, lemma_text_parts, push_signed_decimal, signed_decimal};
use vstd::prelude::*;

verus! {

/// The names of the exams by day number; where two exams share a date, the
/// later one's.
pub open spec fn exam_names(es: Seq<Exam>) -> Map<int, Seq<char>> {
    Map::new(|d: int| exam_outcome(es).contains_key(d), |d: int| exam_outcome(es)[d].name@)
}

/// The texts in order, with `sep` between each two.
pub open spec fn joined(parts: Seq<Seq<char>>, sep: Seq<char>) -> Seq<char>
    decreases parts.len(),
{
    if parts.len() == 0 {
        Seq::empty()
    } else if parts.len() == 1 {
        parts[0]
    } else {
        joined(parts.drop_last(), sep) + sep + parts.last()
    }
}

/// The term and the year, as in "Fall 2026".
pub open spec fn semester_text(term: Seq<char>, year: int) -> Seq<char> {
    term + " "@ + signed_decimal(year)
}

/// The meeting days and hours, as in "mon/wed 12:30-13:50".
pub open spec fn meeting_times_text(meets: Seq<Seq<char>>, starts: Seq<char>, ends: Seq<char>) -> Seq<char> {
    joined(meets, "/"@) + " "@ + starts + "-"@ + ends
}

/// The texts of the page fields.
pub struct FieldTexts {
    pub semester: Seq<char>,
    pub meeting_times: Seq<char>,
    pub schedule: Seq<char>,
    pub instructors: Seq<char>,
}

/// The page fields of a configuration, or the first failure: a date claimed
/// by two holidays, then a meeting day that names no day, then lectures
/// that do not fit the semester.
pub open spec fn fields_outcome(config: Config) -> Result<FieldTexts, Seq<char>> {
    match holiday_outcome(holiday_entries(config.holiday@)) {
        Err(e) => Err(e),
        Ok(holidays) => match meeting_days_outcome(config.meets.deep_view()) {
            Err(e) => Err(e),
            Ok(days) => {
                let plan = Plan {
                    lectures: config.lecture@,
                    holidays,
                    exams: exam_names(config.exam@),
                    meets: days,
                };
                match schedule_outcome(plan, config.first_day@, config.last_day@, config.post_class_event@) {
                    Err(e) => Err(e),
                    Ok(schedule) => Ok(
                        FieldTexts {
                            semester: semester_text(config.term@, config.year as int),
                            meeting_times: meeting_times_text(
                                config.meets.deep_view(),
                                config.starts@,
                                config.ends@,
                            ),
                            schedule,
                            instructors: instructor_list(config.instructor@),
                        },
                    ),
                }
            },
        },
    }
}

/// The values that the templates show: the semester, the meeting times, the
/// schedule rows and the instructor list. The location is the configured
/// one.
#[derive(Debug)]
pub struct PageFields {
    pub semester: String,
    pub meeting_times: String,
    pub schedule: String,
    pub syllabus_instructors: String,
}

/// "Term Year", such as "Fall 2026".
pub fn semester(term: &str, year: i32) -> (r: String)
    ensures
        r@ == semester_text(term@, year as int),
{
    let mut s = String::from_str(term);
    s.append(" ");
    push_signed_decimal(&mut s, year as i64);
    assert(s@ =~= semester_text(term@, year as int));
    s
}

/// The meeting days joined by "/", then the hours: "mon/wed 12:30-13:50".
pub fn meeting_times(meets: &Vec<String>, starts: &str, ends: &str) -> (r: String)
    ensures
        r@ == meeting_times_text(meets.deep_view(), starts@, ends@),
{
    let mut s = String::new();
    let mut k: usize = 0;
    assert(meets.deep_view().take(0) =~= Seq::<Seq<char>>::empty());
    while k < meets.len()
        invariant
            k <= meets@.len(),
            s@ == joined(meets.deep_view().take(k as int), "/"@),
        decreases meets@.len() - k,
    {
        if k > 0 {
            s.append("/");
        }
        s.append(meets[k].as_str());
        proof {
            let t = meets.deep_view().take(k as int + 1);
            assert(t.drop_last() =~= meets.deep_view().take(k as int));
            assert(t.last() == meets@[k as int]@);
            assert(s@ =~= joined(t, "/"@));
        }
        k = k + 1;
    }
    assert(meets.deep_view().take(k as int) =~= meets.deep_view());
    s.append(" ");
    s.append(starts);
    s.append("-");
    s.append(ends);
    assert(s@ =~= meeting_times_text(meets.deep_view(), starts@, ends@));
    s
}

/// The page fields of a configuration: checks that no date is claimed by two
/// holidays and that every meeting day names a day, lays out the schedule,
/// and writes the semester, meeting times and instructor list. The first
/// failure, in that order, is returned.
pub fn page_fields(config: &Config) -> (r: Result<PageFields, String>)
    ensures
        match r {
            Ok(f) => fields_outcome(*config) == Ok::<FieldTexts, Seq<char>>(
                FieldTexts {
                    semester: f.semester@,
                    meeting_times: f.meeting_times@,
                    schedule: f.schedule@,
                    instructors: f.syllabus_instructors@,
                },
            ),
            Err(e) => fields_outcome(*config) == Err::<FieldTexts, Seq<char>>(e@),
        },
{
    let holidays = match holiday_map(config.holiday.as_slice()) {
        Ok(m) => m,
        Err(e) => return Err(e),
    };
    let exams = exam_map(config.exam.as_slice());
    let days = match meeting_days(&config.meets) {
        Ok(d) => d,
        Err(e) => return Err(e),
    };
    proof {
        assert(exam_names_by_day(exams@) =~= exam_names(config.exam@));
        assert(names_by_day(holidays@) == holiday_outcome(holiday_entries(config.holiday@))->Ok_0);
    }
    let schedule = match schedule_html(config, &holidays, days.as_slice(), &exams) {
        Ok(s) => s,
        Err(e) => return Err(e),
    };
    let syllabus_instructors = match instructor_html(config.instructor.as_slice()) {
        Ok(h) => h,
        Err(_) => String::new(),
    };
    Ok(
        PageFields {
            semester: semester(config.term.as_str(), config.year),
            meeting_times: meeting_times(&config.meets, config.starts.as_str(), config.ends.as_str()),
            schedule,
            syllabus_instructors,
        },
    )
}


/// Holidays take their meetings: where the page values are built, each date
/// of a configured holiday from the first day to the last (short of chrono's
/// last date) that falls on a meeting day shows the "No Class" row with that
/// holiday's name in the schedule, in place of a lecture.
pub proof fn lemma_holidays_reach_the_schedule(config: Config, f: FieldTexts, j: int, t: int, m: int)
    requires
        fields_outcome(config) == Ok::<FieldTexts, Seq<char>>(f),
        0 <= j < config.holiday@.len(),
        0 <= t < config.holiday@[j].dates@.len(),
        0 <= m < config.meets@.len(),
        named_weekday(config.meets@[m]@) == Some(weekday_of(config.holiday@[j].dates@[t]@)),
        config.first_day@ <= config.holiday@[j].dates@[t]@ <= listed_last_day(config.last_day@),
    ensures
        holds_text(
            f.schedule,
            "<tr class=\"noclass\"><td>"@ + date_label(config.holiday@[j].dates@[t]@)
                + "</td><td colspan=\"3\">No Class - "@ + config.holiday@[j].name@
                + "</td></tr>\n"@,
        ),
{
    let d = config.holiday@[j].dates@[t]@;
    let name = config.holiday@[j].name@;
    let entries = holiday_entries(config.holiday@);
    lemma_holiday_dates_unique(entries);
    let hm = holiday_outcome(entries)->Ok_0;
    let e = lemma_holiday_date_entry(config.holiday@, j, t);
    assert(hm.contains_key(entries[e].0));
    assert(hm.contains_key(d) && hm[d] == name);
    let names = config.meets.deep_view();
    assert(names[m] == config.meets@[m]@);
    lemma_named_days_meet(names, m);
    let days = meeting_days_outcome(names)->Ok_0;
    assert(days.contains(weekday_of(d)));
    let plan = Plan {
        lectures: config.lecture@,
        holidays: hm,
        exams: exam_names(config.exam@),
        meets: days,
    };
    let first = config.first_day@;
    let lastx = listed_last_day(config.last_day@);
    let events = config.post_class_event@;
    assert(schedule_outcome(plan, first, config.last_day@, events) == Ok::<Seq<char>, Seq<char>>(
        f.schedule,
    ));
    let rows = rows_from(plan, first, lastx, 0).0;
    assert(f.schedule == rows + event_rows(events));
    lemma_rows_split(plan, first, d, lastx, 0);
    let (head, given) = rows_from(plan, first, d - 1, 0);
    let tail = rows_from(plan, d, lastx, given).0;
    assert(day_rows(plan, d, given) == (holiday_row(d, name), given));
    let rest = rows_from(plan, d + 1, lastx, given).0;
    assert(tail == holiday_row(d, name) + rest);
    assert(rows == head + tail);
    let row = "<tr class=\"noclass\"><td>"@ + date_label(d) + "</td><td colspan=\"3\">No Class - "@
        + name + "</td></tr>\n"@;
    assert(f.schedule =~= head + row + (rest + event_rows(events)));
    lemma_text_parts(f.schedule, head, row, rest + event_rows(events));
}

} // verus!
