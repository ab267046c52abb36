//! The schedule table of the syllabus: one row for each class meeting from
//! the first day to the last, then the events after the last class.
//!
//! Meetings are the days whose day of the week is a meeting day. A holiday
//! meeting shows the holiday, an exam meeting shows the exam, and every other
//! meeting takes the next lecture in order; meetings left over once the
//! lectures run out are listed empty. Lectures left over once the meetings run
//! out are refused rather than dropped.

use crate::breaks::{exam_names_by_day, names_by_day};
use crate::calendar::{weekday_of, Date, Weekday};
use crate::course::{text_or_empty, Config, Exam, Lecture, Paper, PostClassEvent};
use crate::text::{
    begins_with, debug_quoted, debug_text, decimal, holds_text, lemma_text_parts, push_decimal,
};
use std::collections::HashMap;
use vstd::prelude::*;

verus! {

broadcast use vstd::std_specs::hash::group_hash_axioms;

/// What decides the rows of the class meetings: the lectures in order, the
/// holiday names and exam names by day number, and the meeting days.
pub struct Plan {
    pub lectures: Seq<Lecture>,
    pub holidays: Map<int, Seq<char>>,
    pub exams: Map<int, Seq<char>>,
    pub meets: Set<Weekday>,
}

/// The plan of a configuration with the holiday map, meeting days and exam
/// map that go with it.
pub open spec fn plan_of<'a>(
    config: Config,
    holidays: Map<i32, String>,
    meets: Set<Weekday>,
    exams: Map<i32, &'a Exam>,
) -> Plan {
    Plan {
        lectures: config.lecture@,
        holidays: names_by_day(holidays),
        exams: exam_names_by_day(exams),
        meets,
    }
}

/// The day of the week and the date of a day, as in "Mon 10/12".
pub open spec fn date_label(d: int) -> Seq<char> {
    weekday_of(d).abbreviation() + " "@ + decimal(crate::calendar::chrono_month(d) as nat) + "/"@
        + decimal(crate::calendar::chrono_day_of_month(d) as nat)
}

/// The row of a meeting that falls on a holiday.
pub open spec fn holiday_row(d: int, name: Seq<char>) -> Seq<char> {
    "<tr class=\"noclass\"><td>"@ + date_label(d) + "</td><td colspan=\"3\">No Class - "@ + name
        + "</td></tr>\n"@
}

/// The row of a meeting that holds an exam.
pub open spec fn exam_row(d: int, name: Seq<char>) -> Seq<char> {
    "<tr class=\"lecture\"><td>"@ + date_label(d) + " </td>\n<td>"@ + name
        + "</td><td></td>\n<td>\n</td>\n</tr>\n"@
}

/// The row of a meeting after the lectures have run out.
pub open spec fn vacant_row(d: int) -> Seq<char> {
    "<tr class=\"lecture\"><td>"@ + date_label(d) + "</td><td></td><td></td><td></td></tr>\n"@
}

/// The heading row that opens a section of lectures, where there is one.
pub open spec fn section_row(header: Option<String>) -> Seq<char> {
    match header {
        Some(h) => "<tr class=\"lechead\"><td class=\"lechead\" colspan=\"4\">"@ + h@
            + "</td></tr>\n"@,
        None => Seq::empty(),
    }
}

/// Whether a link is a full address: it begins with "http".
pub open spec fn is_web_link(link: Seq<char>) -> bool {
    &&& link.len() >= 4
    &&& link[0] == 'h'
    &&& link[1] == 't'
    &&& link[2] == 't'
    &&& link[3] == 'p'
}

/// The link to a paper: a full address as it is, any other link under
/// "papers/".
pub open spec fn paper_link(p: Paper) -> Seq<char> {
    if is_web_link(p.link@) {
        "<a href=\""@ + p.link@ + "\">"@ + p.title@ + "</a>"@
    } else {
        "<a href=\"papers/"@ + p.link@ + "\">"@ + p.title@ + "</a>"@
    }
}

/// The links to the papers, separated by commas.
pub open spec fn paper_links(ps: Seq<Paper>) -> Seq<char>
    decreases ps.len(),
{
    if ps.len() == 0 {
        Seq::empty()
    } else {
        paper_links(ps.drop_last()) + (if ps.len() > 1 {
            ", "@
        } else {
            Seq::empty()
        }) + paper_link(ps.last())
    }
}

/// The links to a lecture's papers, where it has any.
pub open spec fn papers_cell(papers: Option<Vec<Paper>>) -> Seq<char> {
    match papers {
        Some(v) => paper_links(v@),
        None => Seq::empty(),
    }
}

/// The rows of a meeting that holds lecture `l`: the section heading where
/// the lecture opens a section, then the lecture with its instructor, title,
/// notes and papers.
pub open spec fn lecture_rows(d: int, l: Lecture) -> Seq<char> {
    section_row(l.section_header) + "<tr class=\"lecture\"><td>"@ + date_label(d) + " "@
        + text_or_empty(l.instructor) + "</td>\n<td>"@ + l.title@ + "</td><td>"@ + text_or_empty(
        l.notes,
    ) + "</td>\n<td>\n"@ + papers_cell(l.papers) + "</td>\n</tr>\n"@
}

/// The rows of day `d` when `idx` lectures have been given, and the number of
/// lectures given after it.
pub open spec fn day_rows(p: Plan, d: int, idx: int) -> (Seq<char>, int) {
    if !p.meets.contains(weekday_of(d)) {
        (Seq::empty(), idx)
    } else if p.holidays.contains_key(d) {
        (holiday_row(d, p.holidays[d]), idx)
    } else if p.exams.contains_key(d) {
        (exam_row(d, p.exams[d]), idx)
    } else if idx >= p.lectures.len() {
        (vacant_row(d), idx)
    } else {
        (lecture_rows(d, p.lectures[idx]), idx + 1)
    }
}

/// The rows of the days from `d` to `last` when `idx` lectures have been
/// given, and the number of lectures given by the end.
pub open spec fn rows_from(p: Plan, d: int, last: int, idx: int) -> (Seq<char>, int)
    decreases last + 1 - d,
{
    if d > last {
        (Seq::empty(), idx)
    } else {
        let (r, next) = day_rows(p, d, idx);
        let (rest, used) = rows_from(p, d + 1, last, next);
        (r + rest, used)
    }
}

/// The row of an event after the last class.
pub open spec fn event_row(e: PostClassEvent) -> Seq<char> {
    "<tr class=\"deadline\"><td>"@ + date_label(e.date@) + " </td>\n<td>"@ + e.title@
        + "</td><td>"@ + text_or_empty(e.notes) + "</td><td></td></tr>\n"@
}

/// The rows of the events after the last class, in order.
pub open spec fn event_rows(es: Seq<PostClassEvent>) -> Seq<char>
    decreases es.len(),
{
    if es.len() == 0 {
        Seq::empty()
    } else {
        event_rows(es.drop_last()) + event_row(es.last())
    }
}

/// The message for lectures that do not fit the semester: how many are left
/// over, and the title of the first of them.
pub open spec fn excess_lectures_message(left: nat, title: Seq<char>) -> Seq<char> {
    decimal(left) + " lecture(s) extend past the semester end; first unrendered lecture: "@
        + debug_quoted(title)
}

/// The last day that the day-by-day walk from the first day reaches: `last`,
/// unless that is chrono's last date, which the walk never yields (a day is
/// only yielded once its next day exists).
pub open spec fn listed_last_day(last: int) -> int {
    if last < crate::calendar::last_chrono_day() {
        last
    } else {
        crate::calendar::last_chrono_day() - 1
    }
}

/// The schedule: the meeting rows from `first` to `last` (short of chrono's
/// last date) and the event rows, or the message for the lectures left over.
pub open spec fn schedule_outcome(p: Plan, first: int, last: int, events: Seq<PostClassEvent>) -> Result<
    Seq<char>,
    Seq<char>,
> {
    let (rows, used) = rows_from(p, first, listed_last_day(last), 0);
    if used < p.lectures.len() {
        Err(excess_lectures_message((p.lectures.len() - used) as nat, p.lectures[used].title@))
    } else {
        Ok(rows + event_rows(events))
    }
}

fn push_date_label(out: &mut String, d: &Date)
    ensures
        final(out)@ == old(out)@ + date_label(d@),
{
    let w = d.weekday();
    out.append(w.short_name());
    out.append(" ");
    push_decimal(out, d.month() as u64);
    out.append("/");
    push_decimal(out, d.day() as u64);
    assert(out@ =~= old(out)@ + date_label(d@));
}

fn push_holiday_row(out: &mut String, d: &Date, name: &str)
    ensures
        final(out)@ == old(out)@ + holiday_row(d@, name@),
{
    out.append("<tr class=\"noclass\"><td>");
    push_date_label(out, d);
    out.append("</td><td colspan=\"3\">No Class - ");
    out.append(name);
    out.append("</td></tr>\n");
    assert(out@ =~= old(out)@ + holiday_row(d@, name@));
}

fn push_exam_row(out: &mut String, d: &Date, name: &str)
    ensures
        final(out)@ == old(out)@ + exam_row(d@, name@),
{
    out.append("<tr class=\"lecture\"><td>");
    push_date_label(out, d);
    out.append(" </td>\n<td>");
    out.append(name);
    out.append("</td><td></td>\n<td>\n</td>\n</tr>\n");
    assert(out@ =~= old(out)@ + exam_row(d@, name@));
}

fn push_vacant_row(out: &mut String, d: &Date)
    ensures
        final(out)@ == old(out)@ + vacant_row(d@),
{
    out.append("<tr class=\"lecture\"><td>");
    push_date_label(out, d);
    out.append("</td><td></td><td></td><td></td></tr>\n");
    assert(out@ =~= old(out)@ + vacant_row(d@));
}

fn push_optional(out: &mut String, o: &Option<String>)
    ensures
        final(out)@ == old(out)@ + text_or_empty(*o),
{
    match o {
        Some(t) => out.append(t.as_str()),
        None => {
            assert(out@ =~= old(out)@ + text_or_empty(*o));
        },
    }
}

fn push_section_row(out: &mut String, header: &Option<String>)
    ensures
        final(out)@ == old(out)@ + section_row(*header),
{
    match header {
        Some(h) => {
            out.append("<tr class=\"lechead\"><td class=\"lechead\" colspan=\"4\">");
            out.append(h.as_str());
            out.append("</td></tr>\n");
            assert(out@ =~= old(out)@ + section_row(*header));
        },
        None => {
            assert(out@ =~= old(out)@ + section_row(*header));
        },
    }
}

fn web_link(link: &str) -> (r: bool)
    ensures
        r == is_web_link(link@),
{
    let n = link.unicode_len();
    if n < 4 {
        return false;
    }
    link.get_char(0) == 'h' && link.get_char(1) == 't' && link.get_char(2) == 't'
        && link.get_char(3) == 'p'
}

fn push_paper_link(out: &mut String, p: &Paper)
    ensures
        final(out)@ == old(out)@ + paper_link(*p),
{
    if web_link(p.link.as_str()) {
        out.append("<a href=\"");
    } else {
        out.append("<a href=\"papers/");
    }
    out.append(p.link.as_str());
    out.append("\">");
    out.append(p.title.as_str());
    out.append("</a>");
    assert(out@ =~= old(out)@ + paper_link(*p));
}

fn push_papers(out: &mut String, papers: &Option<Vec<Paper>>)
    ensures
        final(out)@ == old(out)@ + papers_cell(*papers),
{
    match papers {
        Some(v) => {
            let ghost start = out@;
            let mut k: usize = 0;
            assert(v@.take(0) =~= Seq::<Paper>::empty());
            assert(out@ =~= start + paper_links(v@.take(0)));
            while k < v.len()
                invariant
                    k <= v@.len(),
                    out@ == start + paper_links(v@.take(k as int)),
                decreases v@.len() - k,
            {
                let ghost before = out@;
                if k > 0 {
                    out.append(", ");
                }
                push_paper_link(out, &v[k]);
                proof {
                    let t = v@.take(k as int + 1);
                    assert(t.drop_last() =~= v@.take(k as int));
                    assert(t.last() == v@[k as int]);
                    assert(out@ =~= start + paper_links(t));
                }
                k = k + 1;
            }
            assert(v@.take(k as int) =~= v@);
        },
        None => {
            assert(out@ =~= old(out)@ + papers_cell(*papers));
        },
    }
}

fn push_lecture_rows(out: &mut String, d: &Date, l: &Lecture)
    ensures
        final(out)@ == old(out)@ + lecture_rows(d@, *l),
{
    push_section_row(out, &l.section_header);
    out.append("<tr class=\"lecture\"><td>");
    push_date_label(out, d);
    out.append(" ");
    push_optional(out, &l.instructor);
    out.append("</td>\n<td>");
    out.append(l.title.as_str());
    out.append("</td><td>");
    push_optional(out, &l.notes);
    out.append("</td>\n<td>\n");
    push_papers(out, &l.papers);
    out.append("</td>\n</tr>\n");
    assert(out@ =~= old(out)@ + lecture_rows(d@, *l));
}

fn push_event_row(out: &mut String, e: &PostClassEvent)
    ensures
        final(out)@ == old(out)@ + event_row(*e),
{
    out.append("<tr class=\"deadline\"><td>");
    push_date_label(out, &e.date);
    out.append(" </td>\n<td>");
    out.append(e.title.as_str());
    out.append("</td><td>");
    push_optional(out, &e.notes);
    out.append("</td><td></td></tr>\n");
    assert(out@ =~= old(out)@ + event_row(*e));
}

fn meets_on(meets: &[Weekday], w: Weekday) -> (r: bool)
    ensures
        r == meets@.to_set().contains(w),
{
    let mut k: usize = 0;
    while k < meets.len()
        invariant
            k <= meets@.len(),
            forall|i: int| 0 <= i < k ==> meets@[i] != w,
        decreases meets@.len() - k,
    {
        if meets[k] == w {
            return true;
        }
        k = k + 1;
    }
    false
}

fn push_day_rows<'a>(
    out: &mut String,
    config: &Config,
    holidays: &HashMap<i32, String>,
    meets: &[Weekday],
    exams: &HashMap<i32, &'a Exam>,
    d: &Date,
    idx: usize,
) -> (next: usize)
    requires
        idx <= config.lecture@.len(),
    ensures
        ({
            let (r, n) = day_rows(plan_of(*config, holidays@, meets@.to_set(), exams@), d@, idx as int);
            final(out)@ == old(out)@ + r && next == n
        }),
        next <= config.lecture@.len(),
{
    let ghost p = plan_of(*config, holidays@, meets@.to_set(), exams@);
    let w = d.weekday();
    if !meets_on(meets, w) {
        assert(out@ =~= old(out)@ + Seq::<char>::empty());
        return idx;
    }
    let n = d.day_number();
    match holidays.get(&n) {
        Some(name) => {
            assert(p.holidays.contains_key(d@));
            push_holiday_row(out, d, name.as_str());
            return idx;
        },
        None => {
            assert(!p.holidays.contains_key(d@));
        },
    }
    match exams.get(&n) {
        Some(exam) => {
            assert(p.exams.contains_key(d@));
            push_exam_row(out, d, exam.name.as_str());
            return idx;
        },
        None => {
            assert(!p.exams.contains_key(d@));
        },
    }
    if idx >= config.lecture.len() {
        push_vacant_row(out, d);
        idx
    } else {
        push_lecture_rows(out, d, &config.lecture[idx]);
        idx + 1
    }
}

/// The schedule rows of the syllabus: for each day from the first day to the
/// last on which the course meets, the holiday, the exam, or the next lecture
/// (an empty row once lectures run out); then a row for each event after the
/// last class. Fails with the number of lectures left over and the title of
/// the first of them where the meetings run out before the lectures.
pub fn schedule_html<'a>(
    config: &Config,
    holidays: &HashMap<i32, String>,
    meets: &[Weekday],
    exams: &HashMap<i32, &'a Exam>,
) -> (r: Result<String, String>)
    ensures
        match r {
            Ok(s) => schedule_outcome(
                plan_of(*config, holidays@, meets@.to_set(), exams@),
                config.first_day@,
                config.last_day@,
                config.post_class_event@,
            ) == Ok::<Seq<char>, Seq<char>>(s@),
            Err(e) => schedule_outcome(
                plan_of(*config, holidays@, meets@.to_set(), exams@),
                config.first_day@,
                config.last_day@,
                config.post_class_event@,
            ) == Err::<Seq<char>, Seq<char>>(e@),
        },
{
    let ghost p = plan_of(*config, holidays@, meets@.to_set(), exams@);
    let ghost first = config.first_day@;
    let last = config.last_day.day_number();
    let ghost lastx = listed_last_day(last as int);
    let mut out = String::new();
    let mut idx: usize = 0;
    let mut day = config.first_day;
    assert(out@ =~= Seq::<char>::empty());
    loop
        invariant_except_break
            p == plan_of(*config, holidays@, meets@.to_set(), exams@),
            last == config.last_day@,
            lastx == listed_last_day(last as int),
            idx <= config.lecture@.len(),
            rows_from(p, first, lastx, 0) == (
                out@ + rows_from(p, day@, lastx, idx as int).0,
                rows_from(p, day@, lastx, idx as int).1,
            ),
        ensures
            p == plan_of(*config, holidays@, meets@.to_set(), exams@),
            idx <= config.lecture@.len(),
            rows_from(p, first, lastx, 0) == (out@, idx as int),
        decreases last + 1 - day@,
    {
        if day.day_number() > last {
            assert(out@ + Seq::<char>::empty() =~= out@);
            break;
        }
        let ghost d = day@;
        match day.succ() {
            Some(n) => {
                let ghost before = out@;
                let next = push_day_rows(&mut out, config, holidays, meets, exams, &day, idx);
                proof {
                    let (r, k) = day_rows(p, d, idx as int);
                    let (rest, used) = rows_from(p, d + 1, lastx, k);
                    assert(d <= lastx);
                    assert(rows_from(p, d, lastx, idx as int) == (r + rest, used));
                    assert(before + (r + rest) =~= out@ + rest);
                }
                idx = next;
                day = n;
            },
            None => {
                proof {
                    assert(d > lastx);
                    assert(out@ + Seq::<char>::empty() =~= out@);
                }
                break;
            },
        }
    }
    if idx < config.lecture.len() {
        let left = config.lecture.len() - idx;
        let mut e = String::new();
        push_decimal(&mut e, left as u64);
        e.append(" lecture(s) extend past the semester end; first unrendered lecture: ");
        let q = debug_text(config.lecture[idx].title.as_str());
        e.append(q.as_str());
        assert(e@ =~= excess_lectures_message(left as nat, config.lecture@[idx as int].title@));
        return Err(e);
    }
    let ghost rows = out@;
    let events = &config.post_class_event;
    let mut k: usize = 0;
    assert(events@.take(0) =~= Seq::<PostClassEvent>::empty());
    assert(out@ =~= rows + event_rows(events@.take(0)));
    while k < events.len()
        invariant
            k <= events@.len(),
            out@ == rows + event_rows(events@.take(k as int)),
        decreases events@.len() - k,
    {
        push_event_row(&mut out, &events[k]);
        proof {
            let t = events@.take(k as int + 1);
            assert(t.drop_last() =~= events@.take(k as int));
            assert(t.last() == events@[k as int]);
            assert(out@ =~= rows + event_rows(t));
        }
        k = k + 1;
    }
    assert(events@.take(k as int) =~= events@);
    Ok(out)
}

/// A paper whose link begins with "http" is linked at that address as it
/// is; any other link is taken as a file under "papers/".
pub proof fn lemma_paper_link_target(p: Paper)
    ensures
        begins_with(p.link@, "http"@) ==> paper_link(p) == "<a href=\""@ + p.link@ + "\">"@
            + p.title@ + "</a>"@,
        !begins_with(p.link@, "http"@) ==> paper_link(p) == "<a href=\"papers/"@ + p.link@
            + "\">"@ + p.title@ + "</a>"@,
{
    reveal_strlit("http");
    let link = p.link@;
    if begins_with(link, "http"@) {
        assert(link[0] == link.take(4)[0]);
        assert(link[1] == link.take(4)[1]);
        assert(link[2] == link.take(4)[2]);
        assert(link[3] == link.take(4)[3]);
        assert(is_web_link(link));
    } else if is_web_link(link) {
        assert(link.take(4) =~= "http"@);
    }
}

/// The links to the papers hold the link to each paper, one after another.
proof fn lemma_paper_links_split(ps: Seq<Paper>, k: int) -> (parts: (Seq<char>, Seq<char>))
    requires
        0 <= k < ps.len(),
    ensures
        paper_links(ps) == parts.0 + paper_link(ps[k]) + parts.1,
    decreases ps.len(),
{
    let init = ps.drop_last();
    let sep = if ps.len() > 1 {
        ", "@
    } else {
        Seq::<char>::empty()
    };
    if k == ps.len() - 1 {
        assert(paper_links(ps) =~= (paper_links(init) + sep) + paper_link(ps[k]) + Seq::<
            char,
        >::empty());
        (paper_links(init) + sep, Seq::<char>::empty())
    } else {
        let (pre, post) = lemma_paper_links_split(init, k);
        assert(init[k] == ps[k]);
        assert(paper_links(ps) =~= pre + paper_link(ps[k]) + (post + sep + paper_link(ps.last())));
        (pre, post + sep + paper_link(ps.last()))
    }
}

/// Every paper of a lecture is linked in the lecture's row: at its own
/// address where the link begins with "http", and under "papers/" where it
/// does not.
pub proof fn lemma_lecture_row_links_papers(d: int, l: Lecture, k: int)
    requires
        l.papers is Some,
        0 <= k < l.papers->Some_0@.len(),
    ensures
        ({
            let p = l.papers->Some_0@[k];
            &&& begins_with(p.link@, "http"@) ==> holds_text(
                lecture_rows(d, l),
                "<a href=\""@ + p.link@ + "\">"@ + p.title@ + "</a>"@,
            )
            &&& !begins_with(p.link@, "http"@) ==> holds_text(
                lecture_rows(d, l),
                "<a href=\"papers/"@ + p.link@ + "\">"@ + p.title@ + "</a>"@,
            )
        }),
{
    let ps = l.papers->Some_0@;
    let p = ps[k];
    let (a, b) = lemma_paper_links_split(ps, k);
    lemma_paper_link_target(p);
    let head = section_row(l.section_header) + "<tr class=\"lecture\"><td>"@ + date_label(d) + " "@
        + text_or_empty(l.instructor) + "</td>\n<td>"@ + l.title@ + "</td><td>"@ + text_or_empty(
        l.notes,
    ) + "</td>\n<td>\n"@;
    let tail = "</td>\n</tr>\n"@;
    assert(papers_cell(l.papers) == paper_links(ps));
    assert(lecture_rows(d, l) =~= (head + a) + paper_link(p) + (b + tail));
    lemma_text_parts(lecture_rows(d, l), head + a, paper_link(p), b + tail);
}

/// Whether day `d` is a meeting that can hold a lecture: the course meets
/// that day of the week, and it is neither a holiday nor an exam.
pub open spec fn lecture_slot(p: Plan, d: int) -> bool {
    p.meets.contains(weekday_of(d)) && !p.holidays.contains_key(d) && !p.exams.contains_key(d)
}

/// The number of meetings that can hold a lecture among the days from `d`
/// up to, not including, `end`.
pub open spec fn lecture_slots(p: Plan, d: int, end: int) -> nat
    decreases end - d,
{
    if d >= end {
        0
    } else {
        (if lecture_slot(p, d) { 1nat } else { 0nat }) + lecture_slots(p, d + 1, end)
    }
}

/// The smaller of two numbers.
pub open spec fn min_of(a: int, b: int) -> int {
    if a <= b { a } else { b }
}

/// Holidays and exams do not use up lectures: laying out the days from `d`
/// to `last` after `idx` lectures gives as many further lectures as there
/// are lecture slots among those days, until the lectures run out.
pub proof fn lemma_lectures_fill_lecture_slots(p: Plan, d: int, last: int, idx: int)
    requires
        0 <= idx <= p.lectures.len(),
    ensures
        rows_from(p, d, last, idx).1 == min_of(
            p.lectures.len() as int,
            idx + lecture_slots(p, d, last + 1),
        ),
    decreases last + 1 - d,
{
    if d <= last {
        let next = day_rows(p, d, idx).1;
        lemma_lectures_fill_lecture_slots(p, d + 1, last, next);
    }
}

/// Lectures are never dropped: the schedule fails exactly when there are
/// more lectures than lecture slots between the first and the last day, and
/// then it names how many are left over and the first of them.
pub proof fn lemma_excess_lectures_fail(
    p: Plan,
    first: int,
    last: int,
    events: Seq<PostClassEvent>,
)
    ensures
        schedule_outcome(p, first, last, events) is Err <==> p.lectures.len() > lecture_slots(
            p,
            first,
            listed_last_day(last) + 1,
        ),
        p.lectures.len() > lecture_slots(p, first, listed_last_day(last) + 1) ==> schedule_outcome(
            p,
            first,
            last,
            events,
        ) == Err::<Seq<char>, Seq<char>>(
            excess_lectures_message(
                (p.lectures.len() - lecture_slots(p, first, listed_last_day(last) + 1)) as nat,
                p.lectures[lecture_slots(p, first, listed_last_day(last) + 1) as int].title@,
            ),
        ),
{
    lemma_lectures_fill_lecture_slots(p, first, listed_last_day(last), 0);
}

/// Laying out the days from `a` to `last` is laying out the days before `m`,
/// then the days from `m` on with the lectures given so far.
pub proof fn lemma_rows_split(p: Plan, a: int, m: int, last: int, idx: int)
    requires
        a <= m <= last + 1,
    ensures
        ({
            let (head, given) = rows_from(p, a, m - 1, idx);
            let (tail, used) = rows_from(p, m, last, given);
            rows_from(p, a, last, idx) == (head + tail, used)
        }),
    decreases m - a,
{
    if a < m {
        let next = day_rows(p, a, idx).1;
        lemma_rows_split(p, a + 1, m, last, next);
        let (head, given) = rows_from(p, a + 1, m - 1, next);
        let (tail, used) = rows_from(p, m, last, given);
        assert(day_rows(p, a, idx).0 + (head + tail) =~= (day_rows(p, a, idx).0 + head) + tail);
    } else {
        assert(Seq::<char>::empty() + rows_from(p, m, last, idx).0 =~= rows_from(p, m, last, idx).0);
    }
}

/// An exam or a holiday leaves the following lectures on their dates: the
/// meeting on a lecture slot `d` shows lecture number `k` (counting from 0),
/// where `k` is the number of lecture slots from the first day to the day
/// before `d`, as long as there is such a lecture.
pub proof fn lemma_lecture_on_its_slot(p: Plan, first: int, last: int, d: int)
    requires
        first <= d <= last,
        lecture_slot(p, d),
        lecture_slots(p, first, d) < p.lectures.len(),
    ensures
        ({
            let k = lecture_slots(p, first, d) as int;
            rows_from(p, first, last, 0).0 == rows_from(p, first, d - 1, 0).0 + lecture_rows(
                d,
                p.lectures[k],
            ) + rows_from(p, d + 1, last, k + 1).0
        }),
{
    let k = lecture_slots(p, first, d) as int;
    lemma_rows_split(p, first, d, last, 0);
    lemma_lectures_fill_lecture_slots(p, first, d - 1, 0);
    assert(rows_from(p, first, d - 1, 0).1 == k);
    assert(day_rows(p, d, k) == (lecture_rows(d, p.lectures[k]), k + 1));
    let head = rows_from(p, first, d - 1, 0).0;
    assert(head + (lecture_rows(d, p.lectures[k]) + rows_from(p, d + 1, last, k + 1).0) =~= head
        + lecture_rows(d, p.lectures[k]) + rows_from(p, d + 1, last, k + 1).0);
}

/// Counting lecture slots up to one more day adds that day's slot.
proof fn lemma_slots_extend(p: Plan, a: int, x: int)
    requires
        a <= x,
    ensures
        lecture_slots(p, a, x + 1) == lecture_slots(p, a, x) + (if lecture_slot(p, x) {
            1nat
        } else {
            0nat
        }),
    decreases x - a,
{
    if a < x {
        lemma_slots_extend(p, a + 1, x);
    } else {
        assert(lecture_slots(p, x + 1, x + 1) == 0);
        assert(lecture_slots(p, x, x) == 0);
    }
}

/// The count of lecture slots grows with the days counted.
proof fn lemma_slots_grow(p: Plan, a: int, x: int, y: int)
    requires
        a <= x <= y,
    ensures
        lecture_slots(p, a, x) <= lecture_slots(p, a, y),
    decreases y - x,
{
    if x < y {
        lemma_slots_grow(p, a, x, y - 1);
        lemma_slots_extend(p, a, y - 1);
    }
}

proof fn find_slot(p: Plan, first: int, last: int, x: int, i: int) -> (d: int)
    requires
        first <= x <= last + 1,
        lecture_slots(p, first, x) <= i < lecture_slots(p, first, last + 1),
    ensures
        x <= d <= last,
        lecture_slot(p, d),
        lecture_slots(p, first, d) == i,
    decreases last + 1 - x,
{
    if x > last {
        assert(false);
        x
    } else {
        lemma_slots_extend(p, first, x);
        if lecture_slot(p, x) && lecture_slots(p, first, x) == i {
            x
        } else {
            find_slot(p, first, last, x + 1, i)
        }
    }
}

/// Where the schedule succeeds, every lecture is given exactly once, on its
/// own meeting: for lecture `i` there is exactly one lecture slot `d` between
/// the first and the last day with `i` lecture slots before it, and there
/// the schedule shows lecture `i` (see `lemma_lecture_on_its_slot`).
pub proof fn lemma_each_lecture_has_one_slot(
    p: Plan,
    first: int,
    last: int,
    events: Seq<PostClassEvent>,
    i: int,
)
    requires
        schedule_outcome(p, first, last, events) is Ok,
        0 <= i < p.lectures.len(),
    ensures
        exists|d: int|
            first <= d <= listed_last_day(last) && lecture_slot(p, d) && #[trigger] lecture_slots(p, first, d) == i,
        forall|d1: int, d2: int|
            first <= d1 <= listed_last_day(last) && first <= d2 <= listed_last_day(last) && lecture_slot(p, d1) && lecture_slot(p, d2)
                && #[trigger] lecture_slots(p, first, d1) == i && #[trigger] lecture_slots(
                p,
                first,
                d2,
            ) == i ==> d1 == d2,
{
    lemma_excess_lectures_fail(p, first, last, events);
    let lastx = listed_last_day(last);
    if lastx < first {
        assert(lecture_slots(p, first, lastx + 1) == 0);
    }
    let d = find_slot(p, first, lastx, first, i);
    assert forall|d1: int, d2: int|
        first <= d1 <= listed_last_day(last) && first <= d2 <= listed_last_day(last) && lecture_slot(p, d1) && lecture_slot(p, d2)
            && #[trigger] lecture_slots(p, first, d1) == i && #[trigger] lecture_slots(p, first, d2)
            == i implies d1 == d2 by {
        if d1 < d2 {
            lemma_slots_extend(p, first, d1);
            lemma_slots_grow(p, first, d1 + 1, d2);
        } else if d2 < d1 {
            lemma_slots_extend(p, first, d2);
            lemma_slots_grow(p, first, d2 + 1, d1);
        }
    }
}

/// Holidays and exams on days without a meeting make no difference: two
/// plans with the same lectures and meeting days, whose holidays and exams
/// agree on every meeting day from `d` to `last`, lay out those days alike.
pub proof fn lemma_unmet_days_ignored(p: Plan, q: Plan, d: int, last: int, idx: int)
    requires
        p.lectures == q.lectures,
        p.meets == q.meets,
        forall|x: int|
            d <= x <= last && p.meets.contains(#[trigger] weekday_of(x)) ==> {
                &&& p.holidays.contains_key(x) == q.holidays.contains_key(x)
                &&& p.holidays.contains_key(x) ==> p.holidays[x] == q.holidays[x]
                &&& p.exams.contains_key(x) == q.exams.contains_key(x)
                &&& p.exams.contains_key(x) ==> p.exams[x] == q.exams[x]
            },
    ensures
        rows_from(p, d, last, idx) == rows_from(q, d, last, idx),
    decreases last + 1 - d,
{
    if d <= last {
        let _ = weekday_of(d);
        assert(day_rows(p, d, idx) == day_rows(q, d, idx));
        lemma_unmet_days_ignored(p, q, d + 1, last, day_rows(p, d, idx).1);
    }
}

/// The whole schedule ignores holidays and exams off the meeting days between
/// the first and the last day.
pub proof fn lemma_schedule_ignores_unmet_days(
    p: Plan,
    q: Plan,
    first: int,
    last: int,
    events: Seq<PostClassEvent>,
)
    requires
        p.lectures == q.lectures,
        p.meets == q.meets,
        forall|x: int|
            first <= x <= last && p.meets.contains(#[trigger] weekday_of(x)) ==> {
                &&& p.holidays.contains_key(x) == q.holidays.contains_key(x)
                &&& p.holidays.contains_key(x) ==> p.holidays[x] == q.holidays[x]
                &&& p.exams.contains_key(x) == q.exams.contains_key(x)
                &&& p.exams.contains_key(x) ==> p.exams[x] == q.exams[x]
            },
    ensures
        schedule_outcome(p, first, last, events) == schedule_outcome(q, first, last, events),
{
    lemma_unmet_days_ignored(p, q, first, listed_last_day(last), 0);
}

/// A day has rows exactly when the course meets on it: days of the week
/// without a meeting add nothing, and every meeting adds its row.
pub proof fn lemma_rows_only_on_meetings(p: Plan, d: int, idx: int)
    ensures
        day_rows(p, d, idx).0.len() > 0 <==> p.meets.contains(weekday_of(d)),
{
    reveal_strlit("<tr class=\"noclass\"><td>");
    reveal_strlit("<tr class=\"lecture\"><td>");
    if p.meets.contains(weekday_of(d)) {
        if p.holidays.contains_key(d) {
            assert(holiday_row(d, p.holidays[d]).len() >= "<tr class=\"noclass\"><td>"@.len());
        } else if p.exams.contains_key(d) {
            assert(exam_row(d, p.exams[d]).len() >= "<tr class=\"lecture\"><td>"@.len());
        } else if idx >= p.lectures.len() {
            assert(vacant_row(d).len() >= "<tr class=\"lecture\"><td>"@.len());
        } else {
            assert(lecture_rows(d, p.lectures[idx]).len() >= "<tr class=\"lecture\"><td>"@.len());
        }
    }
}

/// The rows of each day from `d` to `last`, day by day in ascending order,
/// when `idx` lectures have been given before `d`.
pub open spec fn day_chunks(p: Plan, d: int, last: int, idx: int) -> Seq<Seq<char>>
    decreases last + 1 - d,
{
    if d > last {
        Seq::empty()
    } else {
        seq![day_rows(p, d, idx).0] + day_chunks(p, d + 1, last, day_rows(p, d, idx).1)
    }
}

/// The rows are the days' rows in ascending date order, one day after the
/// other: day `d + k` contributes its own rows given the lectures before it,
/// and those rows are not empty exactly when the course meets that day (see
/// `lemma_rows_only_on_meetings`). So each meeting day from `d` to `last`
/// has its holiday, exam, lecture or empty row, in date order, and no other
/// day has a row.
pub proof fn lemma_rows_day_by_day(p: Plan, d: int, last: int, idx: int)
    ensures
        rows_from(p, d, last, idx).0 == day_chunks(p, d, last, idx).flatten(),
        day_chunks(p, d, last, idx).len() == if d > last { 0 } else { last + 1 - d },
        forall|k: int|
            0 <= k < day_chunks(p, d, last, idx).len() ==> #[trigger] day_chunks(p, d, last, idx)[k]
                == day_rows(p, d + k, rows_from(p, d, d + k - 1, idx).1).0,
    decreases last + 1 - d,
{
    if d <= last {
        let (r, next) = day_rows(p, d, idx);
        lemma_rows_day_by_day(p, d + 1, last, next);
        let rest = day_chunks(p, d + 1, last, next);
        let all = seq![r] + rest;
        assert(all.first() == r);
        assert(all.drop_first() =~= rest);
        assert forall|k: int| 0 <= k < all.len() implies #[trigger] all[k] == day_rows(
            p,
            d + k,
            rows_from(p, d, d + k - 1, idx).1,
        ).0 by {
            if k > 0 {
                assert(all[k] == rest[k - 1]);
                assert(rows_from(p, d, d + k - 1, idx).1 == rows_from(p, d + 1, d + k - 1, next).1);
            }
        }
    }
}

} // verus!
