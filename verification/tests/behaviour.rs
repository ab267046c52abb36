use coursegen2::args::Args;
use coursegen2::breaks::{exam_map, holiday_map};
use coursegen2::calendar::{Date, Weekday};
use coursegen2::course::{Config, Exam, Holiday, Instructor, Lecture, Paper, PostClassEvent};
use coursegen2::instructors::instructor_html;
use coursegen2::meetings::{meeting_days, weekday_from_str};
use coursegen2::pages::{meeting_times, page_fields, semester, PageFields};
use coursegen2::render::{generation_date, render_pages, today};
use coursegen2::schedule::schedule_html;
use coursegen2::text::{debug_text, push_decimal, push_signed_decimal};
use std::collections::HashMap;

fn date(year: i32, month: u32, day: u32) -> Date {
    Date::from_ymd(year, month, day).unwrap()
}

fn lecture(title: &str) -> Lecture {
    Lecture {
        title: title.to_owned(),
        notes: None,
        papers: None,
        section_header: None,
        instructor: None,
    }
}

fn config(first_day: Date, last_day: Date, meets: &[&str], lectures: Vec<Lecture>) -> Config {
    Config {
        year: 2026,
        term: "Fall".to_owned(),
        instructor: Vec::new(),
        meets: meets.iter().map(|m| m.to_string()).collect(),
        starts: "12:30".to_owned(),
        ends: "13:50".to_owned(),
        location: "Room".to_owned(),
        first_day,
        last_day,
        holiday: Vec::new(),
        exam: Vec::new(),
        lecture: lectures,
        post_class_event: Vec::new(),
    }
}

const WEEK: [Weekday; 7] = [
    Weekday::Mon,
    Weekday::Tue,
    Weekday::Wed,
    Weekday::Thu,
    Weekday::Fri,
    Weekday::Sat,
    Weekday::Sun,
];

#[test]
fn dates_report_their_calendar_parts() {
    let d = date(2026, 10, 12);
    assert_eq!(d.month(), 10);
    assert_eq!(d.day(), 12);
    assert_eq!(d.weekday(), Weekday::Mon);
    assert_eq!(d.to_text(), "2026-10-12");
    assert_eq!(date(2015, 9, 8).weekday(), Weekday::Tue);
    assert_eq!(date(1, 1, 1).day_number(), 1);
    assert_eq!(date(1999, 9, 3).day_number(), 730_000);
}

#[test]
fn impossible_dates_are_refused() {
    assert!(Date::from_ymd(2023, 4, 31).is_none());
    assert!(Date::from_ymd(2015, 2, 29).is_none());
    assert!(Date::from_ymd(2015, 0, 14).is_none());
    assert!(Date::from_ymd(400000, 1, 1).is_none());
    assert!(Date::from_day_number(100_000_000).is_none());
    assert_eq!(Date::from_day_number(730_000), Some(date(1999, 9, 3)));
}

#[test]
fn next_day_crosses_months_and_years() {
    assert_eq!(date(2026, 10, 31).succ(), Some(date(2026, 11, 1)));
    assert_eq!(date(2026, 12, 31).succ(), Some(date(2027, 1, 1)));
    assert_eq!(date(2024, 2, 28).succ(), Some(date(2024, 2, 29)));
    let d = date(2026, 3, 5);
    assert_eq!(d.succ().unwrap().day_number(), d.day_number() + 1);
}

#[test]
fn weekday_numbers_and_names() {
    for (n, w) in WEEK.iter().enumerate() {
        assert_eq!(Weekday::from_number(n as u32), *w);
    }
    assert_eq!(Weekday::Sun.short_name(), "Sun");
    assert_eq!(Weekday::Wed.short_name(), "Wed");
}

#[test]
fn abbreviations_read_back_as_their_days() {
    for w in WEEK {
        assert_eq!(weekday_from_str(w.short_name()), Ok(w));
    }
}

#[test]
fn weekday_names_ignore_case() {
    for (a, b) in [("fRiDaY", "friday"), ("WEDS", "weds"), ("Sun", "sun"), ("THURS", "thurs")] {
        assert_eq!(weekday_from_str(a), weekday_from_str(b));
        assert!(weekday_from_str(a).is_ok());
    }
    assert_eq!(weekday_from_str("Saturday"), Ok(Weekday::Sat));
    assert_eq!(weekday_from_str("wednesday"), Ok(Weekday::Wed));
}

#[test]
fn unknown_weekday_is_quoted_in_the_message() {
    assert_eq!(
        weekday_from_str("thrusday"),
        Err("config `meets`: unrecognized weekday \"thrusday\" (expected e.g. \"mon\" or \"monday\")"
            .to_owned())
    );
    assert!(weekday_from_str("").is_err());
    assert!(weekday_from_str(" mon").is_err());
}

#[test]
fn meeting_days_are_listed_once_in_order() {
    let names = vec!["mon".to_owned(), "Friday".to_owned(), "MONDAY".to_owned()];
    assert_eq!(meeting_days(&names), Ok(vec![Weekday::Mon, Weekday::Fri]));
    assert_eq!(meeting_days(&Vec::new()), Ok(Vec::new()));
}

#[test]
fn first_unknown_meeting_day_is_reported() {
    let names = vec!["mon".to_owned(), "xyz".to_owned(), "abc".to_owned()];
    assert_eq!(
        meeting_days(&names),
        Err("config `meets`: unrecognized weekday \"xyz\" (expected e.g. \"mon\" or \"monday\")"
            .to_owned())
    );
}

#[test]
fn instructor_list_shows_given_fields_only() {
    let instructors = [
        Instructor {
            name: Some("Ada Lovelace".to_owned()),
            email: Some("ada@example.test".to_owned()),
            webpage: None,
            office: Some("Room 101".to_owned()),
            hours: None,
        },
        Instructor {
            name: None,
            email: None,
            webpage: Some("https://example.test".to_owned()),
            office: None,
            hours: Some("Tue 3pm".to_owned()),
        },
    ];
    assert_eq!(
        instructor_html(&instructors).unwrap(),
        [
            "<ul><li><strong>Ada Lovelace</strong> <a href=\"mailto:ada@example.test\">",
            "ada@example.test</a><br />Office: Room 101</li>\n",
            "<li> <a href=\"https://example.test\">webpage</a><br />Office hours: Tue 3pm</li>\n",
            "</ul>"
        ].concat().as_str()
    );
    assert_eq!(instructor_html(&[]).unwrap(), "<ul></ul>");
}

#[test]
fn holiday_map_names_every_date() {
    let a = date(2026, 11, 26);
    let b = date(2026, 11, 27);
    let c = date(2026, 9, 7);
    let holidays = [
        Holiday { dates: vec![a, b], name: "Thanksgiving".to_owned() },
        Holiday { dates: vec![c], name: "Labor Day".to_owned() },
    ];
    let m = holiday_map(&holidays).unwrap();
    assert_eq!(m.len(), 3);
    assert_eq!(m.get(&a.day_number()).map(|s| s.as_str()), Some("Thanksgiving"));
    assert_eq!(m.get(&b.day_number()).map(|s| s.as_str()), Some("Thanksgiving"));
    assert_eq!(m.get(&c.day_number()).map(|s| s.as_str()), Some("Labor Day"));
}

#[test]
fn holiday_date_repeated_within_one_holiday_fails() {
    let a = date(2026, 11, 26);
    let holidays = [Holiday { dates: vec![a, a], name: "Thanks\"giving".to_owned() }];
    assert_eq!(
        holiday_map(&holidays),
        Err("duplicate holiday date 2026-11-26: \"Thanks\\\"giving\" and \"Thanks\\\"giving\"".to_owned())
    );
}

#[test]
fn later_exam_on_a_date_wins() {
    let d = date(2026, 10, 9);
    let exams = [
        Exam { name: "First".to_owned(), date: d },
        Exam { name: "Second".to_owned(), date: d },
        Exam { name: "Other".to_owned(), date: date(2026, 12, 4) },
    ];
    let m = exam_map(&exams);
    assert_eq!(m.len(), 2);
    assert_eq!(m.get(&d.day_number()).map(|e| e.name.as_str()), Some("Second"));
}

#[test]
fn lectures_show_instructor_notes_section_and_papers() {
    let monday = date(2026, 10, 12);
    let mut first = lecture("Intro");
    first.section_header = Some("Part I".to_owned());
    first.instructor = Some("AL".to_owned());
    first.notes = Some("Read ahead".to_owned());
    first.papers = Some(vec![
        Paper { title: "Web".to_owned(), link: "https://example.test/p.pdf".to_owned() },
        Paper { title: "Local".to_owned(), link: "local.pdf".to_owned() },
        Paper { title: "Short".to_owned(), link: "htt".to_owned() },
    ]);
    let cfg = config(monday, monday, &["mon"], vec![first]);
    let schedule = schedule_html(&cfg, &HashMap::new(), &[Weekday::Mon], &HashMap::new());
    assert_eq!(
        schedule.unwrap(),
        [
            "<tr class=\"lechead\"><td class=\"lechead\" colspan=\"4\">Part I</td></tr>\n",
            "<tr class=\"lecture\"><td>Mon 10/12 AL</td>\n",
            "<td>Intro</td><td>Read ahead</td>\n<td>\n",
            "<a href=\"https://example.test/p.pdf\">Web</a>, ",
            "<a href=\"papers/local.pdf\">Local</a>, ",
            "<a href=\"papers/htt\">Short</a>",
            "</td>\n</tr>\n"
        ].concat().as_str()
    );
}

#[test]
fn meetings_after_the_last_lecture_are_empty_and_other_days_skipped() {
    let monday = date(2026, 10, 12);
    let thursday = date(2026, 10, 15);
    let cfg = config(monday, thursday, &["mon", "wed"], vec![lecture("Only")]);
    let schedule = schedule_html(&cfg, &HashMap::new(), &[Weekday::Mon, Weekday::Wed], &HashMap::new());
    assert_eq!(
        schedule.unwrap(),
        [
            "<tr class=\"lecture\"><td>Mon 10/12 </td>\n",
            "<td>Only</td><td></td>\n<td>\n</td>\n</tr>\n",
            "<tr class=\"lecture\"><td>Wed 10/14</td><td></td><td></td><td></td></tr>\n"
        ].concat().as_str()
    );
}

#[test]
fn empty_semester_with_no_lectures_lists_only_events() {
    let monday = date(2026, 10, 12);
    let sunday = date(2026, 10, 11);
    let mut cfg = config(monday, sunday, &["mon"], Vec::new());
    cfg.post_class_event = vec![PostClassEvent {
        date: date(2026, 12, 18),
        title: "Report".to_owned(),
        notes: Some("by noon".to_owned()),
    }];
    let schedule = schedule_html(&cfg, &HashMap::new(), &[Weekday::Mon], &HashMap::new());
    assert_eq!(
        schedule.unwrap(),
        "<tr class=\"deadline\"><td>Fri 12/18 </td>\n<td>Report</td><td>by noon</td><td></td></tr>\n"
    );
}

#[test]
fn exam_and_holiday_leave_lectures_on_the_free_meetings() {
    // Meetings on Mon 10/5, Fri 10/9, Mon 10/12, Fri 10/16; a holiday on
    // 10/9 and an exam on 10/12 leave two slots for the two lectures.
    let first = date(2026, 10, 5);
    let last = date(2026, 10, 16);
    let cfg = config(first, last, &["mon", "fri"], vec![lecture("A"), lecture("B")]);
    let holidays = HashMap::from([(date(2026, 10, 9).day_number(), "Break".to_owned())]);
    let exam = Exam { name: "Midterm".to_owned(), date: date(2026, 10, 12) };
    let exams = HashMap::from([(exam.date.day_number(), &exam)]);
    let schedule = schedule_html(&cfg, &holidays, &[Weekday::Mon, Weekday::Fri], &exams).unwrap();
    assert_eq!(
        schedule,
        [
            "<tr class=\"lecture\"><td>Mon 10/5 </td>\n<td>A</td><td></td>\n<td>\n</td>\n</tr>\n",
            "<tr class=\"noclass\"><td>Fri 10/9</td><td colspan=\"3\">No Class - Break</td></tr>\n",
            "<tr class=\"lecture\"><td>Mon 10/12 </td>\n<td>Midterm</td><td></td>\n<td>\n</td>\n</tr>\n",
            "<tr class=\"lecture\"><td>Fri 10/16 </td>\n<td>B</td><td></td>\n<td>\n</td>\n</tr>\n"
        ].concat().as_str()
    );
    let with_third = config(first, last, &["mon", "fri"], vec![lecture("A"), lecture("B"), lecture("C \"x\"")]);
    assert_eq!(
        schedule_html(&with_third, &holidays, &[Weekday::Mon, Weekday::Fri], &exams),
        Err("1 lecture(s) extend past the semester end; first unrendered lecture: \"C \\\"x\\\"\"".to_owned())
    );
}

#[test]
fn numerals_and_quotes() {
    let mut s = String::new();
    push_decimal(&mut s, 0);
    s.push(' ');
    push_decimal(&mut s, 1234567890);
    s.push(' ');
    push_signed_decimal(&mut s, -42);
    s.push(' ');
    push_signed_decimal(&mut s, i64::MIN);
    assert_eq!(s, "0 1234567890 -42 -9223372036854775808");
    assert_eq!(debug_text("a\"b\\c\n"), "\"a\\\"b\\\\c\\n\"");
}

#[test]
fn semester_and_meeting_times_labels() {
    assert_eq!(semester("Fall", 2026), "Fall 2026");
    assert_eq!(semester("Spring", -5), "Spring -5");
    let meets = vec!["mon".to_owned(), "wed".to_owned(), "fri".to_owned()];
    assert_eq!(meeting_times(&meets, "12:30", "13:50"), "mon/wed/fri 12:30-13:50");
    assert_eq!(meeting_times(&Vec::new(), "9", "10"), " 9-10");
}

#[test]
fn page_fields_of_a_configuration() {
    let first = date(2026, 10, 9);
    let last = date(2026, 10, 12);
    let mut cfg = config(first, last, &["Fri", "monday"], vec![lecture("After Exam")]);
    cfg.exam = vec![Exam { name: "Midterm 1".to_owned(), date: first }];
    cfg.instructor = vec![Instructor {
        name: Some("Ada".to_owned()),
        email: None,
        webpage: None,
        office: None,
        hours: None,
    }];
    let fields = page_fields(&cfg).unwrap();
    assert_eq!(fields.semester, "Fall 2026");
    assert_eq!(fields.meeting_times, "Fri/monday 12:30-13:50");
    assert_eq!(fields.syllabus_instructors, "<ul><li><strong>Ada</strong></li>\n</ul>");
    assert_eq!(
        fields.schedule,
        [
            "<tr class=\"lecture\"><td>Fri 10/9 </td>\n",
            "<td>Midterm 1</td><td></td>\n<td>\n</td>\n</tr>\n",
            "<tr class=\"lecture\"><td>Mon 10/12 </td>\n",
            "<td>After Exam</td><td></td>\n<td>\n</td>\n</tr>\n"
        ].concat().as_str()
    );
}

#[test]
fn page_fields_report_the_first_failure() {
    let first = date(2026, 10, 9);
    let mut cfg = config(first, first, &["sometimes"], vec![lecture("A"), lecture("B")]);
    cfg.holiday = vec![
        Holiday { dates: vec![first], name: "One".to_owned() },
        Holiday { dates: vec![first], name: "Two".to_owned() },
    ];
    assert_eq!(
        page_fields(&cfg).err(),
        Some("duplicate holiday date 2026-10-09: \"One\" and \"Two\"".to_owned())
    );
    cfg.holiday.pop();
    assert_eq!(
        page_fields(&cfg).err(),
        Some("config `meets`: unrecognized weekday \"sometimes\" (expected e.g. \"mon\" or \"monday\")"
            .to_owned())
    );
    cfg.meets = vec!["fri".to_owned()];
    cfg.holiday.clear();
    assert_eq!(
        page_fields(&cfg).err(),
        Some("1 lecture(s) extend past the semester end; first unrendered lecture: \"B\"".to_owned())
    );
}

#[test]
fn command_line_options() {
    let short = Args::try_parse_from(vec!["coursegen2".to_owned(), "-c".to_owned(), "x.toml".to_owned()]);
    assert_eq!(short.ok().map(|a| a.config), Some("x.toml".to_owned()));
    let joined = Args::try_parse_from(vec!["coursegen2".to_owned(), "--config=y.toml".to_owned()]);
    assert_eq!(joined.ok().map(|a| a.config), Some("y.toml".to_owned()));
    let unknown = Args::try_parse_from(vec!["coursegen2".to_owned(), "--nope".to_owned()]);
    let e = unknown.err().unwrap();
    assert!(e.to_stderr);
    assert_eq!(e.exit_code, 2);
    let version = Args::try_parse_from(vec!["coursegen2".to_owned(), "--version".to_owned()]);
    let v = version.err().unwrap();
    assert!(!v.to_stderr);
    assert_eq!(v.exit_code, 0);
    assert!(v.message.contains("0.1.0"));
}

#[test]
fn representable_days_run_from_chrono_first_to_last_date() {
    assert!(Date::from_day_number(-95746129).is_some());
    assert!(Date::from_day_number(-95746130).is_none());
    assert!(Date::from_day_number(95745399).is_some());
    assert!(Date::from_day_number(95745400).is_none());
    assert!(Date::from_day_number(95745399).unwrap().succ().is_none());
    assert!(Date::from_day_number(95745398).unwrap().succ().is_some());
    assert_eq!(Date::from_day_number(0).unwrap().to_text(), "0000-12-31");
}

#[test]
fn weekdays_advance_one_per_day() {
    let mut d = date(2026, 10, 12);
    for k in 0..30u32 {
        assert_eq!(d.weekday(), Weekday::from_number(k % 7));
        d = d.succ().unwrap();
    }
    assert_eq!(date(1, 1, 1).weekday(), Weekday::Mon);
    assert_eq!(Date::from_day_number(-95746129).unwrap().weekday(), Weekday::from_number(((-95746129i64 - 1).rem_euclid(7)) as u32));
}

#[test]
fn plain_text_is_quoted_as_it_is() {
    assert_eq!(debug_text("Dropped 1'x"), "\"Dropped 1'x\"");
    assert_eq!(debug_text(""), "\"\"");
    assert_eq!(debug_text("é\t"), "\"é\\t\"");
}

#[test]
fn names_with_non_ascii_letters_name_no_day() {
    assert!(weekday_from_str("MÖN").is_err());
    assert!(weekday_from_str("mön").is_err());
    assert!(weekday_from_str("\u{212A}").is_err());
}

#[test]
fn help_shows_the_config_value_name() {
    let help = Args::try_parse_from(vec!["coursegen2".to_owned(), "--help".to_owned()]);
    let e = help.err().unwrap();
    assert!(!e.to_stderr);
    assert!(e.message.contains("--config <CONFIG>"));
    let missing = Args::try_parse_from(vec!["coursegen2".to_owned(), "--config".to_owned()]);
    assert!(missing.is_err());
}

fn page(semester: &str) -> PageFields {
    PageFields {
        semester: semester.to_owned(),
        meeting_times: "mon 9-10".to_owned(),
        schedule: "<tr></tr>".to_owned(),
        syllabus_instructors: "<ul></ul>".to_owned(),
    }
}

#[test]
fn pages_show_every_value_and_index_only_with_its_template() {
    let template = "{{ semester }}|{{ meeting_times }}|{{ location }}|{{ syllabus_instructors | safe }}|{{ schedule | safe }}|{{ generated_at }}";
    let (syllabus, index) = render_pages(template, None, &page("Fall"), "Room 1", &[], "2026-01-02").unwrap();
    assert_eq!(syllabus, "Fall|mon 9-10|Room 1|<ul></ul>|<tr></tr>|2026-01-02");
    assert_eq!(index, None);
    let (plain, index) = render_pages("no tags here", Some("{{ semester }}!"), &page("Spring"), "", &[], "").unwrap();
    assert_eq!(plain, "no tags here");
    assert_eq!(index.as_deref(), Some("Spring!"));
}

#[test]
fn index_may_build_on_the_syllabus_template() {
    let (_, index) = render_pages(
        "A{% block b %}1{% endblock b %}",
        Some("{% extends \"syllabus_template.html\" %}{% block b %}2{% endblock b %}"),
        &page(""),
        "",
        &[],
        "",
    )
    .unwrap();
    assert_eq!(index.as_deref(), Some("A2"));
}

#[test]
fn first_failing_template_is_reported() {
    let e = render_pages("{{", Some("{%"), &page(""), "", &[], "").err().unwrap();
    assert!(format!("{e:?}").contains("syllabus_template.html"));
    assert!(render_pages("ok", Some("{{ nothing_here }}"), &page(""), "", &[], "").is_err());
}

#[test]
fn generation_date_is_year_month_day() {
    assert_eq!(generation_date(), today().to_text());
    let d = generation_date();
    let b = d.as_bytes();
    assert_eq!(b.len(), 10);
    assert_eq!((b[4], b[7]), (b'-', b'-'));
    assert!(d.chars().filter(|c| *c != '-').all(|c| c.is_ascii_digit()));
}

#[test]
fn chrono_last_date_is_never_walked() {
    let last = Date::from_day_number(95745399).unwrap();
    let w = last.weekday();
    let cfg = config(last, last, &["mon"], Vec::new());
    assert_eq!(schedule_html(&cfg, &HashMap::new(), &[w], &HashMap::new()), Ok(String::new()));
    let before = Date::from_day_number(95745398).unwrap();
    let cfg = config(before, last, &["mon"], Vec::new());
    let s = schedule_html(&cfg, &HashMap::new(), &[before.weekday(), w], &HashMap::new()).unwrap();
    assert_eq!(s.matches("<tr").count(), 1);
}

#[test]
fn calendar_dates_from_year_month_day() {
    assert_eq!(Date::from_ymd(-262143, 1, 1).map(|d| d.day_number()), Some(-95746129));
    assert_eq!(Date::from_ymd(262142, 12, 31).map(|d| d.day_number()), Some(95745399));
    assert!(Date::from_ymd(-262144, 12, 31).is_none());
    assert!(Date::from_ymd(262143, 1, 1).is_none());
    assert!(Date::from_ymd(2000, 2, 29).is_some());
    assert!(Date::from_ymd(1900, 2, 29).is_none());
    assert!(Date::from_ymd(2026, 13, 1).is_none());
    assert!(Date::from_ymd(2026, 4, 31).is_none());
    assert_eq!(date(5, 3, 7).to_text(), "0005-03-07");
    assert_eq!(date(-1, 1, 1).to_text(), "-0001-01-01");
    assert_eq!(date(10000, 12, 31).to_text(), "+10000-12-31");
}

#[test]
fn instructors_reach_the_templates_by_field() {
    let instructors = [
        Instructor {
            name: Some("Ada".to_owned()),
            email: None,
            webpage: Some("https://a.test".to_owned()),
            office: None,
            hours: Some("Mon".to_owned()),
        },
        Instructor { name: None, email: Some("b@x.test".to_owned()), webpage: None, office: None, hours: None },
    ];
    let (syllabus, _) = render_pages(
        "{% for i in instructors %}[{{ i.name | default(value='-') }};{{ i.email | default(value='-') }};{{ i.webpage | default(value='-') }};{{ i.hours | default(value='-') }}]{% endfor %}",
        None,
        &page(""),
        "",
        &instructors,
        "",
    )
    .unwrap();
    assert_eq!(syllabus, "[Ada;-;https:&#x2F;&#x2F;a.test;Mon][-;b@x.test;-;-]");
}
