use coursegen2::args::Args;
use coursegen2::calendar::{Date, Weekday};
use coursegen2::course::{Config, Exam, Holiday, Lecture, PostClassEvent};
use coursegen2::breaks::holiday_map;
use coursegen2::course::Instructor;
use coursegen2::meetings::weekday_from_str;
use coursegen2::pages::PageFields;
use coursegen2::render::render_pages;
use coursegen2::schedule::schedule_html;
use std::collections::HashMap;

fn date(year: i32, month: u32, day: u32) -> Date {
    Date::from_ymd(year, month, day).unwrap()
}

fn test_config(first_day: Date, last_day: Date, lecture: Vec<Lecture>) -> Config {
    Config {
        year: 2026,
        term: "Fall".to_owned(),
        instructor: Vec::new(),
        meets: vec!["fri".to_owned(), "mon".to_owned()],
        starts: "12:30".to_owned(),
        ends: "13:50".to_owned(),
        location: "Room".to_owned(),
        first_day,
        last_day,
        holiday: Vec::new(),
        exam: Vec::new(),
        lecture,
        post_class_event: Vec::new(),
    }
}

fn lecture(title: &str) -> Lecture {
    Lecture {
        title: title.to_owned(),
        notes: None,
        papers: None,
        section_header: None,
        instructor: None,
    }
}

#[test]
fn configuration_defaults_to_current_directory() {
    let default_config = Args::try_parse_from(vec!["coursegen2".to_owned()]);
    let explicit_config = Args::try_parse_from(vec![
        "coursegen2".to_owned(),
        "--config".to_owned(),
        "other.toml".to_owned(),
    ]);

    assert_eq!(
        default_config.ok().map(|args| args.config),
        Some("config.toml".to_owned())
    );
    assert_eq!(
        explicit_config.ok().map(|args| args.config),
        Some("other.toml".to_owned())
    );
}

#[test]
fn configured_exam_occupies_its_meeting_slot() {
    let exam_date = date(2026, 10, 9);
    let config = Config {
        year: 2026,
        term: "Fall".to_owned(),
        instructor: Vec::new(),
        meets: vec!["fri".to_owned(), "mon".to_owned()],
        starts: "12:30".to_owned(),
        ends: "13:50".to_owned(),
        location: "Room".to_owned(),
        first_day: exam_date,
        last_day: date(2026, 10, 12),
        holiday: Vec::new(),
        exam: Vec::new(),
        lecture: vec![Lecture {
            title: "After Exam".to_owned(),
            notes: None,
            papers: None,
            section_header: None,
            instructor: None,
        }],
        post_class_event: vec![PostClassEvent {
            date: date(2026, 10, 12),
            title: "Final Report Due".to_owned(),
            notes: None,
        }],
    };
    let exam = Exam {
        name: "Midterm 1".to_owned(),
        date: exam_date,
    };
    let exams = HashMap::from([(exam_date.day_number(), &exam)]);
    let meetings = [Weekday::Fri, Weekday::Mon];
    let schedule = schedule_html(&config, &HashMap::new(), &meetings, &exams);

    assert_eq!(
        schedule.ok().as_deref(),
        Some([
            "<tr class=\"lecture\"><td>Fri 10/9 </td>\n",
            "<td>Midterm 1</td><td></td>\n<td>\n</td>\n</tr>\n",
            "<tr class=\"lecture\"><td>Mon 10/12 </td>\n",
            "<td>After Exam</td><td></td>\n<td>\n</td>\n</tr>\n",
            "<tr class=\"deadline\"><td>Mon 10/12 </td>\n",
            "<td>Final Report Due</td><td></td><td></td></tr>\n"
        ].concat().as_str())
    );
}

#[test]
fn weekday_aliases_are_case_insensitive_and_invalid_values_fail() {
    assert_eq!(weekday_from_str("MONDAY"), Ok(Weekday::Mon));
    assert_eq!(weekday_from_str("tues"), Ok(Weekday::Tue));
    assert_eq!(weekday_from_str("ThUr"), Ok(Weekday::Thu));
    assert!(weekday_from_str("thrusday").is_err());
}

#[test]
fn holidays_do_not_consume_lecture_slots() {
    let friday = date(2026, 10, 9);
    let monday = date(2026, 10, 12);
    let config = test_config(friday, monday, vec![lecture("First Lecture")]);
    let holidays = HashMap::from([(friday.day_number(), "Break".to_owned())]);
    let meetings = [Weekday::Fri, Weekday::Mon];
    let schedule = schedule_html(&config, &holidays, &meetings, &HashMap::new());

    assert_eq!(
        schedule.ok().as_deref(),
        Some([
            "<tr class=\"noclass\"><td>Fri 10/9</td><td colspan=\"3\">No Class - Break</td></tr>\n",
            "<tr class=\"lecture\"><td>Mon 10/12 </td>\n",
            "<td>First Lecture</td><td></td>\n<td>\n</td>\n</tr>\n"
        ].concat().as_str())
    );
}

#[test]
fn excess_lectures_fail_instead_of_being_dropped() {
    let friday = date(2026, 10, 9);
    let config = test_config(friday, friday, vec![lecture("First"), lecture("Dropped")]);
    let meetings = [Weekday::Fri];
    let result = schedule_html(&config, &HashMap::new(), &meetings, &HashMap::new());

    assert_eq!(
        result.err().map(|error| error.to_string()),
        Some(
            "1 lecture(s) extend past the semester end; first unrendered lecture: \"Dropped\""
                .to_owned()
        )
    );
}

#[test]
fn duplicate_holiday_dates_fail_with_both_names() {
    let day = date(2026, 10, 12);
    let holidays = [
        Holiday {
            dates: vec![day],
            name: "Fall Break".to_owned(),
        },
        Holiday {
            dates: vec![day],
            name: "University Holiday".to_owned(),
        },
    ];

    assert_eq!(
        holiday_map(&holidays),
        Err(
            "duplicate holiday date 2026-10-12: \"Fall Break\" and \"University Holiday\""
                .to_owned()
        )
    );
}

fn fields(semester: &str, schedule: &str) -> PageFields {
    PageFields {
        semester: semester.to_owned(),
        meeting_times: String::new(),
        schedule: schedule.to_owned(),
        syllabus_instructors: String::new(),
    }
}

#[test]
fn tera_autoescapes_values_and_allows_explicit_safe_html() {
    let rendered = render_pages(
        "<p>{{ semester }}</p>{{ schedule | safe }}",
        None,
        &fields("Fall & 2026", "<tr><td>Lecture</td></tr>"),
        "",
        &[],
        "",
    );

    assert!(rendered.is_ok());
    assert_eq!(
        rendered.ok().map(|(syllabus, _)| syllabus).as_deref(),
        Some("<p>Fall &amp; 2026</p><tr><td>Lecture</td></tr>")
    );
}

#[test]
fn tera_renders_serialized_instructors_for_index_templates() {
    let instructors = [Instructor {
        name: Some("Ada Lovelace".to_owned()),
        email: Some("ada@example.test".to_owned()),
        webpage: None,
        office: Some("Room 101".to_owned()),
        hours: None,
    }];
    let rendered = render_pages(
        "",
        Some("{% for instructor in instructors %}{{ instructor.name }}: {{ instructor.office }}{% endfor %}"),
        &fields("", ""),
        "",
        &instructors,
        "",
    );

    assert_eq!(
        rendered.ok().and_then(|(_, index)| index).as_deref(),
        Some("Ada Lovelace: Room 101")
    );
}

#[test]
fn tera_rejects_malformed_template_syntax() {
    assert!(render_pages("{{", None, &fields("", ""), "", &[], "").is_err());
    assert!(render_pages("{{ missing }}", None, &fields("", ""), "", &[], "").is_err());
}
