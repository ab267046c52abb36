//! The course configuration: term, instructors, meeting days, holidays,
//! exams, lectures and the events after the last class.

use crate::calendar::Date;
use vstd::prelude::*;

verus! {

/// One instructor; every field may be left out.
#[derive(Debug)]
pub struct Instructor {
    pub name: Option<String>,
    pub email: Option<String>,
    pub webpage: Option<String>,
    pub office: Option<String>,
    pub hours: Option<String>,
}

/// A reading for a lecture: its title and where it is found.
#[derive(Debug)]
pub struct Paper {
    pub title: String,
    pub link: String,
}

/// One lecture, in the order in which lectures are given.
#[derive(Debug)]
pub struct Lecture {
    pub title: String,
    pub notes: Option<String>,
    pub papers: Option<Vec<Paper>>,
    pub section_header: Option<String>,
    pub instructor: Option<String>,
}

/// A break: no class on any of its dates.
#[derive(Debug)]
pub struct Holiday {
    pub dates: Vec<Date>,
    pub name: String,
}

/// An exam held in the class meeting of its date.
#[derive(Debug)]
pub struct Exam {
    pub name: String,
    pub date: Date,
}

/// An entry listed after the lectures, such as a deadline.
#[derive(Debug)]
pub struct PostClassEvent {
    pub date: Date,
    pub title: String,
    pub notes: Option<String>,
}

/// A course's configuration.
#[derive(Debug)]
pub struct Config {
    pub year: i32,
    pub term: String,
    pub instructor: Vec<Instructor>,
    pub meets: Vec<String>,
    pub starts: String,
    pub ends: String,
    pub location: String,
    pub first_day: Date,
    pub last_day: Date,
    pub holiday: Vec<Holiday>,
    pub exam: Vec<Exam>,
    pub lecture: Vec<Lecture>,
    pub post_class_event: Vec<PostClassEvent>,
}

/// The text of an optional string: empty where it is left out.
pub open spec fn text_or_empty(o: Option<String>) -> Seq<char> {
    match o {
        Some(s) => s@,
        None => Seq::empty(),
    }
}

} // verus!
