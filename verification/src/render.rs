//! The pages: the templates rendered with Tera over the page values.

use crate::calendar::{chrono_date_text, chrono_representable, Date};
use crate::course::{text_or_empty, Instructor};
use crate::pages::PageFields;
use chrono::Datelike;
use std::collections::BTreeMap;
use vstd::prelude::*;

verus! {

/// Tera's template engine, `tera::Tera`.
#[verifier::external_type_specification]
#[verifier::external_body]
pub struct ExTera(tera::Tera);

/// Tera's rendering context, `tera::Context`.
#[verifier::external_type_specification]
#[verifier::external_body]
pub struct ExContext(tera::Context);

/// Tera's error, `tera::Error`.
#[verifier::external_type_specification]
#[verifier::external_body]
pub struct ExTeraError(tera::Error);

/// The template texts that an engine holds, by name.
pub uninterp spec fn engine_templates(t: tera::Tera) -> Map<Seq<char>, Seq<char>>;

/// The text values that a context holds, by key.
pub uninterp spec fn context_texts(c: tera::Context) -> Map<Seq<char>, Seq<char>>;

/// The lists of records that a context holds, by key: each record maps field
/// names to optional texts.
pub uninterp spec fn context_lists(c: tera::Context) -> Map<
    Seq<char>,
    Seq<Map<Seq<char>, Option<Seq<char>>>>,
>;

/// Whether `out` is a text that Tera may give for the template `name` of an
/// engine holding `templates`, rendered with a context holding `texts` and
/// `lists`. Which texts those are is Tera's (and, through its `now`,
/// `get_random` and `get_env` functions, the clock's, chance's and the
/// environment's), so nothing more is stated of it.
pub uninterp spec fn tera_rendering(
    templates: Map<Seq<char>, Seq<char>>,
    name: Seq<char>,
    texts: Map<Seq<char>, Seq<char>>,
    lists: Map<Seq<char>, Seq<Map<Seq<char>, Option<Seq<char>>>>>,
    out: Seq<char>,
) -> bool;

/// No templates at all.
pub open spec fn no_templates() -> Map<Seq<char>, Seq<char>> {
    Map::empty()
}

/// No text values at all.
pub open spec fn no_texts() -> Map<Seq<char>, Seq<char>> {
    Map::empty()
}

/// No lists at all.
pub open spec fn no_lists() -> Map<Seq<char>, Seq<Map<Seq<char>, Option<Seq<char>>>>> {
    Map::empty()
}

/// Whether a template text holds no `{`, so no tag, expression or comment:
/// Tera parses such a text as plain text and renders it as it is.
pub open spec fn plain_template(text: Seq<char>) -> bool {
    forall|i: int| 0 <= i < text.len() ==> text[i] != '{'
}

/// Whether every template an engine holds is plain.
pub open spec fn all_plain(templates: Map<Seq<char>, Seq<char>>) -> bool {
    forall|k: Seq<char>| #[trigger] templates.contains_key(k) ==> plain_template(templates[k])
}

/// An optional text as the template sees it.
pub open spec fn optional_text(o: Option<String>) -> Option<Seq<char>> {
    match o {
        Some(s) => Some(s@),
        None => None,
    }
}

/// An instructor as the templates see it: its fields by name.
pub open spec fn instructor_record(i: Instructor) -> Map<Seq<char>, Option<Seq<char>>> {
    map![
        "name"@ => optional_text(i.name),
        "email"@ => optional_text(i.email),
        "webpage"@ => optional_text(i.webpage),
        "office"@ => optional_text(i.office),
        "hours"@ => optional_text(i.hours),
    ]
}

/// An empty rendering context (`Context::new`).
#[verifier::external_body]
fn new_context() -> (r: tera::Context)
    ensures
        context_texts(r) == no_texts(),
        context_lists(r) == no_lists(),
{
    tera::Context::new()
}

/// Puts a text value under `key` in the context (`Context::insert`), in
/// place of whatever the key held.
#[verifier::external_body]
fn insert_text(context: &mut tera::Context, key: &str, value: &str)
    ensures
        context_texts(*final(context)) == context_texts(*old(context)).insert(key@, value@),
        context_lists(*final(context)) == context_lists(*old(context)).remove(key@),
{
    context.insert(key, value);
}

/// Puts the instructors under `key` in the context (`Context::insert`), in
/// place of whatever the key held, each as a map from its field names to its
/// fields, which serialises as the instructor's own fields would.
#[verifier::external_body]
fn insert_instructors(context: &mut tera::Context, key: &str, instructors: &[Instructor])
    ensures
        context_lists(*final(context)) == context_lists(*old(context)).insert(
            key@,
            instructors@.map_values(|i: Instructor| instructor_record(i)),
        ),
        context_texts(*final(context)) == context_texts(*old(context)).remove(key@),
{
    let list: Vec<BTreeMap<&str, &Option<String>>> = instructors.iter().map(|i| BTreeMap::from([
        ("name", &i.name), ("email", &i.email), ("webpage", &i.webpage), ("office", &i.office),
        ("hours", &i.hours),
    ])).collect();
    context.insert(key, &list);
}

/// An engine with Tera's own filters, testers and functions and no template
/// (`Tera::default`).
#[verifier::external_body]
fn new_engine() -> (r: tera::Tera)
    ensures
        engine_templates(r) == no_templates(),
{
    tera::Tera::default()
}

/// Parses `text` and adds it as template `name` (`Tera::add_raw_template`).
/// Where it succeeds, the engine holds the template; where it fails, the
/// template is either left out (it did not parse) or held all the same (the
/// templates' inheritance did not check out). A plain text is accepted next
/// to plain templates: it parses, and no template extends, imports or
/// defines blocks.
#[verifier::external_body]
fn add_template(engine: &mut tera::Tera, name: &str, text: &str) -> (r: Result<(), tera::Error>)
    ensures
        r is Ok ==> engine_templates(*final(engine)) == engine_templates(*old(engine)).insert(
            name@,
            text@,
        ),
        r is Err ==> engine_templates(*final(engine)) == engine_templates(*old(engine))
            || engine_templates(*final(engine)) == engine_templates(*old(engine)).insert(
            name@,
            text@,
        ),
        plain_template(text@) && all_plain(engine_templates(*old(engine))) ==> r is Ok,
{
    engine.add_raw_template(name, text)
}

/// Renders template `name` with `context` (`Tera::render`). There is no such
/// template: an error. A plain template comes out as it is. Any text it
/// gives is one Tera may give for that template, engine and context (named
/// `tera_rendering`).
#[verifier::external_body]
fn render_template(engine: &tera::Tera, name: &str, context: &tera::Context) -> (r: Result<String, tera::Error>)
    ensures
        !engine_templates(*engine).contains_key(name@) ==> r is Err,
        engine_templates(*engine).contains_key(name@) && plain_template(
            engine_templates(*engine)[name@],
        ) ==> r is Ok && r->Ok_0@ == engine_templates(*engine)[name@],
        r is Ok ==> tera_rendering(
            engine_templates(*engine),
            name@,
            context_texts(*context),
            context_lists(*context),
            r->Ok_0@,
        ),
{
    engine.render(name, context)
}

/// The text values that the templates see, by name: the semester, the
/// meeting times, the location, the instructor list, the schedule rows and
/// the generation date.
pub open spec fn page_texts(fields: PageFields, location: Seq<char>, generated_at: Seq<char>) -> Map<
    Seq<char>,
    Seq<char>,
> {
    map![
        "semester"@ => fields.semester@,
        "meeting_times"@ => fields.meeting_times@,
        "location"@ => location,
        "syllabus_instructors"@ => fields.syllabus_instructors@,
        "schedule"@ => fields.schedule@,
        "generated_at"@ => generated_at,
    ]
}

/// The lists that the templates see: the instructors, under `instructors`.
pub open spec fn page_lists(instructors: Seq<Instructor>) -> Map<
    Seq<char>,
    Seq<Map<Seq<char>, Option<Seq<char>>>>,
> {
    map!["instructors"@ => instructors.map_values(|i: Instructor| instructor_record(i))]
}

/// The context of the pages: the page values under their names, and the
/// instructors under `instructors`.
fn page_context(fields: &PageFields, location: &str, generated_at: &str, instructors: &[Instructor]) -> (r: tera::Context)
    ensures
        context_texts(r) == page_texts(*fields, location@, generated_at@),
        context_lists(r) == page_lists(instructors@),
{
    let mut context = new_context();
    insert_text(&mut context, "semester", fields.semester.as_str());
    insert_text(&mut context, "meeting_times", fields.meeting_times.as_str());
    insert_text(&mut context, "location", location);
    insert_text(&mut context, "syllabus_instructors", fields.syllabus_instructors.as_str());
    insert_text(&mut context, "schedule", fields.schedule.as_str());
    insert_text(&mut context, "generated_at", generated_at);
    proof {
        reveal_strlit("instructors");
        reveal_strlit("semester");
        reveal_strlit("meeting_times");
        reveal_strlit("location");
        reveal_strlit("syllabus_instructors");
        reveal_strlit("schedule");
        reveal_strlit("generated_at");
        assert(context_lists(context) =~= no_lists());
        assert("instructors"@[0] != "semester"@[0]);
        assert("instructors"@[0] != "meeting_times"@[0]);
        assert("instructors"@[0] != "location"@[0]);
        assert("instructors"@[0] != "syllabus_instructors"@[0]);
        assert("instructors"@[0] != "schedule"@[0]);
        assert("instructors"@[0] != "generated_at"@[0]);
    }
    let ghost texts = context_texts(context);
    insert_instructors(&mut context, "instructors", instructors);
    proof {
        assert(texts.remove("instructors"@) =~= texts);
        assert(context_texts(context) =~= page_texts(*fields, location@, generated_at@));
        assert(context_lists(context) =~= page_lists(instructors@));
    }
    context
}

/// The name of the syllabus template.
pub open spec fn syllabus_name() -> Seq<char> {
    "syllabus_template.html"@
}

/// The name of the index template.
pub open spec fn index_name() -> Seq<char> {
    "index_template.html"@
}

/// The templates of the pages: the syllabus, and the index where there is
/// one.
pub open spec fn page_templates(syllabus: Seq<char>, index: Option<Seq<char>>) -> Map<Seq<char>, Seq<char>> {
    match index {
        Some(t) => map![syllabus_name() => syllabus, index_name() => t],
        None => map![syllabus_name() => syllabus],
    }
}

/// An optional template text as text.
pub open spec fn optional_str(o: Option<&str>) -> Option<Seq<char>> {
    match o {
        Some(s) => Some(s@),
        None => None,
    }
}

/// Renders the pages with the page values and the instructors: the syllabus
/// from `syllabus_template`, and the index from `index_template` exactly
/// where there is one. Both templates are added to one engine, the syllabus
/// first, as `syllabus_template.html` and `index_template.html`, so that one
/// may build on the other; then the syllabus is rendered, then the index. The
/// first failure is returned. Plain templates always render, as they are.
pub fn render_pages(
    syllabus_template: &str,
    index_template: Option<&str>,
    fields: &PageFields,
    location: &str,
    instructors: &[Instructor],
    generated_at: &str,
) -> (r: Result<(String, Option<String>), tera::Error>)
    ensures
        r matches Ok((_, index)) ==> (index is Some <==> index_template is Some),
        r matches Ok((syllabus, _)) ==> tera_rendering(
            page_templates(syllabus_template@, optional_str(index_template)),
            syllabus_name(),
            page_texts(*fields, location@, generated_at@),
            page_lists(instructors@),
            syllabus@,
        ),
        r matches Ok((_, Some(index))) ==> tera_rendering(
            page_templates(syllabus_template@, optional_str(index_template)),
            index_name(),
            page_texts(*fields, location@, generated_at@),
            page_lists(instructors@),
            index@,
        ),
        plain_template(syllabus_template@) && (index_template matches Some(t) ==> plain_template(
            t@,
        )) ==> r is Ok,
        r matches Ok((syllabus, _)) ==> (plain_template(syllabus_template@) ==> syllabus@
            == syllabus_template@),
        r matches Ok((_, Some(index))) ==> (plain_template(index_template->0@) ==> index@
            == index_template->0@),
{
    let context = page_context(fields, location, generated_at, instructors);
    let mut engine = new_engine();
    let syllabus_key = "syllabus_template.html";
    let index_key = "index_template.html";
    proof {
        reveal_strlit("syllabus_template.html");
        reveal_strlit("index_template.html");
        assert(syllabus_key@[0] != index_key@[0]);
    }
    match add_template(&mut engine, syllabus_key, syllabus_template) {
        Ok(()) => {},
        Err(e) => return Err(e),
    }
    assert(engine_templates(engine) =~= page_templates(syllabus_template@, None));
    match index_template {
        Some(text) => {
            match add_template(&mut engine, index_key, text) {
                Ok(()) => {},
                Err(e) => return Err(e),
            }
            assert(engine_templates(engine) =~= page_templates(syllabus_template@, Some(text@)));
        },
        None => {},
    }
    let syllabus = match render_template(&engine, syllabus_key, &context) {
        Ok(s) => s,
        Err(e) => return Err(e),
    };
    match index_template {
        Some(_) => match render_template(&engine, index_key, &context) {
            Ok(s) => Ok((syllabus, Some(s))),
            Err(e) => Err(e),
        },
        None => Ok((syllabus, None)),
    }
}

/// Today's date on the local clock, as its day number (`Local::now`, then
/// `date_naive` and `num_days_from_ce`). It depends on the clock and the time
/// zone; chrono represents it.
#[verifier::external_body]
fn local_day_number() -> (r: i32)
    ensures
        chrono_representable(r as int),
{
    chrono::Local::now().date_naive().num_days_from_ce()
}

/// Today on the local clock.
pub fn today() -> (r: Date)
    ensures
        chrono_representable(r@),
{
    let n = local_day_number();
    match Date::from_day_number(n) {
        Some(d) => d,
        None => {
            assert(false);
            Date::from_day_number(1).unwrap()
        },
    }
}

/// The generation date of the pages: today on the local clock, as a date's
/// text (`YYYY-MM-DD` for the years 0 to 9999).
pub fn generation_date() -> (r: String)
    ensures
        exists|n: int| chrono_representable(n) && r@ == chrono_date_text(n),
{
    let d = today();
    d.to_text()
}

} // verus!
