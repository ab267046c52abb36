//! The instructor list of the syllabus page.

use crate::course::Instructor;
use crate::text::{begins_with, ends_with, holds_text, lemma_text_parts};
use vstd::prelude::*;

verus! {

/// `std::fmt::Error`, the error of a formatting write.
#[verifier::external_type_specification]
#[verifier::external_body]
pub struct ExFmtError(std::fmt::Error);

/// The bold name, where given.
pub open spec fn name_part(o: Option<String>) -> Seq<char> {
    match o {
        Some(n) => "<strong>"@ + n@ + "</strong>"@,
        None => Seq::empty(),
    }
}

/// A mail link, where an address is given.
pub open spec fn email_part(o: Option<String>) -> Seq<char> {
    match o {
        Some(e) => " <a href=\"mailto:"@ + e@ + "\">"@ + e@ + "</a>"@,
        None => Seq::empty(),
    }
}

/// A link to the web page, where given.
pub open spec fn webpage_part(o: Option<String>) -> Seq<char> {
    match o {
        Some(w) => " <a href=\""@ + w@ + "\">webpage</a>"@,
        None => Seq::empty(),
    }
}

/// A line of text after a label, where the text is given.
pub open spec fn labelled_part(label: Seq<char>, o: Option<String>) -> Seq<char> {
    match o {
        Some(t) => label + t@,
        None => Seq::empty(),
    }
}

/// The list item of one instructor: the name in bold, a mail link, a link
/// to the web page, the office and the office hours, each only where given.
pub open spec fn instructor_item(i: Instructor) -> Seq<char> {
    "<li>"@ + name_part(i.name) + email_part(i.email) + webpage_part(i.webpage)
        + labelled_part("<br />Office: "@, i.office) + labelled_part(
        "<br />Office hours: "@,
        i.hours,
    ) + "</li>\n"@
}

/// The list items of all instructors, in order.
pub open spec fn instructor_items(s: Seq<Instructor>) -> Seq<char>
    decreases s.len(),
{
    if s.len() == 0 {
        Seq::empty()
    } else {
        instructor_items(s.drop_last()) + instructor_item(s.last())
    }
}

/// The whole list: the items between `<ul>` and `</ul>`.
pub open spec fn instructor_list(s: Seq<Instructor>) -> Seq<char> {
    "<ul>"@ + instructor_items(s) + "</ul>"@
}

fn push_name(out: &mut String, o: &Option<String>)
    ensures
        final(out)@ == old(out)@ + name_part(*o),
{
    match o {
        Some(n) => {
            out.append("<strong>");
            out.append(n.as_str());
            out.append("</strong>");
            assert(out@ =~= old(out)@ + name_part(*o));
        },
        None => {
            assert(out@ =~= old(out)@ + name_part(*o));
        },
    }
}

fn push_email(out: &mut String, o: &Option<String>)
    ensures
        final(out)@ == old(out)@ + email_part(*o),
{
    match o {
        Some(e) => {
            out.append(" <a href=\"mailto:");
            out.append(e.as_str());
            out.append("\">");
            out.append(e.as_str());
            out.append("</a>");
            assert(out@ =~= old(out)@ + email_part(*o));
        },
        None => {
            assert(out@ =~= old(out)@ + email_part(*o));
        },
    }
}

fn push_webpage(out: &mut String, o: &Option<String>)
    ensures
        final(out)@ == old(out)@ + webpage_part(*o),
{
    match o {
        Some(w) => {
            out.append(" <a href=\"");
            out.append(w.as_str());
            out.append("\">webpage</a>");
            assert(out@ =~= old(out)@ + webpage_part(*o));
        },
        None => {
            assert(out@ =~= old(out)@ + webpage_part(*o));
        },
    }
}

fn push_labelled(out: &mut String, label: &str, o: &Option<String>)
    ensures
        final(out)@ == old(out)@ + labelled_part(label@, *o),
{
    match o {
        Some(t) => {
            out.append(label);
            out.append(t.as_str());
            assert(out@ =~= old(out)@ + labelled_part(label@, *o));
        },
        None => {
            assert(out@ =~= old(out)@ + labelled_part(label@, *o));
        },
    }
}

fn push_instructor(out: &mut String, i: &Instructor)
    ensures
        final(out)@ == old(out)@ + instructor_item(*i),
{
    out.append("<li>");
    push_name(out, &i.name);
    push_email(out, &i.email);
    push_webpage(out, &i.webpage);
    push_labelled(out, "<br />Office: ", &i.office);
    push_labelled(out, "<br />Office hours: ", &i.hours);
    out.append("</li>\n");
    assert(out@ =~= old(out)@ + instructor_item(*i));
}

/// The HTML list of the instructors, for the syllabus page. Writing into a
/// string does not fail, so the result is always `Ok`.
pub fn instructor_html(instructors: &[Instructor]) -> (r: Result<String, std::fmt::Error>)
    ensures
        r matches Ok(html) && html@ == instructor_list(instructors@),
{
    let mut html = String::from_str("<ul>");
    let mut k: usize = 0;
    while k < instructors.len()
        invariant
            k <= instructors@.len(),
            html@ == "<ul>"@ + instructor_items(instructors@.take(k as int)),
        decreases instructors@.len() - k,
    {
        push_instructor(&mut html, &instructors[k]);
        assert(instructors@.take(k as int + 1).drop_last() =~= instructors@.take(k as int));
        k = k + 1;
    }
    assert(instructors@.take(k as int) =~= instructors@);
    html.append("</ul>");
    Ok(html)
}

/// The list holds one item per instructor, in order: `<ul>`, then the items
/// of the instructors one after another, then `</ul>`; each item opens with
/// `<li>` and closes with `</li>` and a line break.
pub proof fn lemma_one_item_per_instructor(s: Seq<Instructor>)
    ensures
        instructor_list(s) == "<ul>"@ + s.map_values(|i: Instructor| instructor_item(i)).flatten()
            + "</ul>"@,
        forall|k: int|
            0 <= k < s.len() ==> {
                let item = #[trigger] instructor_item(s[k]);
                &&& item.take(4) == "<li>"@
                &&& item.skip(item.len() - 6) == "</li>\n"@
            },
{
    reveal_strlit("<li>");
    reveal_strlit("</li>\n");
    assert forall|k: int| 0 <= k < s.len() implies {
        let item = #[trigger] instructor_item(s[k]);
        &&& item.take(4) == "<li>"@
        &&& item.skip(item.len() - 6) == "</li>\n"@
    } by {
        let i = s[k];
        let body = name_part(i.name) + email_part(i.email) + webpage_part(i.webpage)
            + labelled_part("<br />Office: "@, i.office) + labelled_part("<br />Office hours: "@, i.hours);
        assert(instructor_item(i) =~= "<li>"@ + body + "</li>\n"@);
        assert(instructor_item(i).take(4) =~= "<li>"@);
        assert(instructor_item(i).skip(instructor_item(i).len() - 6) =~= "</li>\n"@);
    }
    lemma_items_flatten(s);
}

/// Each field that is given shows in the instructor's item, whatever the
/// other fields hold: the item opens with `<li>` and the name in bold; it
/// holds the mail link, the link to the web page and the office; and it
/// closes with the office hours, or with the office where no hours are
/// given, then `</li>` and a line break.
pub proof fn lemma_item_shows_each_field(i: Instructor)
    ensures
        i.name matches Some(n) ==> begins_with(
            instructor_item(i),
            "<li>"@ + ("<strong>"@ + n@ + "</strong>"@),
        ),
        i.email matches Some(e) ==> holds_text(
            instructor_item(i),
            " <a href=\"mailto:"@ + e@ + "\">"@ + e@ + "</a>"@,
        ),
        i.webpage matches Some(w) ==> holds_text(
            instructor_item(i),
            " <a href=\""@ + w@ + "\">webpage</a>"@,
        ),
        i.office matches Some(o) ==> holds_text(instructor_item(i), "<br />Office: "@ + o@),
        i.hours is None ==> (i.office matches Some(o) ==> ends_with(
            instructor_item(i),
            "<br />Office: "@ + o@ + "</li>\n"@,
        )),
        i.hours matches Some(h) ==> ends_with(
            instructor_item(i),
            "<br />Office hours: "@ + h@ + "</li>\n"@,
        ),
{
    lemma_item_opens_with_name(i);
    lemma_item_holds_links(i);
    lemma_item_closes_with_office(i);
}

proof fn lemma_item_opens_with_name(i: Instructor)
    ensures
        i.name matches Some(n) ==> begins_with(
            instructor_item(i),
            "<li>"@ + ("<strong>"@ + n@ + "</strong>"@),
        ),
{
    if let Some(n) = i.name {
        let rest = email_part(i.email) + webpage_part(i.webpage) + labelled_part(
            "<br />Office: "@,
            i.office,
        ) + labelled_part("<br />Office hours: "@, i.hours) + "</li>\n"@;
        let head = "<li>"@ + ("<strong>"@ + n@ + "</strong>"@);
        assert(instructor_item(i) =~= Seq::<char>::empty() + head + rest);
        lemma_text_parts(instructor_item(i), Seq::<char>::empty(), head, rest);
    }
}

proof fn lemma_item_holds_links(i: Instructor)
    ensures
        i.email matches Some(e) ==> holds_text(
            instructor_item(i),
            " <a href=\"mailto:"@ + e@ + "\">"@ + e@ + "</a>"@,
        ),
        i.webpage matches Some(w) ==> holds_text(
            instructor_item(i),
            " <a href=\""@ + w@ + "\">webpage</a>"@,
        ),
        i.office matches Some(o) ==> holds_text(instructor_item(i), "<br />Office: "@ + o@),
{
    let np = name_part(i.name);
    let ep = email_part(i.email);
    let wp = webpage_part(i.webpage);
    let op = labelled_part("<br />Office: "@, i.office);
    let hp = labelled_part("<br />Office hours: "@, i.hours);
    let end = "</li>\n"@;
    if let Some(e) = i.email {
        let t = " <a href=\"mailto:"@ + e@ + "\">"@ + e@ + "</a>"@;
        assert(instructor_item(i) =~= ("<li>"@ + np) + t + (wp + op + hp + end));
        lemma_text_parts(instructor_item(i), "<li>"@ + np, t, wp + op + hp + end);
    }
    if let Some(w) = i.webpage {
        let t = " <a href=\""@ + w@ + "\">webpage</a>"@;
        assert(instructor_item(i) =~= ("<li>"@ + np + ep) + t + (op + hp + end));
        lemma_text_parts(instructor_item(i), "<li>"@ + np + ep, t, op + hp + end);
    }
    if let Some(o) = i.office {
        let t = "<br />Office: "@ + o@;
        assert(instructor_item(i) =~= ("<li>"@ + np + ep + wp) + t + (hp + end));
        lemma_text_parts(instructor_item(i), "<li>"@ + np + ep + wp, t, hp + end);
    }
}

proof fn lemma_item_closes_with_office(i: Instructor)
    ensures
        i.hours is None ==> (i.office matches Some(o) ==> ends_with(
            instructor_item(i),
            "<br />Office: "@ + o@ + "</li>\n"@,
        )),
        i.hours matches Some(h) ==> ends_with(
            instructor_item(i),
            "<br />Office hours: "@ + h@ + "</li>\n"@,
        ),
{
    let np = name_part(i.name);
    let ep = email_part(i.email);
    let wp = webpage_part(i.webpage);
    let op = labelled_part("<br />Office: "@, i.office);
    if let Some(h) = i.hours {
        let t = "<br />Office hours: "@ + h@ + "</li>\n"@;
        assert(instructor_item(i) =~= ("<li>"@ + np + ep + wp + op) + t + Seq::<char>::empty());
        lemma_text_parts(instructor_item(i), "<li>"@ + np + ep + wp + op, t, Seq::<char>::empty());
    } else if let Some(o) = i.office {
        let t = "<br />Office: "@ + o@ + "</li>\n"@;
        assert(instructor_item(i) =~= ("<li>"@ + np + ep + wp) + t + Seq::<char>::empty());
        lemma_text_parts(instructor_item(i), "<li>"@ + np + ep + wp, t, Seq::<char>::empty());
    }
}

proof fn lemma_items_flatten(s: Seq<Instructor>)
    ensures
        instructor_items(s) == s.map_values(|i: Instructor| instructor_item(i)).flatten(),
    decreases s.len(),
{
    let f = |i: Instructor| instructor_item(i);
    if s.len() == 0 {
        assert(s.map_values(f) =~= Seq::<Seq<char>>::empty());
    } else {
        lemma_items_flatten(s.drop_last());
        assert(s.map_values(f) =~= s.drop_last().map_values(f).push(instructor_item(s.last())));
        s.drop_last().map_values(f).lemma_flatten_push(instructor_item(s.last()));
    }
}

} // verus!
