//! The days of the week on which a course meets, read from their names.

use crate::calendar::Weekday;
use crate::text::{debug_quoted, debug_text, push_char};
use vstd::prelude::*;

verus! {

/// A character with ASCII capitals turned into small letters.
pub open spec fn ascii_lower(c: char) -> char {
    if 'A' <= c && c <= 'Z' {
        ((c as int) + 32) as char
    } else {
        c
    }
}

/// A text with ASCII capitals turned into small letters.
pub open spec fn lowered(s: Seq<char>) -> Seq<char> {
    s.map_values(|c: char| ascii_lower(c))
}

/// The day that a small-letter name stands for: the three-letter
/// abbreviation, the full name, and "tues", "weds", "thur" and "thurs".
pub open spec fn weekday_alias(t: Seq<char>) -> Option<Weekday> {
    if t == "mon"@ || t == "monday"@ {
        Some(Weekday::Mon)
    } else if t == "tue"@ || t == "tues"@ || t == "tuesday"@ {
        Some(Weekday::Tue)
    } else if t == "wed"@ || t == "weds"@ || t == "wednesday"@ {
        Some(Weekday::Wed)
    } else if t == "thu"@ || t == "thur"@ || t == "thurs"@ || t == "thursday"@ {
        Some(Weekday::Thu)
    } else if t == "fri"@ || t == "friday"@ {
        Some(Weekday::Fri)
    } else if t == "sat"@ || t == "saturday"@ {
        Some(Weekday::Sat)
    } else if t == "sun"@ || t == "sunday"@ {
        Some(Weekday::Sun)
    } else {
        None
    }
}

/// The day that a name stands for, capitals and small letters alike.
pub open spec fn named_weekday(s: Seq<char>) -> Option<Weekday> {
    weekday_alias(lowered(s))
}

/// The message for a name that stands for no day.
pub open spec fn unrecognized_weekday_message(s: Seq<char>) -> Seq<char> {
    "config `meets`: unrecognized weekday "@ + debug_quoted(s) + " (expected e.g. \"mon\" or \"monday\")"@
}

fn lower_char(c: char) -> (r: char)
    ensures
        r == ascii_lower(c),
{
    if 'A' <= c && c <= 'Z' {
        ((c as u8) + 32) as char
    } else {
        c
    }
}

fn lowered_text(s: &str) -> (r: String)
    ensures
        r@ == lowered(s@),
{
    let n = s.unicode_len();
    let mut out = String::new();
    let mut k: usize = 0;
    while k < n
        invariant
            n == s@.len(),
            k <= n,
            out@ == lowered(s@.take(k as int)),
        decreases n - k,
    {
        let c = s.get_char(k);
        push_char(&mut out, lower_char(c));
        assert(lowered(s@.take(k as int + 1)) =~= lowered(s@.take(k as int)).push(ascii_lower(c)));
        k = k + 1;
    }
    assert(s@.take(n as int) =~= s@);
    out
}

fn is_one_of(t: &String, names: &[&str]) -> (r: bool)
    ensures
        r <==> exists|i: int| 0 <= i < names@.len() && t@ == (#[trigger] names@[i])@,
{
    let mut k: usize = 0;
    while k < names.len()
        invariant
            k <= names@.len(),
            forall|i: int| 0 <= i < k ==> t@ != (#[trigger] names@[i])@,
        decreases names@.len() - k,
    {
        let candidate = String::from_str(names[k]);
        if *t == candidate {
            return true;
        }
        k = k + 1;
    }
    false
}

/// The day of the week that `s` names: "mon" or "monday" and the like,
/// without regard to case. Any other text is refused with a message that
/// quotes it.
pub fn weekday_from_str(s: &str) -> (r: Result<Weekday, String>)
    ensures
        match r {
            Ok(w) => named_weekday(s@) == Some(w),
            Err(e) => named_weekday(s@) is None && e@ == unrecognized_weekday_message(s@),
        },
{
    let t = lowered_text(s);
    let ghost l = lowered(s@);
    if is_one_of(&t, &["mon", "monday"]) {
        Ok(Weekday::Mon)
    } else if is_one_of(&t, &["tue", "tues", "tuesday"]) {
        Ok(Weekday::Tue)
    } else if is_one_of(&t, &["wed", "weds", "wednesday"]) {
        Ok(Weekday::Wed)
    } else if is_one_of(&t, &["thu", "thur", "thurs", "thursday"]) {
        Ok(Weekday::Thu)
    } else if is_one_of(&t, &["fri", "friday"]) {
        Ok(Weekday::Fri)
    } else if is_one_of(&t, &["sat", "saturday"]) {
        Ok(Weekday::Sat)
    } else if is_one_of(&t, &["sun", "sunday"]) {
        Ok(Weekday::Sun)
    } else {
        let mut e = String::from_str("config `meets`: unrecognized weekday ");
        let q = debug_text(s);
        e.append(q.as_str());
        e.append(" (expected e.g. \"mon\" or \"monday\")");
        Err(e)
    }
}

/// The days named by a list of names, as a set, or the message for the
/// first name that stands for no day.
pub open spec fn meeting_days_outcome(names: Seq<Seq<char>>) -> Result<Set<Weekday>, Seq<char>>
    decreases names.len(),
{
    if names.len() == 0 {
        Ok(Set::empty())
    } else {
        match meeting_days_outcome(names.drop_last()) {
            Err(e) => Err(e),
            Ok(days) => match named_weekday(names.last()) {
                Some(w) => Ok(days.insert(w)),
                None => Err(unrecognized_weekday_message(names.last())),
            },
        }
    }
}

/// Once a prefix of the names holds one that stands for no day, so does the
/// whole list, with the same message.
proof fn lemma_outcome_error_stays(names: Seq<Seq<char>>, k: int)
    requires
        0 <= k <= names.len(),
        meeting_days_outcome(names.take(k)) is Err,
    ensures
        meeting_days_outcome(names) == meeting_days_outcome(names.take(k)),
    decreases names.len() - k,
{
    if k == names.len() {
        assert(names.take(k) =~= names);
    } else {
        assert(names.take(k + 1).drop_last() =~= names.take(k));
        lemma_outcome_error_stays(names, k + 1);
    }
}

/// The days of the week that the names in `meets` stand for, each listed
/// once; or the message for the first name that stands for no day.
pub fn meeting_days(meets: &Vec<String>) -> (r: Result<Vec<Weekday>, String>)
    ensures
        match r {
            Ok(days) => {
                &&& meeting_days_outcome(meets.deep_view()) == Ok::<Set<Weekday>, Seq<char>>(days@.to_set())
                &&& days@.no_duplicates()
            },
            Err(e) => meeting_days_outcome(meets.deep_view()) == Err::<Set<Weekday>, Seq<char>>(e@),
        },
{
    let mut days: Vec<Weekday> = Vec::new();
    let mut k: usize = 0;
    assert(days@.to_set() =~= Set::<Weekday>::empty());
    assert(meets.deep_view().take(0) =~= Seq::<Seq<char>>::empty());
    while k < meets.len()
        invariant
            k <= meets@.len(),
            meeting_days_outcome(meets.deep_view().take(k as int)) == Ok::<Set<Weekday>, Seq<char>>(days@.to_set()),
            days@.no_duplicates(),
        decreases meets@.len() - k,
    {
        let ghost prefix = meets.deep_view().take(k as int);
        assert(meets.deep_view().take(k as int + 1).drop_last() =~= prefix);
        assert(meets.deep_view().take(k as int + 1).last() == meets@[k as int]@);
        match weekday_from_str(meets[k].as_str()) {
            Ok(w) => {
                let mut seen = false;
                let mut j: usize = 0;
                while j < days.len()
                    invariant
                        j <= days@.len(),
                        seen <==> exists|i: int| 0 <= i < j && days@[i] == w,
                    decreases days@.len() - j,
                {
                    if days[j] == w {
                        seen = true;
                    }
                    j = j + 1;
                }
                let ghost before = days@;
                if !seen {
                    days.push(w);
                    proof {
                        before.lemma_push_to_set_commute(w);
                        assert(!before.contains(w));
                    }
                } else {
                    proof {
                        let i = choose|i: int| 0 <= i < before.len() && before[i] == w;
                        assert(before.contains(w));
                        assert(before.to_set() =~= before.to_set().insert(w));
                    }
                }
            },
            Err(e) => {
                proof {
                    lemma_outcome_error_stays(meets.deep_view(), k as int + 1);
                }
                return Err(e);
            },
        }
        k = k + 1;
    }
    assert(meets.deep_view().take(k as int) =~= meets.deep_view());
    Ok(days)
}

/// Every name in the list stands for a meeting day: where the meeting days
/// are read, the day that each name stands for is among them.
pub proof fn lemma_named_days_meet(names: Seq<Seq<char>>, m: int)
    requires
        meeting_days_outcome(names) is Ok,
        0 <= m < names.len(),
    ensures
        named_weekday(names[m]) is Some,
        meeting_days_outcome(names)->Ok_0.contains(named_weekday(names[m])->Some_0),
    decreases names.len(),
{
    let init = names.drop_last();
    if m < names.len() - 1 {
        assert(init[m] == names[m]);
        lemma_named_days_meet(init, m);
    }
}

/// Weekday names are read without regard to case: two names that differ
/// only in the case of their ASCII letters stand for the same day, or both
/// for none.
pub proof fn lemma_weekday_names_ignore_case(s: Seq<char>, t: Seq<char>)
    requires
        lowered(s) == lowered(t),
    ensures
        named_weekday(s) == named_weekday(t),
{
}

/// The printed abbreviation of a day ("Mon", "Tue", ...) is a name of that
/// day: the schedule's day labels read back as the days they label.
pub proof fn lemma_abbreviation_names_its_day(w: Weekday)
    ensures
        named_weekday(w.abbreviation()) == Some(w),
{
    reveal_strlit("mon");
    reveal_strlit("monday");
    reveal_strlit("tue");
    reveal_strlit("tues");
    reveal_strlit("tuesday");
    reveal_strlit("wed");
    reveal_strlit("weds");
    reveal_strlit("wednesday");
    reveal_strlit("thu");
    reveal_strlit("thur");
    reveal_strlit("thurs");
    reveal_strlit("thursday");
    reveal_strlit("fri");
    reveal_strlit("friday");
    reveal_strlit("sat");
    reveal_strlit("saturday");
    reveal_strlit("sun");
    reveal_strlit("sunday");
    reveal_strlit("Mon");
    reveal_strlit("Tue");
    reveal_strlit("Wed");
    reveal_strlit("Thu");
    reveal_strlit("Fri");
    reveal_strlit("Sat");
    reveal_strlit("Sun");
    let a = w.abbreviation();
    match w {
        Weekday::Mon => {
            assert(ascii_lower('M') == 'm');
            assert(lowered(a) =~= "mon"@);
            assert(weekday_alias("mon"@) == Some(Weekday::Mon));
        },
        Weekday::Tue => {
            assert(ascii_lower('T') == 't');
            assert(lowered(a) =~= "tue"@);
            assert("tue"@[0] != "mon"@[0]);
            assert(weekday_alias("tue"@) == Some(Weekday::Tue));
        },
        Weekday::Wed => {
            assert(ascii_lower('W') == 'w');
            assert(lowered(a) =~= "wed"@);
            assert("wed"@[0] != "mon"@[0]);
            assert("wed"@[0] != "tue"@[0]);
            assert(weekday_alias("wed"@) == Some(Weekday::Wed));
        },
        Weekday::Thu => {
            assert(ascii_lower('T') == 't');
            assert(lowered(a) =~= "thu"@);
            assert("thu"@[0] != "mon"@[0]);
            assert("thu"@[1] != "tue"@[1]);
            assert("thu"@[0] != "wed"@[0]);
            assert(weekday_alias("thu"@) == Some(Weekday::Thu));
        },
        Weekday::Fri => {
            assert(ascii_lower('F') == 'f');
            assert(lowered(a) =~= "fri"@);
            assert("fri"@[0] != "mon"@[0]);
            assert("fri"@[0] != "tue"@[0]);
            assert("fri"@[0] != "wed"@[0]);
            assert("fri"@[0] != "thu"@[0]);
            assert(weekday_alias("fri"@) == Some(Weekday::Fri));
        },
        Weekday::Sat => {
            assert(ascii_lower('S') == 's');
            assert(lowered(a) =~= "sat"@);
            assert("sat"@[0] != "mon"@[0]);
            assert("sat"@[0] != "tue"@[0]);
            assert("sat"@[0] != "wed"@[0]);
            assert("sat"@[0] != "thu"@[0]);
            assert("sat"@[0] != "fri"@[0]);
            assert(weekday_alias("sat"@) == Some(Weekday::Sat));
        },
        Weekday::Sun => {
            assert(ascii_lower('S') == 's');
            assert(lowered(a) =~= "sun"@);
            assert("sun"@[0] != "mon"@[0]);
            assert("sun"@[0] != "tue"@[0]);
            assert("sun"@[0] != "wed"@[0]);
            assert("sun"@[0] != "thu"@[0]);
            assert("sun"@[0] != "fri"@[0]);
            assert("sun"@[1] != "sat"@[1]);
            assert(weekday_alias("sun"@) == Some(Weekday::Sun));
        },
    }
}

/// A text with a character beyond `~` at `i` differs from an ASCII text.
proof fn lemma_differs_from_ascii(t: Seq<char>, i: int, ascii: Seq<char>)
    requires
        0 <= i < t.len(),
        t[i] > '~',
        forall|j: int| 0 <= j < ascii.len() ==> ascii[j] <= '~',
    ensures
        t != ascii,
{
    if t.len() == ascii.len() {
        assert(t[i] != ascii[i]);
    }
}

/// A name with a character outside ASCII stands for no day: every weekday
/// name is ASCII, and lowering ASCII capitals leaves other characters as
/// they are. So names that differ only in the case of non-ASCII letters all
/// stand for no day.
pub proof fn lemma_non_ascii_names_no_day(s: Seq<char>, i: int)
    requires
        0 <= i < s.len(),
        s[i] > '~',
    ensures
        named_weekday(s) is None,
{
    reveal_strlit("mon");
    reveal_strlit("monday");
    reveal_strlit("tue");
    reveal_strlit("tues");
    reveal_strlit("tuesday");
    reveal_strlit("wed");
    reveal_strlit("weds");
    reveal_strlit("wednesday");
    reveal_strlit("thu");
    reveal_strlit("thur");
    reveal_strlit("thurs");
    reveal_strlit("thursday");
    reveal_strlit("fri");
    reveal_strlit("friday");
    reveal_strlit("sat");
    reveal_strlit("saturday");
    reveal_strlit("sun");
    reveal_strlit("sunday");
    let t = lowered(s);
    assert(t[i] == s[i]);
    lemma_differs_from_ascii(t, i, "mon"@);
    lemma_differs_from_ascii(t, i, "monday"@);
    lemma_differs_from_ascii(t, i, "tue"@);
    lemma_differs_from_ascii(t, i, "tues"@);
    lemma_differs_from_ascii(t, i, "tuesday"@);
    lemma_differs_from_ascii(t, i, "wed"@);
    lemma_differs_from_ascii(t, i, "weds"@);
    lemma_differs_from_ascii(t, i, "wednesday"@);
    lemma_differs_from_ascii(t, i, "thu"@);
    lemma_differs_from_ascii(t, i, "thur"@);
    lemma_differs_from_ascii(t, i, "thurs"@);
    lemma_differs_from_ascii(t, i, "thursday"@);
    lemma_differs_from_ascii(t, i, "fri"@);
    lemma_differs_from_ascii(t, i, "friday"@);
    lemma_differs_from_ascii(t, i, "sat"@);
    lemma_differs_from_ascii(t, i, "saturday"@);
    lemma_differs_from_ascii(t, i, "sun"@);
    lemma_differs_from_ascii(t, i, "sunday"@);
}

/// Every weekday name is read as its day: the three-letter abbreviation,
/// the full English name, and "tues", "weds", "thur" and "thurs". (With
/// `lemma_weekday_names_ignore_case`, so are the same names in capitals.)
pub proof fn lemma_day_names_name_their_days()
    ensures
        named_weekday("mon"@) == Some(Weekday::Mon),
        named_weekday("monday"@) == Some(Weekday::Mon),
        named_weekday("tue"@) == Some(Weekday::Tue),
        named_weekday("tues"@) == Some(Weekday::Tue),
        named_weekday("tuesday"@) == Some(Weekday::Tue),
        named_weekday("wed"@) == Some(Weekday::Wed),
        named_weekday("weds"@) == Some(Weekday::Wed),
        named_weekday("wednesday"@) == Some(Weekday::Wed),
        named_weekday("thu"@) == Some(Weekday::Thu),
        named_weekday("thur"@) == Some(Weekday::Thu),
        named_weekday("thurs"@) == Some(Weekday::Thu),
        named_weekday("thursday"@) == Some(Weekday::Thu),
        named_weekday("fri"@) == Some(Weekday::Fri),
        named_weekday("friday"@) == Some(Weekday::Fri),
        named_weekday("sat"@) == Some(Weekday::Sat),
        named_weekday("saturday"@) == Some(Weekday::Sat),
        named_weekday("sun"@) == Some(Weekday::Sun),
        named_weekday("sunday"@) == Some(Weekday::Sun),
{
    reveal_strlit("mon");
    reveal_strlit("monday");
    reveal_strlit("tue");
    reveal_strlit("tues");
    reveal_strlit("tuesday");
    reveal_strlit("wed");
    reveal_strlit("weds");
    reveal_strlit("wednesday");
    reveal_strlit("thu");
    reveal_strlit("thur");
    reveal_strlit("thurs");
    reveal_strlit("thursday");
    reveal_strlit("fri");
    reveal_strlit("friday");
    reveal_strlit("sat");
    reveal_strlit("saturday");
    reveal_strlit("sun");
    reveal_strlit("sunday");
    assert(lowered("mon"@) =~= "mon"@);
    assert(lowered("monday"@) =~= "monday"@);
    assert(lowered("tue"@) =~= "tue"@);
    assert("tue"@[0] != "mon"@[0]);
    assert(lowered("tues"@) =~= "tues"@);
    assert(lowered("tuesday"@) =~= "tuesday"@);
    assert(lowered("wed"@) =~= "wed"@);
    assert("wed"@[0] != "mon"@[0]);
    assert("wed"@[0] != "tue"@[0]);
    assert(lowered("weds"@) =~= "weds"@);
    assert("weds"@[0] != "tues"@[0]);
    assert(lowered("wednesday"@) =~= "wednesday"@);
    assert(lowered("thu"@) =~= "thu"@);
    assert("thu"@[0] != "mon"@[0]);
    assert("thu"@[1] != "tue"@[1]);
    assert("thu"@[0] != "wed"@[0]);
    assert(lowered("thur"@) =~= "thur"@);
    assert("thur"@[1] != "tues"@[1]);
    assert("thur"@[0] != "weds"@[0]);
    assert(lowered("thurs"@) =~= "thurs"@);
    assert(lowered("thursday"@) =~= "thursday"@);
    assert(lowered("fri"@) =~= "fri"@);
    assert("fri"@[0] != "mon"@[0]);
    assert("fri"@[0] != "tue"@[0]);
    assert("fri"@[0] != "wed"@[0]);
    assert("fri"@[0] != "thu"@[0]);
    assert(lowered("friday"@) =~= "friday"@);
    assert("friday"@[0] != "monday"@[0]);
    assert(lowered("sat"@) =~= "sat"@);
    assert("sat"@[0] != "mon"@[0]);
    assert("sat"@[0] != "tue"@[0]);
    assert("sat"@[0] != "wed"@[0]);
    assert("sat"@[0] != "thu"@[0]);
    assert("sat"@[0] != "fri"@[0]);
    assert(lowered("saturday"@) =~= "saturday"@);
    assert("saturday"@[0] != "thursday"@[0]);
    assert(lowered("sun"@) =~= "sun"@);
    assert("sun"@[0] != "mon"@[0]);
    assert("sun"@[0] != "tue"@[0]);
    assert("sun"@[0] != "wed"@[0]);
    assert("sun"@[0] != "thu"@[0]);
    assert("sun"@[0] != "fri"@[0]);
    assert("sun"@[1] != "sat"@[1]);
    assert(lowered("sunday"@) =~= "sunday"@);
    assert("sunday"@[0] != "monday"@[0]);
    assert("sunday"@[0] != "friday"@[0]);
}

} // verus!
