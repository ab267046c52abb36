//! The days without a lecture: holidays and exams, looked up by day number.

use crate::calendar::{chrono_date_text, Date};
use crate::course::{Exam, Holiday};
use crate::text::{debug_quoted, debug_text};
use std::collections::HashMap;
use vstd::prelude::*;

verus! {

broadcast use vstd::std_specs::hash::group_hash_axioms;

/// The names in a map keyed by day number, with the keys as integers.
pub open spec fn names_by_day(m: Map<i32, String>) -> Map<int, Seq<char>> {
    Map::new(
        |d: int| i32::MIN <= d <= i32::MAX && m.contains_key(d as i32),
        |d: int| m[d as i32]@,
    )
}

/// The names of the exams in a map keyed by day number, with the keys as
/// integers.
pub open spec fn exam_names_by_day<'a>(m: Map<i32, &'a Exam>) -> Map<int, Seq<char>> {
    Map::new(
        |d: int| i32::MIN <= d <= i32::MAX && m.contains_key(d as i32),
        |d: int| m[d as i32].name@,
    )
}

/// Each date of each holiday with the holiday's name, holiday by holiday and
/// date by date.
pub open spec fn holiday_entries(hs: Seq<Holiday>) -> Seq<(int, Seq<char>)>
    decreases hs.len(),
{
    if hs.len() == 0 {
        Seq::empty()
    } else {
        holiday_entries(hs.drop_last()) + date_entries(hs.last().dates@, hs.last().name@)
    }
}

/// Each date with the same name.
pub open spec fn date_entries(dates: Seq<Date>, name: Seq<char>) -> Seq<(int, Seq<char>)> {
    Seq::new(dates.len(), |i: int| (dates[i]@, name))
}

/// The message for a date that two holidays claim.
pub open spec fn duplicate_holiday_message(day: int, first: Seq<char>, second: Seq<char>) -> Seq<char> {
    "duplicate holiday date "@ + chrono_date_text(day) + ": "@ + debug_quoted(first) + " and "@
        + debug_quoted(second)
}

/// The names of the holidays by date, or the message for the first date
/// (in the order of the entries) that an earlier entry already claimed.
pub open spec fn holiday_outcome(entries: Seq<(int, Seq<char>)>) -> Result<
    Map<int, Seq<char>>,
    Seq<char>,
>
    decreases entries.len(),
{
    if entries.len() == 0 {
        Ok(Map::empty())
    } else {
        match holiday_outcome(entries.drop_last()) {
            Err(e) => Err(e),
            Ok(m) => {
                let (day, name) = entries.last();
                if m.contains_key(day) {
                    Err(duplicate_holiday_message(day, m[day], name))
                } else {
                    Ok(m.insert(day, name))
                }
            },
        }
    }
}

/// Once the entries up to `k` hold a duplicate, the outcome of all entries is
/// that same failure.
proof fn lemma_holiday_error_stays(entries: Seq<(int, Seq<char>)>, k: int)
    requires
        0 <= k <= entries.len(),
        holiday_outcome(entries.take(k)) is Err,
    ensures
        holiday_outcome(entries) == holiday_outcome(entries.take(k)),
    decreases entries.len() - k,
{
    if k == entries.len() {
        assert(entries.take(k) =~= entries);
    } else {
        assert(entries.take(k + 1).drop_last() =~= entries.take(k));
        lemma_holiday_error_stays(entries, k + 1);
    }
}

proof fn lemma_holiday_entries_step(hs: Seq<Holiday>, k: int, j: int)
    requires
        0 <= k < hs.len(),
        0 <= j < hs[k].dates@.len(),
    ensures
        (holiday_entries(hs.take(k)) + date_entries(hs[k].dates@.take(j + 1), hs[k].name@)).drop_last()
            == holiday_entries(hs.take(k)) + date_entries(hs[k].dates@.take(j), hs[k].name@),
        (holiday_entries(hs.take(k)) + date_entries(hs[k].dates@.take(j + 1), hs[k].name@)).last()
            == (hs[k].dates@[j]@, hs[k].name@),
{
    assert((holiday_entries(hs.take(k)) + date_entries(hs[k].dates@.take(j + 1), hs[k].name@)).drop_last()
        =~= holiday_entries(hs.take(k)) + date_entries(hs[k].dates@.take(j), hs[k].name@));
}

/// The holiday names by day number. Fails, naming the date and both
/// holidays, where a date is claimed a second time.
pub fn holiday_map(holidays: &[Holiday]) -> (r: Result<HashMap<i32, String>, String>)
    ensures
        match r {
            Ok(m) => holiday_outcome(holiday_entries(holidays@)) == Ok::<
                Map<int, Seq<char>>,
                Seq<char>,
            >(names_by_day(m@)),
            Err(e) => holiday_outcome(holiday_entries(holidays@)) == Err::<
                Map<int, Seq<char>>,
                Seq<char>,
            >(e@),
        },
{
    let mut by_day: HashMap<i32, String> = HashMap::new();
    let ghost all = holiday_entries(holidays@);
    assert(names_by_day(by_day@) =~= Map::<int, Seq<char>>::empty());
    assert(holidays@.take(0) =~= Seq::<Holiday>::empty());
    let mut k: usize = 0;
    while k < holidays.len()
        invariant
            k <= holidays@.len(),
            all == holiday_entries(holidays@),
            holiday_outcome(holiday_entries(holidays@.take(k as int))) == Ok::<
                Map<int, Seq<char>>,
                Seq<char>,
            >(names_by_day(by_day@)),
        decreases holidays@.len() - k,
    {
        let holiday = &holidays[k];
        let ghost before = holiday_entries(holidays@.take(k as int));
        assert(date_entries(holiday.dates@.take(0), holiday.name@) =~= Seq::<(int, Seq<char>)>::empty());
        assert(before + date_entries(holiday.dates@.take(0), holiday.name@) =~= before);
        let mut j: usize = 0;
        while j < holiday.dates.len()
            invariant
                0 <= k < holidays@.len(),
                all == holiday_entries(holidays@),
                holiday == holidays@[k as int],
                j <= holiday.dates@.len(),
                before == holiday_entries(holidays@.take(k as int)),
                holiday_outcome(before + date_entries(holiday.dates@.take(j as int), holiday.name@)) == Ok::<
                    Map<int, Seq<char>>,
                    Seq<char>,
                >(names_by_day(by_day@)),
            decreases holiday.dates@.len() - j,
        {
            let date = holiday.dates[j];
            let day = date.day_number();
            proof {
                lemma_holiday_entries_step(holidays@, k as int, j as int);
            }
            let ghost old_map = by_day@;
            match by_day.insert(day, holiday.name.clone()) {
                Some(previous) => {
                    let mut e = String::from_str("duplicate holiday date ");
                    let t = date.to_text();
                    e.append(t.as_str());
                    e.append(": ");
                    let q1 = debug_text(previous.as_str());
                    e.append(q1.as_str());
                    e.append(" and ");
                    let q2 = debug_text(holiday.name.as_str());
                    e.append(q2.as_str());
                    proof {
                        let upto = before + date_entries(holiday.dates@.take(j as int + 1), holiday.name@);
                        assert(names_by_day(old_map).contains_key(day as int));
                        assert(holiday_outcome(upto) == Err::<Map<int, Seq<char>>, Seq<char>>(e@));
                        assert(holidays@.take(k as int + 1).drop_last() =~= holidays@.take(k as int));
                        assert(holiday.dates@.take(holiday.dates@.len() as int) =~= holiday.dates@);
                        lemma_prefix_of_entries(holidays@, k as int, j as int + 1);
                        lemma_holiday_error_stays(all, upto.len() as int);
                    }
                    return Err(e);
                },
                None => {
                    proof {
                        assert(!names_by_day(old_map).contains_key(day as int));
                        assert(names_by_day(by_day@) =~= names_by_day(old_map).insert(
                            day as int,
                            holiday.name@,
                        ));
                    }
                },
            }
            j = j + 1;
        }
        proof {
            assert(holidays@.take(k as int + 1).drop_last() =~= holidays@.take(k as int));
            assert(holiday.dates@.take(j as int) =~= holiday.dates@);
        }
        k = k + 1;
    }
    assert(holidays@.take(k as int) =~= holidays@);
    Ok(by_day)
}

/// Each date of each holiday is an entry, with the holiday's name.
pub proof fn lemma_holiday_date_entry(hs: Seq<Holiday>, j: int, t: int) -> (e: int)
    requires
        0 <= j < hs.len(),
        0 <= t < hs[j].dates@.len(),
    ensures
        0 <= e < holiday_entries(hs).len(),
        holiday_entries(hs)[e] == (hs[j].dates@[t]@, hs[j].name@),
    decreases hs.len(),
{
    let init = hs.drop_last();
    if j == hs.len() - 1 {
        let n = holiday_entries(init).len() as int;
        assert(holiday_entries(hs)[n + t] == date_entries(hs.last().dates@, hs.last().name@)[t]);
        n + t
    } else {
        assert(init[j] == hs[j]);
        let e = lemma_holiday_date_entry(init, j, t);
        assert(holiday_entries(hs)[e] == holiday_entries(init)[e]);
        e
    }
}

/// The entries up to date `j` of holiday `k` are a prefix of all entries.
proof fn lemma_prefix_of_entries(hs: Seq<Holiday>, k: int, j: int)
    requires
        0 <= k < hs.len(),
        0 <= j <= hs[k].dates@.len(),
    ensures
        ({
            let upto = holiday_entries(hs.take(k)) + date_entries(hs[k].dates@.take(j), hs[k].name@);
            upto.len() <= holiday_entries(hs).len() && holiday_entries(hs).take(upto.len() as int)
                == upto
        }),
{
    lemma_entries_prefix(hs, k + 1);
    assert(hs.take(k + 1).drop_last() =~= hs.take(k));
    assert(hs.take(k + 1).last() == hs[k]);
    let upto = holiday_entries(hs.take(k)) + date_entries(hs[k].dates@.take(j), hs[k].name@);
    let full = holiday_entries(hs.take(k + 1));
    assert(full == holiday_entries(hs.take(k)) + date_entries(hs[k].dates@, hs[k].name@));
    assert(full.take(upto.len() as int) =~= upto);
}

/// The entries of the first `k` holidays are a prefix of all entries.
proof fn lemma_entries_prefix(hs: Seq<Holiday>, k: int)
    requires
        0 <= k <= hs.len(),
    ensures
        holiday_entries(hs.take(k)).len() <= holiday_entries(hs).len(),
        holiday_entries(hs).take(holiday_entries(hs.take(k)).len() as int) == holiday_entries(
            hs.take(k),
        ),
    decreases hs.len() - k,
{
    if k == hs.len() {
        assert(hs.take(k) =~= hs);
        assert(holiday_entries(hs).take(holiday_entries(hs).len() as int) =~= holiday_entries(hs));
    } else {
        lemma_entries_prefix(hs, k + 1);
        assert(hs.take(k + 1).drop_last() =~= hs.take(k));
        let a = holiday_entries(hs.take(k));
        let b = holiday_entries(hs.take(k + 1));
        assert(b.take(a.len() as int) =~= a);
        assert(holiday_entries(hs).take(a.len() as int) =~= b.take(a.len() as int));
    }
}

/// The exams by day number; where two exams share a date, the later one.
pub open spec fn exam_outcome(es: Seq<Exam>) -> Map<int, Exam>
    decreases es.len(),
{
    if es.len() == 0 {
        Map::empty()
    } else {
        exam_outcome(es.drop_last()).insert(es.last().date@, es.last())
    }
}

/// The exams by day number; where two exams share a date, the later one.
pub fn exam_map<'a>(exams: &'a [Exam]) -> (r: HashMap<i32, &'a Exam>)
    ensures
        forall|d: int| #[trigger]
            exam_outcome(exams@).contains_key(d) <==> i32::MIN <= d <= i32::MAX && r@.contains_key(
                d as i32,
            ),
        forall|d: i32| #[trigger]
            r@.contains_key(d) ==> *r@[d] == exam_outcome(exams@)[d as int],
{
    let mut by_day: HashMap<i32, &'a Exam> = HashMap::new();
    let mut k: usize = 0;
    while k < exams.len()
        invariant
            k <= exams@.len(),
            forall|d: int| #[trigger]
                exam_outcome(exams@.take(k as int)).contains_key(d) <==> i32::MIN <= d
                    <= i32::MAX && by_day@.contains_key(d as i32),
            forall|d: i32| #[trigger]
                by_day@.contains_key(d) ==> *by_day@[d] == exam_outcome(exams@.take(k as int))[d as int],
        decreases exams@.len() - k,
    {
        let exam = &exams[k];
        let day = exam.date.day_number();
        let ghost before = by_day@;
        by_day.insert(day, exam);
        proof {
            let prev = exam_outcome(exams@.take(k as int));
            assert(exams@.take(k as int + 1).drop_last() =~= exams@.take(k as int));
            assert(exams@.take(k as int + 1).last() == *exam);
            assert(exam_outcome(exams@.take(k as int + 1)) == prev.insert(day as int, *exam));
            assert forall|d: int|
                #[trigger] exam_outcome(exams@.take(k as int + 1)).contains_key(d) <==> i32::MIN <= d
                    <= i32::MAX && by_day@.contains_key(d as i32) by {
                if d != day as int {
                    assert(prev.contains_key(d) <==> i32::MIN <= d <= i32::MAX && before.contains_key(d as i32));
                    if i32::MIN <= d <= i32::MAX {
                        assert((d as i32) != day);
                    }
                }
            }
            assert forall|d: i32| #[trigger] by_day@.contains_key(d) implies *by_day@[d]
                == exam_outcome(exams@.take(k as int + 1))[d as int] by {
                if d != day {
                    assert(before.contains_key(d));
                    assert(prev.contains_key(d as int));
                }
            }
        }
        k = k + 1;
    }
    assert(exams@.take(k as int) =~= exams@);
    by_day
}

/// Whether no two entries share a date.
pub open spec fn distinct_days(entries: Seq<(int, Seq<char>)>) -> bool {
    forall|i: int, j: int| 0 <= i < j < entries.len() ==> entries[i].0 != entries[j].0
}

/// Holiday dates must be unique across every holiday: the holiday names are
/// built exactly when no two entries share a date, and they then hold one
/// entry per date, giving each date its holiday's name and no other date a
/// name. Where a date is shared, the failure is at the first entry `j` whose
/// date an earlier entry `i` already claimed (the entries before `j` share no
/// date), and names that date, the earlier holiday first.
pub proof fn lemma_holiday_dates_unique(entries: Seq<(int, Seq<char>)>)
    ensures
        holiday_outcome(entries) is Ok <==> distinct_days(entries),
        holiday_outcome(entries) matches Ok(m) ==> {
            &&& forall|i: int| 0 <= i < entries.len() ==> #[trigger] m.contains_key(entries[i].0)
                && m[entries[i].0] == entries[i].1
            &&& forall|d: int| #[trigger]
                m.contains_key(d) ==> exists|i: int| 0 <= i < entries.len() && entries[i].0 == d
            &&& m.dom().finite()
            &&& m.len() == entries.len()
        },
        holiday_outcome(entries) matches Err(e) ==> exists|i: int, j: int|
            #![trigger entries[i], entries[j]]
            0 <= i < j < entries.len() && entries[i].0 == entries[j].0 && distinct_days(
                entries.take(j),
            ) && e == duplicate_holiday_message(entries[j].0, entries[i].1, entries[j].1),
    decreases entries.len(),
{
    if entries.len() > 0 {
        let init = entries.drop_last();
        let n = entries.len() - 1;
        lemma_holiday_dates_unique(init);
        match holiday_outcome(init) {
            Err(e) => {
                let (i, j) = choose|i: int, j: int|
                    #![trigger init[i], init[j]]
                    0 <= i < j < init.len() && init[i].0 == init[j].0 && distinct_days(
                        init.take(j),
                    ) && e == duplicate_holiday_message(init[j].0, init[i].1, init[j].1);
                assert(entries[i] == init[i] && entries[j] == init[j]);
                assert(entries.take(j) =~= init.take(j));
            },
            Ok(m) => {
                let (day, name) = entries.last();
                if m.contains_key(day) {
                    let i = choose|i: int| 0 <= i < init.len() && init[i].0 == day;
                    assert(m[init[i].0] == init[i].1);
                    assert(entries[i] == init[i]);
                    assert(entries[n] == (day, name));
                    assert(entries.take(n) =~= init);
                } else {
                    assert forall|i: int, j: int| 0 <= i < j < entries.len() implies entries[i].0
                        != entries[j].0 by {
                        if j < n {
                            assert(entries[i] == init[i] && entries[j] == init[j]);
                        } else {
                            assert(entries[i] == init[i]);
                            assert(m.contains_key(init[i].0));
                        }
                    }
                    let m2 = m.insert(day, name);
                    assert forall|i: int| 0 <= i < entries.len() implies #[trigger] m2.contains_key(
                        entries[i].0,
                    ) && m2[entries[i].0] == entries[i].1 by {
                        if i < n {
                            assert(entries[i] == init[i]);
                            assert(m.contains_key(init[i].0));
                        }
                    }
                    assert forall|d: int| #[trigger] m2.contains_key(d) implies exists|i: int|
                        0 <= i < entries.len() && entries[i].0 == d by {
                        if d == day {
                            assert(entries[n].0 == d);
                        } else {
                            let i = choose|i: int| 0 <= i < init.len() && init[i].0 == d;
                            assert(entries[i] == init[i]);
                        }
                    }
                    assert(m2.dom() == m.dom().insert(day));
                }
            },
        }
    } else {
        assert(Map::<int, Seq<char>>::empty().dom() =~= Set::<int>::empty());
    }
}

} // verus!
