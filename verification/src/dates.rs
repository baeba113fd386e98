//! How old cached prices are. The cache goes by days: a close that was fetched
//! today cannot be improved by fetching it again.
//!
//! A day is counted from the first of January of the year 1, which is day 1.

use vstd::prelude::*;

use crate::proto::HoldingRow;
use crate::text::{decimal, decimal_text, same, views};

verus! {

/// The day that a text names in a format.
pub uninterp spec fn parsed_day(text: Seq<char>, format: Seq<char>) -> Option<i32>;

/// `chrono::NaiveDate::parse_from_str` reads a date in a format, or fails, as
/// the text and the format alone decide; `Datelike::num_days_from_ce` counts
/// the day.
#[verifier::external_body]
pub(crate) fn parse_day(text: &str, format: &str) -> (day: Option<i32>)
    ensures
        day == parsed_day(text@, format@),
{
    match chrono::NaiveDate::parse_from_str(text, format) {
        Ok(date) => Some(chrono::Datelike::num_days_from_ce(&date)),
        Err(_) => None,
    }
}

/// How dates are written.
pub const DAY_FORMAT: &'static str = "%Y-%m-%d";

/// The day that a date names, if it is one.
pub open spec fn day_of(text: Seq<char>) -> Option<i32> {
    parsed_day(text, DAY_FORMAT@)
}

/// The days from a day to today; none where it is yet to come.
pub open spec fn age(day: i32, today: i32) -> int {
    if today > day {
        today - day
    } else {
        0
    }
}

/// The greatest age among the days, leaving out what is no date.
pub open spec fn greatest_age(days: Seq<Option<i32>>, today: i32) -> Option<int>
    decreases days.len(),
{
    if days.len() == 0 {
        None
    } else {
        let earlier = greatest_age(days.drop_last(), today);
        match days.last() {
            None => earlier,
            Some(day) => match earlier {
                None => Some(age(day, today)),
                Some(most) => if age(day, today) > most {
                    Some(age(day, today))
                } else {
                    Some(most)
                },
            },
        }
    }
}

/// Whether a result is this age.
pub open spec fn is_age(result: Option<i64>, meant: Option<int>) -> bool {
    match (result, meant) {
        (Some(r), Some(m)) => r == m,
        (None, None) => true,
        _ => false,
    }
}

/// The greatest age among the days, leaving out what is no date.
pub fn max_age(days: &Vec<Option<i32>>, today: i32) -> (most: Option<i64>)
    ensures
        is_age(most, greatest_age(days@, today)),
{
    let mut most: Option<i64> = None;
    let mut i: usize = 0;
    while i < days.len()
        invariant
            i <= days@.len(),
            is_age(most, greatest_age(days@.take(i as int), today)),
        decreases days@.len() - i,
    {
        assert(days@.take(i + 1).drop_last() =~= days@.take(i as int));
        match days[i] {
            None => {},
            Some(day) => {
                let old: i64 = if today > day {
                    today as i64 - day as i64
                } else {
                    0
                };
                most =
                match most {
                    None => Some(old),
                    Some(m) => if old > m {
                        Some(old)
                    } else {
                        Some(m)
                    },
                };
            },
        }
        i = i + 1;
    }
    assert(days@.take(i as int) =~= days@);
    most
}

/// The days on which the rows were last updated.
pub open spec fn update_days(rows: Seq<HoldingRow>) -> Seq<Option<i32>> {
    rows.map_values(|r: HoldingRow| day_of(r.last_updated@))
}

/// The most days since a row was updated. A row without a date, such as one
/// that has no cached price, is left out and takes nothing from the others.
pub fn compute_max_staleness_days(rows: &Vec<HoldingRow>, today: i32) -> (most: Option<i64>)
    ensures
        is_age(most, greatest_age(update_days(rows@), today)),
{
    let mut days: Vec<Option<i32>> = Vec::new();
    let mut i: usize = 0;
    while i < rows.len()
        invariant
            i <= rows@.len(),
            days@ == update_days(rows@).take(i as int),
        decreases rows@.len() - i,
    {
        days.push(parse_day(rows[i].last_updated.as_str(), DAY_FORMAT));
        i = i + 1;
        assert(days@ =~= update_days(rows@).take(i as int));
    }
    assert(days@ =~= update_days(rows@));
    max_age(&days, today)
}

/// The greatest age is that of one of the dates, and none is older.
pub proof fn greatest_age_is_greatest(days: Seq<Option<i32>>, today: i32, i: int)
    requires
        0 <= i < days.len(),
        days[i] is Some,
    ensures
        greatest_age(days, today) is Some,
        greatest_age(days, today)->0 >= age(days[i]->0, today),
        exists|k: int|
            0 <= k < days.len() && (#[trigger] days[k]) is Some && greatest_age(days, today)->0
                == age(days[k]->0, today),
    decreases days.len(),
{
    let last = days.len() - 1;
    let earlier = days.drop_last();
    if i < last {
        assert(earlier[i] == days[i]);
        greatest_age_is_greatest(earlier, today, i);
        let k = choose|k: int|
            0 <= k < earlier.len() && (#[trigger] earlier[k]) is Some && greatest_age(
                earlier,
                today,
            )->0 == age(earlier[k]->0, today);
        assert(days[k] == earlier[k]);
        assert(days[last] == days.last());
    } else {
        assert(days[last] is Some);
        if greatest_age(earlier, today) is Some {
            lemma_some_date(earlier, today);
            let j = choose|j: int| 0 <= j < earlier.len() && (#[trigger] earlier[j]) is Some;
            greatest_age_is_greatest(earlier, today, j);
            let k = choose|k: int|
                0 <= k < earlier.len() && (#[trigger] earlier[k]) is Some && greatest_age(
                    earlier,
                    today,
                )->0 == age(earlier[k]->0, today);
            assert(days[k] == earlier[k]);
        }
    }
}

proof fn lemma_some_date(days: Seq<Option<i32>>, today: i32)
    requires
        greatest_age(days, today) is Some,
    ensures
        exists|j: int| 0 <= j < days.len() && (#[trigger] days[j]) is Some,
    decreases days.len(),
{
    if days.last() is Some {
        assert(days[days.len() - 1] is Some);
    } else {
        lemma_some_date(days.drop_last(), today);
        let j = choose|j: int|
            0 <= j < days.drop_last().len() && (#[trigger] days.drop_last()[j]) is Some;
        assert(days[j] is Some);
    }
}

/// The tickers of the rows that don't have today's close; of all rows where
/// they are to be fetched anyway.
pub open spec fn stale(rows: Seq<HoldingRow>, today: Seq<char>, force: bool) -> Seq<Seq<char>>
    decreases rows.len(),
{
    if rows.len() == 0 {
        seq![]
    } else {
        let earlier = stale(rows.drop_last(), today, force);
        if force || rows.last().last_updated@ != today {
            earlier.push(rows.last().ticker@)
        } else {
            earlier
        }
    }
}

/// Which holdings still need a request today: those whose date is anything but
/// today, and all of them where they are to be fetched anyway.
pub fn stale_tickers(rows: &Vec<HoldingRow>, today: &str, force: bool) -> (tickers: Vec<String>)
    ensures
        views(tickers@) == stale(rows@, today@, force),
{
    let mut tickers: Vec<String> = Vec::new();
    let mut i: usize = 0;
    assert(views(tickers@) =~= seq![]);
    while i < rows.len()
        invariant
            i <= rows@.len(),
            views(tickers@) == stale(rows@.take(i as int), today@, force),
        decreases rows@.len() - i,
    {
        assert(rows@.take(i + 1).drop_last() =~= rows@.take(i as int));
        let ghost was = views(tickers@);
        if force || !same(rows[i].last_updated.as_str(), today) {
            tickers.push(rows[i].ticker.clone());
            assert(views(tickers@) =~= was.push(rows@[i as int].ticker@));
        }
        i = i + 1;
    }
    assert(rows@.take(i as int) =~= rows@);
    tickers
}

/// A row is fetched exactly where it doesn't have today's close or everything
/// is fetched; so where every row is current, nothing is.
pub proof fn only_stale_rows_are_fetched(rows: Seq<HoldingRow>, today: Seq<char>, force: bool)
    ensures
        force ==> stale(rows, today, force).len() == rows.len(),
        stale(rows, today, force).len() == 0 <==> forall|i: int|
            0 <= i < rows.len() ==> !force && (#[trigger] rows[i]).last_updated@ == today,
        forall|i: int|
            0 <= i < rows.len() && (force || (#[trigger] rows[i]).last_updated@ != today)
                ==> stale(rows, today, force).contains(rows[i].ticker@),
    decreases rows.len(),
{
    if rows.len() > 0 {
        let shorter = rows.drop_last();
        let earlier = stale(shorter, today, force);
        let all = stale(rows, today, force);
        only_stale_rows_are_fetched(shorter, today, force);
        assert(rows[rows.len() - 1] == rows.last());
        assert forall|i: int| 0 <= i < rows.len() && (force || (#[trigger] rows[i]).last_updated@
            != today) implies all.contains(rows[i].ticker@) by {
            if i < rows.len() - 1 {
                assert(shorter[i] == rows[i]);
                let k = choose|k: int| 0 <= k < earlier.len() && earlier[k] == rows[i].ticker@;
                assert(all[k] == earlier[k]);
            } else {
                assert(all[all.len() - 1] == rows[i].ticker@);
            }
        }
        if all.len() == 0 {
            assert forall|i: int| 0 <= i < rows.len() implies !force && (
            #[trigger] rows[i]).last_updated@ == today by {
                if i < rows.len() - 1 {
                    assert(shorter[i] == rows[i]);
                }
            }
        } else if forall|i: int|
            0 <= i < rows.len() ==> !force && (#[trigger] rows[i]).last_updated@ == today {
            assert(rows[rows.len() - 1].last_updated@ == today);
            assert forall|i: int| 0 <= i < shorter.len() implies !force && (
            #[trigger] shorter[i]).last_updated@ == today by {
                assert(shorter[i] == rows[i]);
            }
        }
    }
}

/// How long ago a day was, in words; nothing where there is no day.
pub open spec fn ago(day: Option<i32>, today: i32) -> Seq<char> {
    match day {
        None => seq![],
        Some(day) => if today - day <= 0 {
            "today"@
        } else if today - day == 1 {
            "yesterday"@
        } else {
            decimal((today - day) as nat) + " days ago"@
        },
    }
}

/// How long ago a day was, in words.
pub fn in_words(day: Option<i32>, today: i32) -> (words: String)
    ensures
        words@ == ago(day, today),
{
    match day {
        None => {
            let words = String::new();
            assert(words@ =~= seq![]);
            words
        },
        Some(day) => {
            let days: i64 = today as i64 - day as i64;
            if days <= 0 {
                "today".to_owned()
            } else if days == 1 {
                "yesterday".to_owned()
            } else {
                decimal_text(days as u64).concat(" days ago")
            }
        },
    }
}

/// The greatest age counts the days from the oldest date to today: no date is
/// further back, one is that far back, and a date that is not past counts for
/// none. Without any date there is no age.
pub proof fn staleness_counts_days(days: Seq<Option<i32>>, today: i32)
    ensures
        greatest_age(days, today) is None <==> forall|i: int|
            0 <= i < days.len() ==> (#[trigger] days[i]) is None,
        greatest_age(days, today) matches Some(most) ==> {
            &&& most >= 0
            &&& forall|i: int|
                0 <= i < days.len() && (#[trigger] days[i]) is Some ==> most >= today - days[i]->0
            &&& exists|i: int|
                0 <= i < days.len() && (#[trigger] days[i]) is Some && (most == today - days[i]->0
                    || most == 0 && today <= days[i]->0)
        },
    decreases days.len(),
{
    if days.len() > 0 {
        let earlier = days.drop_last();
        staleness_counts_days(earlier, today);
        let last = days.len() - 1;
        assert(days[last] == days.last());
        assert forall|i: int| 0 <= i < earlier.len() implies #[trigger] days[i] == earlier[i] by {}
        if greatest_age(earlier, today) is None {
            assert forall|i: int| 0 <= i < last implies (#[trigger] days[i]) is None by {
                assert(earlier[i] is None);
            }
        } else {
            let k = choose|k: int|
                0 <= k < earlier.len() && (#[trigger] earlier[k]) is Some && (greatest_age(
                    earlier,
                    today,
                )->0 == today - earlier[k]->0 || greatest_age(earlier, today)->0 == 0 && today
                    <= earlier[k]->0);
            assert(days[k] is Some);
            assert forall|i: int| 0 <= i < days.len() && (
            #[trigger] days[i]) is Some implies greatest_age(days, today)->0 >= today
                - days[i]->0 by {
                if i < last {
                    assert(earlier[i] is Some);
                }
            }
        }
    }
}

/// What is fetched are rows that need it, each once and in the order of the
/// rows: `at` tells which, and none that needs it is passed over.
pub proof fn stale_rows_are_fetched_in_order(
    rows: Seq<HoldingRow>,
    today: Seq<char>,
    force: bool,
) -> (at: Seq<int>)
    ensures
        at.len() == stale(rows, today, force).len(),
        forall|k: int|
            0 <= k < at.len() ==> 0 <= #[trigger] at[k] < rows.len() && stale(
                rows,
                today,
                force,
            )[k] == rows[at[k]].ticker@ && (force || rows[at[k]].last_updated@ != today),
        forall|j: int, k: int| 0 <= j < k < at.len() ==> #[trigger] at[j] < #[trigger] at[k],
        forall|i: int|
            0 <= i < rows.len() && (force || rows[i].last_updated@ != today)
                ==> #[trigger] at.contains(i),
    decreases rows.len(),
{
    if rows.len() == 0 {
        seq![]
    } else {
        let shorter = rows.drop_last();
        let last = rows.len() - 1;
        let earlier = stale_rows_are_fetched_in_order(shorter, today, force);
        let at = if force || rows.last().last_updated@ != today {
            earlier.push(last)
        } else {
            earlier
        };
        assert forall|k: int| 0 <= k < at.len() implies 0 <= #[trigger] at[k] < rows.len() && stale(
            rows,
            today,
            force,
        )[k] == rows[at[k]].ticker@ && (force || rows[at[k]].last_updated@ != today) by {
            if k < earlier.len() {
                assert(at[k] == earlier[k]);
                assert(shorter[earlier[k]] == rows[earlier[k]]);
            }
        }
        assert forall|j: int, k: int| 0 <= j < k < at.len() implies #[trigger] at[j]
            < #[trigger] at[k] by {
            assert(at[j] == earlier[j]);
            if k < earlier.len() {
                assert(at[k] == earlier[k]);
            }
        }
        assert forall|i: int|
            0 <= i < rows.len() && (force || rows[i].last_updated@ != today) implies
            #[trigger] at.contains(i) by {
            if i < last {
                assert(shorter[i] == rows[i]);
                assert(earlier.contains(i));
                let k = choose|k: int| 0 <= k < earlier.len() && earlier[k] == i;
                assert(at[k] == i);
            } else {
                assert(at[at.len() - 1] == i);
            }
        }
        at
    }
}

/// Every row has its day, read from the date it was last updated on.
pub proof fn rows_have_their_days(rows: Seq<HoldingRow>, i: int)
    requires
        0 <= i < rows.len(),
    ensures
        update_days(rows).len() == rows.len(),
        update_days(rows)[i] == parsed_day(rows[i].last_updated@, "%Y-%m-%d"@),
{
}

/// The laws on staleness hold of what is computed: of whatever
/// [`compute_max_staleness_days`], [`stale_tickers`] and [`in_words`] return.
pub proof fn laws_hold_of_the_days(
    rows: &Vec<HoldingRow>,
    today: i32,
    most: Option<i64>,
    now: &str,
    force: bool,
    tickers: Vec<String>,
    day: Option<i32>,
    words: String,
)
    ensures
        call_ensures(compute_max_staleness_days, (rows, today), most) ==> is_age(
            most,
            greatest_age(update_days(rows@), today),
        ),
        call_ensures(stale_tickers, (rows, now, force), tickers) ==> views(tickers@) == stale(
            rows@,
            now@,
            force,
        ),
        call_ensures(in_words, (day, today), words) ==> words@ == ago(day, today),
{
}

} // verus!
