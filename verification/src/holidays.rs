//! Holidays, sets of holiday dates, and the rule that moves a holiday off
//! a weekend.

use crate::date::{days_in_month, lemma_ordinal_bounds, lemma_plus_days_in_month, max_day_number,
    Date, Weekday, MAX_DATE_YEAR, MIN_DATE_YEAR};
use crate::schedule::Time;
use vstd::prelude::*;

verus! {

/// A holiday of a market.
#[derive(Debug, Clone, PartialEq, Eq)]
pub struct Holiday {
    /// The date of the holiday.
    pub date: Date,
    /// The name of the holiday.
    pub name: String,
    /// Whether the market is closed for the whole day.
    pub market_closed: bool,
    /// The time at which the market closes early, if it opens at all.
    pub early_close: Option<Time>,
}

impl Holiday {
    /// A holiday on which the market is closed or open for the whole day.
    pub fn new(date: Date, name: &str, market_closed: bool) -> (r: Holiday)
        ensures
            r.date == date,
            r.name@ == name@,
            r.market_closed == market_closed,
            r.early_close is None,
    {
        Holiday { date, name: name.to_owned(), market_closed, early_close: None }
    }

    /// A holiday on which the market opens and closes early.
    pub fn with_early_close(date: Date, name: &str, early_close: Time) -> (r: Holiday)
        ensures
            r.date == date,
            r.name@ == name@,
            !r.market_closed,
            r.early_close == Some(early_close),
    {
        Holiday {
            date,
            name: name.to_owned(),
            market_closed: false,
            early_close: Some(early_close),
        }
    }
}

/// A set of dates. Its view is the mathematical set of the dates it holds.
#[derive(Debug)]
pub struct HolidaySet {
    dates: Vec<Date>,
}

impl View for HolidaySet {
    type V = Set<Date>;

    closed spec fn view(&self) -> Set<Date> {
        self.dates@.to_set()
    }
}

impl PartialEq for HolidaySet {
    /// Whether the two sets hold the same dates.
    fn eq(&self, other: &HolidaySet) -> (r: bool) {
        if self.len() != other.len() {
            return false;
        }
        let mut i: usize = 0;
        while i < self.dates.len()
            invariant
                i <= self.dates.len(),
                forall|j: int| 0 <= j < i ==> other@.contains(self.dates@[j]),
            decreases self.dates.len() - i,
        {
            if !other.contains(&self.dates[i]) {
                proof {
                    assert(self@.contains(self.dates@[i as int]));
                }
                return false;
            }
            i += 1;
        }
        proof {
            assert(self@.subset_of(other@));
            vstd::set_lib::lemma_subset_equality(self@, other@);
        }
        true
    }
}

impl vstd::std_specs::cmp::PartialEqSpecImpl for HolidaySet {
    open spec fn obeys_eq_spec() -> bool {
        true
    }

    open spec fn eq_spec(&self, other: &HolidaySet) -> bool {
        self@ == other@
    }
}

impl Clone for HolidaySet {
    fn clone(&self) -> (r: Self)
        ensures
            r@ == self@,
    {
        proof {
            use_type_invariant(self);
        }
        let mut dates: Vec<Date> = Vec::new();
        let mut i: usize = 0;
        while i < self.dates.len()
            invariant
                i <= self.dates.len(),
                dates@ == self.dates@.take(i as int),
            decreases self.dates.len() - i,
        {
            dates.push(self.dates[i]);
            proof {
                assert(self.dates@.take(i + 1) =~= self.dates@.take(i as int).push(
                    self.dates@[i as int],
                ));
            }
            i += 1;
        }
        proof {
            assert(self.dates@.take(i as int) =~= self.dates@);
        }
        HolidaySet { dates }
    }
}

impl HolidaySet {
    #[verifier::type_invariant]
    spec fn no_date_twice(self) -> bool {
        self.dates@.no_duplicates()
    }

    /// The empty set.
    pub fn new() -> (r: HolidaySet)
        ensures
            r@ == Set::<Date>::empty(),
    {
        let r = HolidaySet { dates: Vec::new() };
        proof {
            assert(r.dates@.to_set() =~= Set::<Date>::empty());
        }
        r
    }

    /// The set of the dates of `dates`.
    pub fn from_vec(dates: Vec<Date>) -> (r: HolidaySet)
        ensures
            r@ == dates@.to_set(),
    {
        let mut set = HolidaySet::new();
        let mut i: usize = 0;
        while i < dates.len()
            invariant
                i <= dates.len(),
                set@ == dates@.take(i as int).to_set(),
            decreases dates.len() - i,
        {
            set.insert(dates[i]);
            proof {
                assert(dates@.take(i + 1) =~= dates@.take(i as int).push(dates@[i as int]));
                lemma_push_to_set(dates@.take(i as int), dates@[i as int]);
            }
            i += 1;
        }
        proof {
            assert(dates@.take(i as int) =~= dates@);
        }
        set
    }

    /// Whether `date` is in the set.
    pub fn contains(&self, date: &Date) -> (r: bool)
        ensures
            r == self@.contains(*date),
    {
        let mut i: usize = 0;
        while i < self.dates.len()
            invariant
                i <= self.dates.len(),
                forall|j: int| 0 <= j < i ==> self.dates@[j] != *date,
            decreases self.dates.len() - i,
        {
            let d = self.dates[i];
            if d.year == date.year && d.month == date.month && d.day == date.day {
                return true;
            }
            i += 1;
        }
        false
    }

    /// Adds `date` to the set; says whether it was new.
    pub fn insert(&mut self, date: Date) -> (r: bool)
        ensures
            final(self)@ == old(self)@.insert(date),
            r == !old(self)@.contains(date),
    {
        proof {
            use_type_invariant(&*self);
        }
        if self.contains(&date) {
            proof {
                assert(self@.insert(date) =~= self@);
            }
            false
        } else {
            let ghost before = self.dates@;
            let mut dates = self.to_vec();
            proof {
                before.unique_seq_to_set();
                dates@.unique_seq_to_set();
                assert(dates@.to_set() =~= before.to_set());
                lemma_push_to_set(dates@, date);
            }
            dates.push(date);
            self.dates = dates;
            true
        }
    }

    /// The number of dates in the set.
    pub fn len(&self) -> (r: usize)
        ensures
            r == self@.len(),
            self@.finite(),
    {
        proof {
            use_type_invariant(self);
            self.dates@.unique_seq_to_set();
        }
        self.dates.len()
    }

    /// Whether the set holds no date.
    pub fn is_empty(&self) -> (r: bool)
        ensures
            r == (self@ == Set::<Date>::empty()),
    {
        proof {
            if self.dates@.len() == 0 {
                assert(self.dates@.to_set() =~= Set::<Date>::empty());
            } else {
                assert(self.dates@.to_set().contains(self.dates@[0]));
            }
        }
        self.dates.len() == 0
    }

    /// The dates of the set, each once, in the order in which they came in.
    pub fn to_vec(&self) -> (r: Vec<Date>)
        ensures
            r@.to_set() == self@,
            r@.no_duplicates(),
    {
        let c = self.clone();
        proof {
            use_type_invariant(&c);
        }
        c.dates
    }
}

/// The dates of a sequence with one more at its end are the dates of the
/// sequence and that one.
pub proof fn lemma_push_to_set(s: Seq<Date>, x: Date)
    ensures
        s.push(x).to_set() == s.to_set().insert(x),
{
    let a = s.push(x).to_set();
    let b = s.to_set().insert(x);
    assert forall|d: Date| a.contains(d) <==> b.contains(d) by {
        if a.contains(d) {
            let i = choose|i: int| 0 <= i < s.push(x).len() && s.push(x)[i] == d;
            if i < s.len() {
                assert(s[i] == d);
            }
        }
        if b.contains(d) {
            if d == x {
                assert(s.push(x)[s.len() as int] == x);
            } else {
                let i = choose|i: int| 0 <= i < s.len() && s[i] == d;
                assert(s.push(x)[i] == d);
            }
        }
    }
    assert(a =~= b);
}

/// Whether the calendar has the year.
pub open spec fn year_in_calendar(year: i32) -> bool {
    MIN_DATE_YEAR <= year <= MAX_DATE_YEAR
}

/// The set `s` with the date of `o`, if there is one.
pub open spec fn with_date(s: Set<Date>, o: Option<Date>) -> Set<Date> {
    match o {
        Some(d) => s.insert(d),
        None => s,
    }
}

/// The day on which a holiday on `date` is observed when a weekend moves
/// it forward: from a Saturday to the Monday two days later, from a Sunday
/// to the Monday after it.
pub open spec fn observed_forward(date: Date) -> Date {
    if date.weekday_spec() == Weekday::Sat {
        date.plus_days(2)
    } else if date.weekday_spec() == Weekday::Sun {
        date.plus_days(1)
    } else {
        date
    }
}

/// The day on which a holiday on `date` is observed when a weekend moves
/// it to the nearest weekday: from a Saturday to the Friday before, from a
/// Sunday to the Monday after.
pub open spec fn observed_nearest(date: Date) -> Date {
    if date.weekday_spec() == Weekday::Sat {
        date.plus_days(-1)
    } else if date.weekday_spec() == Weekday::Sun {
        date.plus_days(1)
    } else {
        date
    }
}

/// Where the month still has two more days, the forward rule stays in the
/// month and moves by at most two days.
pub proof fn lemma_observed_forward_in_month(date: Date)
    requires
        date.valid(),
        date.day + 2 <= days_in_month(date.year as int, date.month as int),
    ensures
        observed_forward(date).valid(),
        observed_forward(date).year == date.year,
        observed_forward(date).month == date.month,
        date.day <= observed_forward(date).day <= date.day + 2,
        date.day_number() + 2 <= max_day_number(),
{
    lemma_plus_days_in_month(date, 2);
    lemma_plus_days_in_month(date, 1);
    lemma_ordinal_bounds(Date { day: (date.day + 2) as u32, ..date });
}

/// Away from the ends of a month, the nearest-weekday rule stays in the
/// month and moves by at most one day.
pub proof fn lemma_observed_nearest_in_month(date: Date)
    requires
        date.valid(),
        date.day >= 2,
        date.day + 1 <= days_in_month(date.year as int, date.month as int),
    ensures
        observed_nearest(date).valid(),
        observed_nearest(date).year == date.year,
        observed_nearest(date).month == date.month,
        date.day - 1 <= observed_nearest(date).day <= date.day + 1,
        crate::date::min_day_number() <= date.day_number() - 1,
        date.day_number() + 1 <= max_day_number(),
{
    lemma_plus_days_in_month(date, -1);
    lemma_plus_days_in_month(date, 1);
    lemma_ordinal_bounds(Date { day: (date.day + 1) as u32, ..date });
    lemma_ordinal_bounds(Date { day: (date.day - 1) as u32, ..date });
}

/// A date before December has at least 31 days of its year after it.
pub proof fn lemma_room_in_year(date: Date)
    requires
        date.valid(),
        date.month <= 11,
    ensures
        date.day_number() + 31 <= max_day_number(),
{
    lemma_ordinal_bounds(Date { year: date.year, month: 12, day: 31 });
    crate::date::lemma_months_monotone(date.year as int, date.month as int, 12);
}

/// Moves a holiday that falls on a weekend forward to the Monday, which
/// has to lie within the calendar.
pub fn adjust_forward(date: Date) -> (r: Date)
    requires
        date.valid(),
        date.weekday_spec() == Weekday::Sat ==> date.day_number() + 2 <= max_day_number(),
        date.weekday_spec() == Weekday::Sun ==> date.day_number() + 1 <= max_day_number(),
    ensures
        r == observed_forward(date),
        r.valid(),
{
    proof {
        lemma_ordinal_bounds(date);
    }
    match date.weekday() {
        Weekday::Sat => date.add_days(2),
        Weekday::Sun => date.add_days(1),
        _ => date,
    }
}

} // verus!
