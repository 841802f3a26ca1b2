use vstd::prelude::*;

use crate::intl::{lemma_in_concat, lemma_property_contains, pair_views, property, push_property};
use crate::text::str_eq;

verus! {

/// A value of the `year` formatting option.
#[derive(Clone, Copy, Debug, PartialEq, Eq, Structural)]
pub enum Year {
    /// The `numeric` option.
    Numeric,
    /// The `2-digit` option.
    Digit2,
}

/// The option string of a `Year`.
pub open spec fn year_name(v: Year) -> Seq<char> {
    match v {
        Year::Numeric => seq!['n', 'u', 'm', 'e', 'r', 'i', 'c'],
        Year::Digit2 => seq!['2', '-', 'd', 'i', 'g', 'i', 't'],
    }
}

impl Year {
    /// The option string of this value.
    pub fn string_rep(&self) -> (r: &'static str)
        ensures
            r@ == year_name(*self),
    {
        match self {
            Year::Numeric => {
                proof { reveal_strlit("numeric"); }
                "numeric"
            },
            Year::Digit2 => {
                proof { reveal_strlit("2-digit"); }
                "2-digit"
            },
        }
    }

    /// Parses an option string; fails on a string that is no option.
    pub fn parse(s: &str) -> (r: Result<Year, ()>)
        ensures
            match r {
                Ok(v) => year_name(v) == s@,
                Err(_) => forall|v: Year| year_name(v) != s@,
            },
    {
        let all: [Year; 2] = [Year::Numeric, Year::Digit2];
        let ghost expected = seq![Year::Numeric, Year::Digit2];
        proof { assert(all@ =~= expected); }
        let mut i: usize = 0;
        while i < 2
            invariant
                0 <= i <= 2,
                all@ == expected,
                forall|j: int| 0 <= j < i ==> year_name(#[trigger] all@[j]) != s@,
            decreases 2 - i,
        {
            let v = all[i];
            if str_eq(v.string_rep(), s) {
                return Ok(v);
            }
            i = i + 1;
        }
        assert forall|v: Year| year_name(v) != s@ by {
            match v {
                Year::Numeric => assert(all@[0] == v),
                Year::Digit2 => assert(all@[1] == v),
            }
        }
        Err(())
    }
}

impl core::str::FromStr for Year {
    type Err = ();

    fn from_str(s: &str) -> (r: Result<Self, Self::Err>)
        ensures
            match r {
                Ok(v) => year_name(v) == s@,
                Err(_) => forall|v: Year| year_name(v) != s@,
            },
    {
        Year::parse(s)
    }
}

/// Distinct `Year` values have distinct option strings, so parsing an option
/// string gives back the value it came from.
pub proof fn lemma_year_names_distinct(a: Year, b: Year)
    ensures
        (year_name(a) == year_name(b)) == (a == b),
{
    if a != b {
        assert(year_name(a).len() != year_name(b).len() || year_name(a)[0] != year_name(b)[0]
            || year_name(a)[1] != year_name(b)[1]);
    }
}

/// A value of the `month` formatting option.
#[derive(Clone, Copy, Debug, PartialEq, Eq, Structural)]
pub enum Month {
    /// The `numeric` option.
    Numeric,
    /// The `2-digit` option.
    Digit2,
    /// The `long` option.
    Long,
    /// The `short` option.
    Short,
    /// The `narrow` option.
    Narrow,
}

/// The option string of a `Month`.
pub open spec fn month_name(v: Month) -> Seq<char> {
    match v {
        Month::Numeric => seq!['n', 'u', 'm', 'e', 'r', 'i', 'c'],
        Month::Digit2 => seq!['2', '-', 'd', 'i', 'g', 'i', 't'],
        Month::Long => seq!['l', 'o', 'n', 'g'],
        Month::Short => seq!['s', 'h', 'o', 'r', 't'],
        Month::Narrow => seq!['n', 'a', 'r', 'r', 'o', 'w'],
    }
}

impl Month {
    /// The option string of this value.
    pub fn string_rep(&self) -> (r: &'static str)
        ensures
            r@ == month_name(*self),
    {
        match self {
            Month::Numeric => {
                proof { reveal_strlit("numeric"); }
                "numeric"
            },
            Month::Digit2 => {
                proof { reveal_strlit("2-digit"); }
                "2-digit"
            },
            Month::Long => {
                proof { reveal_strlit("long"); }
                "long"
            },
            Month::Short => {
                proof { reveal_strlit("short"); }
                "short"
            },
            Month::Narrow => {
                proof { reveal_strlit("narrow"); }
                "narrow"
            },
        }
    }

    /// Parses an option string; fails on a string that is no option.
    pub fn parse(s: &str) -> (r: Result<Month, ()>)
        ensures
            match r {
                Ok(v) => month_name(v) == s@,
                Err(_) => forall|v: Month| month_name(v) != s@,
            },
    {
        let all: [Month; 5] = [Month::Numeric, Month::Digit2, Month::Long, Month::Short, Month::Narrow];
        let ghost expected = seq![Month::Numeric, Month::Digit2, Month::Long, Month::Short, Month::Narrow];
        proof { assert(all@ =~= expected); }
        let mut i: usize = 0;
        while i < 5
            invariant
                0 <= i <= 5,
                all@ == expected,
                forall|j: int| 0 <= j < i ==> month_name(#[trigger] all@[j]) != s@,
            decreases 5 - i,
        {
            let v = all[i];
            if str_eq(v.string_rep(), s) {
                return Ok(v);
            }
            i = i + 1;
        }
        assert forall|v: Month| month_name(v) != s@ by {
            match v {
                Month::Numeric => assert(all@[0] == v),
                Month::Digit2 => assert(all@[1] == v),
                Month::Long => assert(all@[2] == v),
                Month::Short => assert(all@[3] == v),
                Month::Narrow => assert(all@[4] == v),
            }
        }
        Err(())
    }
}

impl core::str::FromStr for Month {
    type Err = ();

    fn from_str(s: &str) -> (r: Result<Self, Self::Err>)
        ensures
            match r {
                Ok(v) => month_name(v) == s@,
                Err(_) => forall|v: Month| month_name(v) != s@,
            },
    {
        Month::parse(s)
    }
}

/// Distinct `Month` values have distinct option strings, so parsing an option
/// string gives back the value it came from.
pub proof fn lemma_month_names_distinct(a: Month, b: Month)
    ensures
        (month_name(a) == month_name(b)) == (a == b),
{
    if a != b {
        assert(month_name(a).len() != month_name(b).len() || month_name(a)[0] != month_name(b)[0]
            || month_name(a)[1] != month_name(b)[1]);
    }
}

/// A value of the `day` formatting option.
#[derive(Clone, Copy, Debug, PartialEq, Eq, Structural)]
pub enum Day {
    /// The `numeric` option.
    Numeric,
    /// The `2-digit` option.
    Digit2,
}

/// The option string of a `Day`.
pub open spec fn day_name(v: Day) -> Seq<char> {
    match v {
        Day::Numeric => seq!['n', 'u', 'm', 'e', 'r', 'i', 'c'],
        Day::Digit2 => seq!['2', '-', 'd', 'i', 'g', 'i', 't'],
    }
}

impl Day {
    /// The option string of this value.
    pub fn string_rep(&self) -> (r: &'static str)
        ensures
            r@ == day_name(*self),
    {
        match self {
            Day::Numeric => {
                proof { reveal_strlit("numeric"); }
                "numeric"
            },
            Day::Digit2 => {
                proof { reveal_strlit("2-digit"); }
                "2-digit"
            },
        }
    }

    /// Parses an option string; fails on a string that is no option.
    pub fn parse(s: &str) -> (r: Result<Day, ()>)
        ensures
            match r {
                Ok(v) => day_name(v) == s@,
                Err(_) => forall|v: Day| day_name(v) != s@,
            },
    {
        let all: [Day; 2] = [Day::Numeric, Day::Digit2];
        let ghost expected = seq![Day::Numeric, Day::Digit2];
        proof { assert(all@ =~= expected); }
        let mut i: usize = 0;
        while i < 2
            invariant
                0 <= i <= 2,
                all@ == expected,
                forall|j: int| 0 <= j < i ==> day_name(#[trigger] all@[j]) != s@,
            decreases 2 - i,
        {
            let v = all[i];
            if str_eq(v.string_rep(), s) {
                return Ok(v);
            }
            i = i + 1;
        }
        assert forall|v: Day| day_name(v) != s@ by {
            match v {
                Day::Numeric => assert(all@[0] == v),
                Day::Digit2 => assert(all@[1] == v),
            }
        }
        Err(())
    }
}

impl core::str::FromStr for Day {
    type Err = ();

    fn from_str(s: &str) -> (r: Result<Self, Self::Err>)
        ensures
            match r {
                Ok(v) => day_name(v) == s@,
                Err(_) => forall|v: Day| day_name(v) != s@,
            },
    {
        Day::parse(s)
    }
}

/// Distinct `Day` values have distinct option strings, so parsing an option
/// string gives back the value it came from.
pub proof fn lemma_day_names_distinct(a: Day, b: Day)
    ensures
        (day_name(a) == day_name(b)) == (a == b),
{
    if a != b {
        assert(day_name(a).len() != day_name(b).len() || day_name(a)[0] != day_name(b)[0]
            || day_name(a)[1] != day_name(b)[1]);
    }
}

/// A value of the `hour` formatting option.
#[derive(Clone, Copy, Debug, PartialEq, Eq, Structural)]
pub enum Hour {
    /// The `numeric` option.
    Numeric,
    /// The `2-digit` option.
    Digit2,
}

/// The option string of a `Hour`.
pub open spec fn hour_name(v: Hour) -> Seq<char> {
    match v {
        Hour::Numeric => seq!['n', 'u', 'm', 'e', 'r', 'i', 'c'],
        Hour::Digit2 => seq!['2', '-', 'd', 'i', 'g', 'i', 't'],
    }
}

impl Hour {
    /// The option string of this value.
    pub fn string_rep(&self) -> (r: &'static str)
        ensures
            r@ == hour_name(*self),
    {
        match self {
            Hour::Numeric => {
                proof { reveal_strlit("numeric"); }
                "numeric"
            },
            Hour::Digit2 => {
                proof { reveal_strlit("2-digit"); }
                "2-digit"
            },
        }
    }

    /// Parses an option string; fails on a string that is no option.
    pub fn parse(s: &str) -> (r: Result<Hour, ()>)
        ensures
            match r {
                Ok(v) => hour_name(v) == s@,
                Err(_) => forall|v: Hour| hour_name(v) != s@,
            },
    {
        let all: [Hour; 2] = [Hour::Numeric, Hour::Digit2];
        let ghost expected = seq![Hour::Numeric, Hour::Digit2];
        proof { assert(all@ =~= expected); }
        let mut i: usize = 0;
        while i < 2
            invariant
                0 <= i <= 2,
                all@ == expected,
                forall|j: int| 0 <= j < i ==> hour_name(#[trigger] all@[j]) != s@,
            decreases 2 - i,
        {
            let v = all[i];
            if str_eq(v.string_rep(), s) {
                return Ok(v);
            }
            i = i + 1;
        }
        assert forall|v: Hour| hour_name(v) != s@ by {
            match v {
                Hour::Numeric => assert(all@[0] == v),
                Hour::Digit2 => assert(all@[1] == v),
            }
        }
        Err(())
    }
}

impl core::str::FromStr for Hour {
    type Err = ();

    fn from_str(s: &str) -> (r: Result<Self, Self::Err>)
        ensures
            match r {
                Ok(v) => hour_name(v) == s@,
                Err(_) => forall|v: Hour| hour_name(v) != s@,
            },
    {
        Hour::parse(s)
    }
}

/// Distinct `Hour` values have distinct option strings, so parsing an option
/// string gives back the value it came from.
pub proof fn lemma_hour_names_distinct(a: Hour, b: Hour)
    ensures
        (hour_name(a) == hour_name(b)) == (a == b),
{
    if a != b {
        assert(hour_name(a).len() != hour_name(b).len() || hour_name(a)[0] != hour_name(b)[0]
            || hour_name(a)[1] != hour_name(b)[1]);
    }
}

/// A value of the `minute` formatting option.
#[derive(Clone, Copy, Debug, PartialEq, Eq, Structural)]
pub enum Minute {
    /// The `numeric` option.
    Numeric,
    /// The `2-digit` option.
    Digit2,
}

/// The option string of a `Minute`.
pub open spec fn minute_name(v: Minute) -> Seq<char> {
    match v {
        Minute::Numeric => seq!['n', 'u', 'm', 'e', 'r', 'i', 'c'],
        Minute::Digit2 => seq!['2', '-', 'd', 'i', 'g', 'i', 't'],
    }
}

impl Minute {
    /// The option string of this value.
    pub fn string_rep(&self) -> (r: &'static str)
        ensures
            r@ == minute_name(*self),
    {
        match self {
            Minute::Numeric => {
                proof { reveal_strlit("numeric"); }
                "numeric"
            },
            Minute::Digit2 => {
                proof { reveal_strlit("2-digit"); }
                "2-digit"
            },
        }
    }

    /// Parses an option string; fails on a string that is no option.
    pub fn parse(s: &str) -> (r: Result<Minute, ()>)
        ensures
            match r {
                Ok(v) => minute_name(v) == s@,
                Err(_) => forall|v: Minute| minute_name(v) != s@,
            },
    {
        let all: [Minute; 2] = [Minute::Numeric, Minute::Digit2];
        let ghost expected = seq![Minute::Numeric, Minute::Digit2];
        proof { assert(all@ =~= expected); }
        let mut i: usize = 0;
        while i < 2
            invariant
                0 <= i <= 2,
                all@ == expected,
                forall|j: int| 0 <= j < i ==> minute_name(#[trigger] all@[j]) != s@,
            decreases 2 - i,
        {
            let v = all[i];
            if str_eq(v.string_rep(), s) {
                return Ok(v);
            }
            i = i + 1;
        }
        assert forall|v: Minute| minute_name(v) != s@ by {
            match v {
                Minute::Numeric => assert(all@[0] == v),
                Minute::Digit2 => assert(all@[1] == v),
            }
        }
        Err(())
    }
}

impl core::str::FromStr for Minute {
    type Err = ();

    fn from_str(s: &str) -> (r: Result<Self, Self::Err>)
        ensures
            match r {
                Ok(v) => minute_name(v) == s@,
                Err(_) => forall|v: Minute| minute_name(v) != s@,
            },
    {
        Minute::parse(s)
    }
}

/// Distinct `Minute` values have distinct option strings, so parsing an option
/// string gives back the value it came from.
pub proof fn lemma_minute_names_distinct(a: Minute, b: Minute)
    ensures
        (minute_name(a) == minute_name(b)) == (a == b),
{
    if a != b {
        assert(minute_name(a).len() != minute_name(b).len() || minute_name(a)[0] != minute_name(b)[0]
            || minute_name(a)[1] != minute_name(b)[1]);
    }
}

/// A value of the `second` formatting option.
#[derive(Clone, Copy, Debug, PartialEq, Eq, Structural)]
pub enum Second {
    /// The `numeric` option.
    Numeric,
    /// The `2-digit` option.
    Digit2,
}

/// The option string of a `Second`.
pub open spec fn second_name(v: Second) -> Seq<char> {
    match v {
        Second::Numeric => seq!['n', 'u', 'm', 'e', 'r', 'i', 'c'],
        Second::Digit2 => seq!['2', '-', 'd', 'i', 'g', 'i', 't'],
    }
}

impl Second {
    /// The option string of this value.
    pub fn string_rep(&self) -> (r: &'static str)
        ensures
            r@ == second_name(*self),
    {
        match self {
            Second::Numeric => {
                proof { reveal_strlit("numeric"); }
                "numeric"
            },
            Second::Digit2 => {
                proof { reveal_strlit("2-digit"); }
                "2-digit"
            },
        }
    }

    /// Parses an option string; fails on a string that is no option.
    pub fn parse(s: &str) -> (r: Result<Second, ()>)
        ensures
            match r {
                Ok(v) => second_name(v) == s@,
                Err(_) => forall|v: Second| second_name(v) != s@,
            },
    {
        let all: [Second; 2] = [Second::Numeric, Second::Digit2];
        let ghost expected = seq![Second::Numeric, Second::Digit2];
        proof { assert(all@ =~= expected); }
        let mut i: usize = 0;
        while i < 2
            invariant
                0 <= i <= 2,
                all@ == expected,
                forall|j: int| 0 <= j < i ==> second_name(#[trigger] all@[j]) != s@,
            decreases 2 - i,
        {
            let v = all[i];
            if str_eq(v.string_rep(), s) {
                return Ok(v);
            }
            i = i + 1;
        }
        assert forall|v: Second| second_name(v) != s@ by {
            match v {
                Second::Numeric => assert(all@[0] == v),
                Second::Digit2 => assert(all@[1] == v),
            }
        }
        Err(())
    }
}

impl core::str::FromStr for Second {
    type Err = ();

    fn from_str(s: &str) -> (r: Result<Self, Self::Err>)
        ensures
            match r {
                Ok(v) => second_name(v) == s@,
                Err(_) => forall|v: Second| second_name(v) != s@,
            },
    {
        Second::parse(s)
    }
}

/// Distinct `Second` values have distinct option strings, so parsing an option
/// string gives back the value it came from.
pub proof fn lemma_second_names_distinct(a: Second, b: Second)
    ensures
        (second_name(a) == second_name(b)) == (a == b),
{
    if a != b {
        assert(second_name(a).len() != second_name(b).len() || second_name(a)[0] != second_name(b)[0]
            || second_name(a)[1] != second_name(b)[1]);
    }
}

/// The options of a date-time format.
#[derive(Clone, Copy, Debug, Default)]
pub struct Options {
    /// The `year` option, if set.
    pub year: Option<Year>,
    /// The `month` option, if set.
    pub month: Option<Month>,
    /// The `day` option, if set.
    pub day: Option<Day>,
    /// The `hour` option, if set.
    pub hour: Option<Hour>,
    /// The `minute` option, if set.
    pub minute: Option<Minute>,
    /// The `second` option, if set.
    pub second: Option<Second>,
}

/// The properties of the JavaScript options object, in order.
pub open spec fn option_properties(o: Options) -> Seq<(Seq<char>, Seq<char>)> {
    property(seq!['y', 'e', 'a', 'r'], match o.year { Some(v) => Some(year_name(v)), None => None })
        + property(seq!['m', 'o', 'n', 't', 'h'], match o.month { Some(v) => Some(month_name(v)), None => None })
        + property(seq!['d', 'a', 'y'], match o.day { Some(v) => Some(day_name(v)), None => None })
        + property(seq!['h', 'o', 'u', 'r'], match o.hour { Some(v) => Some(hour_name(v)), None => None })
        + property(seq!['m', 'i', 'n', 'u', 't', 'e'], match o.minute { Some(v) => Some(minute_name(v)), None => None })
        + property(seq!['s', 'e', 'c', 'o', 'n', 'd'], match o.second { Some(v) => Some(second_name(v)), None => None })
}

impl Options {
    /// The properties of the JavaScript options object these options stand for:
    /// one `(name, value)` pair for each option that is set, in order.
    pub fn js_properties(&self) -> (r: Vec<(&'static str, &'static str)>)
        ensures
            pair_views(r@) == option_properties(*self),
    {
        let mut r: Vec<(&'static str, &'static str)> = Vec::new();
        let key = "year";
        proof {
            reveal_strlit("year");
            assert(key@ =~= seq!['y', 'e', 'a', 'r']);
        }
        let value = match &self.year {
            Some(v) => Some(v.string_rep()),
            None => None,
        };
        push_property(&mut r, key, value);
        let key = "month";
        proof {
            reveal_strlit("month");
            assert(key@ =~= seq!['m', 'o', 'n', 't', 'h']);
        }
        let value = match &self.month {
            Some(v) => Some(v.string_rep()),
            None => None,
        };
        push_property(&mut r, key, value);
        let key = "day";
        proof {
            reveal_strlit("day");
            assert(key@ =~= seq!['d', 'a', 'y']);
        }
        let value = match &self.day {
            Some(v) => Some(v.string_rep()),
            None => None,
        };
        push_property(&mut r, key, value);
        let key = "hour";
        proof {
            reveal_strlit("hour");
            assert(key@ =~= seq!['h', 'o', 'u', 'r']);
        }
        let value = match &self.hour {
            Some(v) => Some(v.string_rep()),
            None => None,
        };
        push_property(&mut r, key, value);
        let key = "minute";
        proof {
            reveal_strlit("minute");
            assert(key@ =~= seq!['m', 'i', 'n', 'u', 't', 'e']);
        }
        let value = match &self.minute {
            Some(v) => Some(v.string_rep()),
            None => None,
        };
        push_property(&mut r, key, value);
        let key = "second";
        proof {
            reveal_strlit("second");
            assert(key@ =~= seq!['s', 'e', 'c', 'o', 'n', 'd']);
        }
        let value = match &self.second {
            Some(v) => Some(v.string_rep()),
            None => None,
        };
        push_property(&mut r, key, value);
        proof {
            assert(pair_views(r@) =~= option_properties(*self));
        }
        r
    }
}

/// Each `year` value is written as its `Intl.DateTimeFormat` option string.
pub proof fn lemma_year_option_strings()
    ensures
        year_name(Year::Numeric) == "numeric"@,
        year_name(Year::Digit2) == "2-digit"@,
{
    reveal_strlit("numeric");
    reveal_strlit("2-digit");
    assert(year_name(Year::Numeric) =~= "numeric"@);
    assert(year_name(Year::Digit2) =~= "2-digit"@);
}

/// Each `month` value is written as its `Intl.DateTimeFormat` option string.
pub proof fn lemma_month_option_strings()
    ensures
        month_name(Month::Numeric) == "numeric"@,
        month_name(Month::Digit2) == "2-digit"@,
        month_name(Month::Long) == "long"@,
        month_name(Month::Short) == "short"@,
        month_name(Month::Narrow) == "narrow"@,
{
    reveal_strlit("numeric");
    reveal_strlit("2-digit");
    reveal_strlit("long");
    reveal_strlit("short");
    reveal_strlit("narrow");
    assert(month_name(Month::Numeric) =~= "numeric"@);
    assert(month_name(Month::Digit2) =~= "2-digit"@);
    assert(month_name(Month::Long) =~= "long"@);
    assert(month_name(Month::Short) =~= "short"@);
    assert(month_name(Month::Narrow) =~= "narrow"@);
}

/// Each `day` value is written as its `Intl.DateTimeFormat` option string.
pub proof fn lemma_day_option_strings()
    ensures
        day_name(Day::Numeric) == "numeric"@,
        day_name(Day::Digit2) == "2-digit"@,
{
    reveal_strlit("numeric");
    reveal_strlit("2-digit");
    assert(day_name(Day::Numeric) =~= "numeric"@);
    assert(day_name(Day::Digit2) =~= "2-digit"@);
}

/// Each `hour` value is written as its `Intl.DateTimeFormat` option string.
pub proof fn lemma_hour_option_strings()
    ensures
        hour_name(Hour::Numeric) == "numeric"@,
        hour_name(Hour::Digit2) == "2-digit"@,
{
    reveal_strlit("numeric");
    reveal_strlit("2-digit");
    assert(hour_name(Hour::Numeric) =~= "numeric"@);
    assert(hour_name(Hour::Digit2) =~= "2-digit"@);
}

/// Each `minute` value is written as its `Intl.DateTimeFormat` option string.
pub proof fn lemma_minute_option_strings()
    ensures
        minute_name(Minute::Numeric) == "numeric"@,
        minute_name(Minute::Digit2) == "2-digit"@,
{
    reveal_strlit("numeric");
    reveal_strlit("2-digit");
    assert(minute_name(Minute::Numeric) =~= "numeric"@);
    assert(minute_name(Minute::Digit2) =~= "2-digit"@);
}

/// Each `second` value is written as its `Intl.DateTimeFormat` option string.
pub proof fn lemma_second_option_strings()
    ensures
        second_name(Second::Numeric) == "numeric"@,
        second_name(Second::Digit2) == "2-digit"@,
{
    reveal_strlit("numeric");
    reveal_strlit("2-digit");
    assert(second_name(Second::Numeric) =~= "numeric"@);
    assert(second_name(Second::Digit2) =~= "2-digit"@);
}

/// The properties of a date-time format hold one pair for each option that is
/// set, under that option's own key and with that option's value, and no pair
/// under the key of an option that is not set.
#[verifier::spinoff_prover]
#[verifier::rlimit(60)]
pub proof fn lemma_js_properties_cover_options(o: Options)
    ensures
        option_properties(o).len() == (if o.year is Some { 1int } else { 0int }) + (if o.month is Some { 1int } else { 0int }) + (if o.day is Some { 1int } else { 0int }) + (if o.hour is Some { 1int } else { 0int }) + (if o.minute is Some { 1int } else { 0int }) + (if o.second is Some { 1int } else { 0int }),
        o.year matches Some(v) ==> option_properties(o).contains(("year"@, year_name(v))),
        o.year is None ==> forall|v: Seq<char>| !#[trigger] option_properties(o).contains(("year"@, v)),
        o.month matches Some(v) ==> option_properties(o).contains(("month"@, month_name(v))),
        o.month is None ==> forall|v: Seq<char>| !#[trigger] option_properties(o).contains(("month"@, v)),
        o.day matches Some(v) ==> option_properties(o).contains(("day"@, day_name(v))),
        o.day is None ==> forall|v: Seq<char>| !#[trigger] option_properties(o).contains(("day"@, v)),
        o.hour matches Some(v) ==> option_properties(o).contains(("hour"@, hour_name(v))),
        o.hour is None ==> forall|v: Seq<char>| !#[trigger] option_properties(o).contains(("hour"@, v)),
        o.minute matches Some(v) ==> option_properties(o).contains(("minute"@, minute_name(v))),
        o.minute is None ==> forall|v: Seq<char>| !#[trigger] option_properties(o).contains(("minute"@, v)),
        o.second matches Some(v) ==> option_properties(o).contains(("second"@, second_name(v))),
        o.second is None ==> forall|v: Seq<char>| !#[trigger] option_properties(o).contains(("second"@, v)),
{
    reveal_strlit("year");
    assert("year"@ =~= seq!['y', 'e', 'a', 'r']);
    reveal_strlit("month");
    assert("month"@ =~= seq!['m', 'o', 'n', 't', 'h']);
    reveal_strlit("day");
    assert("day"@ =~= seq!['d', 'a', 'y']);
    reveal_strlit("hour");
    assert("hour"@ =~= seq!['h', 'o', 'u', 'r']);
    reveal_strlit("minute");
    assert("minute"@ =~= seq!['m', 'i', 'n', 'u', 't', 'e']);
    reveal_strlit("second");
    assert("second"@ =~= seq!['s', 'e', 'c', 'o', 'n', 'd']);
    let p0 = property(seq!['y', 'e', 'a', 'r'], match o.year { Some(v) => Some(year_name(v)), None => None });
    lemma_property_contains(seq!['y', 'e', 'a', 'r'], match o.year { Some(v) => Some(year_name(v)), None => None }, (Seq::empty(), Seq::empty()));
    let p1 = property(seq!['m', 'o', 'n', 't', 'h'], match o.month { Some(v) => Some(month_name(v)), None => None });
    lemma_property_contains(seq!['m', 'o', 'n', 't', 'h'], match o.month { Some(v) => Some(month_name(v)), None => None }, (Seq::empty(), Seq::empty()));
    let p2 = property(seq!['d', 'a', 'y'], match o.day { Some(v) => Some(day_name(v)), None => None });
    lemma_property_contains(seq!['d', 'a', 'y'], match o.day { Some(v) => Some(day_name(v)), None => None }, (Seq::empty(), Seq::empty()));
    let p3 = property(seq!['h', 'o', 'u', 'r'], match o.hour { Some(v) => Some(hour_name(v)), None => None });
    lemma_property_contains(seq!['h', 'o', 'u', 'r'], match o.hour { Some(v) => Some(hour_name(v)), None => None }, (Seq::empty(), Seq::empty()));
    let p4 = property(seq!['m', 'i', 'n', 'u', 't', 'e'], match o.minute { Some(v) => Some(minute_name(v)), None => None });
    lemma_property_contains(seq!['m', 'i', 'n', 'u', 't', 'e'], match o.minute { Some(v) => Some(minute_name(v)), None => None }, (Seq::empty(), Seq::empty()));
    let p5 = property(seq!['s', 'e', 'c', 'o', 'n', 'd'], match o.second { Some(v) => Some(second_name(v)), None => None });
    lemma_property_contains(seq!['s', 'e', 'c', 'o', 'n', 'd'], match o.second { Some(v) => Some(second_name(v)), None => None }, (Seq::empty(), Seq::empty()));
    assert(option_properties(o) == p0 + p1 + p2 + p3 + p4 + p5);
    assert forall|x: (Seq<char>, Seq<char>)| #[trigger] option_properties(o).contains(x) == (
        (o.year matches Some(v) && x == (seq!['y', 'e', 'a', 'r'], year_name(v)))
        || (o.month matches Some(v) && x == (seq!['m', 'o', 'n', 't', 'h'], month_name(v)))
        || (o.day matches Some(v) && x == (seq!['d', 'a', 'y'], day_name(v)))
        || (o.hour matches Some(v) && x == (seq!['h', 'o', 'u', 'r'], hour_name(v)))
        || (o.minute matches Some(v) && x == (seq!['m', 'i', 'n', 'u', 't', 'e'], minute_name(v)))
        || (o.second matches Some(v) && x == (seq!['s', 'e', 'c', 'o', 'n', 'd'], second_name(v)))) by {
        lemma_in_concat(p0, p1, x);
        lemma_in_concat(p0 + p1, p2, x);
        lemma_in_concat(p0 + p1 + p2, p3, x);
        lemma_in_concat(p0 + p1 + p2 + p3, p4, x);
        lemma_in_concat(p0 + p1 + p2 + p3 + p4, p5, x);
        lemma_property_contains(seq!['y', 'e', 'a', 'r'], match o.year { Some(v) => Some(year_name(v)), None => None }, x);
        lemma_property_contains(seq!['m', 'o', 'n', 't', 'h'], match o.month { Some(v) => Some(month_name(v)), None => None }, x);
        lemma_property_contains(seq!['d', 'a', 'y'], match o.day { Some(v) => Some(day_name(v)), None => None }, x);
        lemma_property_contains(seq!['h', 'o', 'u', 'r'], match o.hour { Some(v) => Some(hour_name(v)), None => None }, x);
        lemma_property_contains(seq!['m', 'i', 'n', 'u', 't', 'e'], match o.minute { Some(v) => Some(minute_name(v)), None => None }, x);
        lemma_property_contains(seq!['s', 'e', 'c', 'o', 'n', 'd'], match o.second { Some(v) => Some(second_name(v)), None => None }, x);
    }
}

} // verus!
