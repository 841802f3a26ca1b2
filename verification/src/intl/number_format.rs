use vstd::prelude::*;

use crate::intl::{lemma_in_concat, lemma_property_contains, pair_views, property, push_property};
use crate::text::str_eq;

verus! {

/// A value of the `style` formatting option.
#[derive(Clone, Copy, Debug, PartialEq, Eq, Structural)]
pub enum Style {
    /// The `decimal` option.
    Decimal,
    /// The `currency` option.
    Currency,
    /// The `percent` option.
    Percent,
    /// The `unit` option.
    Unit,
}

/// The option string of a `Style`.
pub open spec fn style_name(v: Style) -> Seq<char> {
    match v {
        Style::Decimal => seq!['d', 'e', 'c', 'i', 'm', 'a', 'l'],
        Style::Currency => seq!['c', 'u', 'r', 'r', 'e', 'n', 'c', 'y'],
        Style::Percent => seq!['p', 'e', 'r', 'c', 'e', 'n', 't'],
        Style::Unit => seq!['u', 'n', 'i', 't'],
    }
}

impl Style {
    /// The option string of this value.
    pub fn string_rep(&self) -> (r: &'static str)
        ensures
            r@ == style_name(*self),
    {
        match self {
            Style::Decimal => {
                proof { reveal_strlit("decimal"); }
                "decimal"
            },
            Style::Currency => {
                proof { reveal_strlit("currency"); }
                "currency"
            },
            Style::Percent => {
                proof { reveal_strlit("percent"); }
                "percent"
            },
            Style::Unit => {
                proof { reveal_strlit("unit"); }
                "unit"
            },
        }
    }

    /// Parses an option string; fails on a string that is no option.
    pub fn parse(s: &str) -> (r: Result<Style, ()>)
        ensures
            match r {
                Ok(v) => style_name(v) == s@,
                Err(_) => forall|v: Style| style_name(v) != s@,
            },
    {
        let all: [Style; 4] = [Style::Decimal, Style::Currency, Style::Percent, Style::Unit];
        let ghost expected = seq![Style::Decimal, Style::Currency, Style::Percent, Style::Unit];
        proof { assert(all@ =~= expected); }
        let mut i: usize = 0;
        while i < 4
            invariant
                0 <= i <= 4,
                all@ == expected,
                forall|j: int| 0 <= j < i ==> style_name(#[trigger] all@[j]) != s@,
            decreases 4 - i,
        {
            let v = all[i];
            if str_eq(v.string_rep(), s) {
                return Ok(v);
            }
            i = i + 1;
        }
        assert forall|v: Style| style_name(v) != s@ by {
            match v {
                Style::Decimal => assert(all@[0] == v),
                Style::Currency => assert(all@[1] == v),
                Style::Percent => assert(all@[2] == v),
                Style::Unit => assert(all@[3] == v),
            }
        }
        Err(())
    }
}

impl core::str::FromStr for Style {
    type Err = ();

    fn from_str(s: &str) -> (r: Result<Self, Self::Err>)
        ensures
            match r {
                Ok(v) => style_name(v) == s@,
                Err(_) => forall|v: Style| style_name(v) != s@,
            },
    {
        Style::parse(s)
    }
}

/// Distinct `Style` values have distinct option strings, so parsing an option
/// string gives back the value it came from.
pub proof fn lemma_style_names_distinct(a: Style, b: Style)
    ensures
        (style_name(a) == style_name(b)) == (a == b),
{
    if a != b {
        assert(style_name(a).len() != style_name(b).len() || style_name(a)[0] != style_name(b)[0]
            || style_name(a)[1] != style_name(b)[1]);
    }
}

/// A value of the `currencyDisplay` formatting option.
#[derive(Clone, Copy, Debug, PartialEq, Eq, Structural)]
pub enum CurrencyDisplay {
    /// The `code` option.
    Code,
    /// The `symbol` option.
    Symbol,
    /// The `narrowSymbol` option.
    NarrowSymbol,
    /// The `name` option.
    Name,
}

/// The option string of a `CurrencyDisplay`.
pub open spec fn currency_display_name(v: CurrencyDisplay) -> Seq<char> {
    match v {
        CurrencyDisplay::Code => seq!['c', 'o', 'd', 'e'],
        CurrencyDisplay::Symbol => seq!['s', 'y', 'm', 'b', 'o', 'l'],
        CurrencyDisplay::NarrowSymbol => seq!['n', 'a', 'r', 'r', 'o', 'w', 'S', 'y', 'm', 'b', 'o', 'l'],
        CurrencyDisplay::Name => seq!['n', 'a', 'm', 'e'],
    }
}

impl CurrencyDisplay {
    /// The option string of this value.
    pub fn string_rep(&self) -> (r: &'static str)
        ensures
            r@ == currency_display_name(*self),
    {
        match self {
            CurrencyDisplay::Code => {
                proof { reveal_strlit("code"); }
                "code"
            },
            CurrencyDisplay::Symbol => {
                proof { reveal_strlit("symbol"); }
                "symbol"
            },
            CurrencyDisplay::NarrowSymbol => {
                proof { reveal_strlit("narrowSymbol"); }
                "narrowSymbol"
            },
            CurrencyDisplay::Name => {
                proof { reveal_strlit("name"); }
                "name"
            },
        }
    }

    /// Parses an option string; fails on a string that is no option.
    pub fn parse(s: &str) -> (r: Result<CurrencyDisplay, ()>)
        ensures
            match r {
                Ok(v) => currency_display_name(v) == s@,
                Err(_) => forall|v: CurrencyDisplay| currency_display_name(v) != s@,
            },
    {
        let all: [CurrencyDisplay; 4] = [CurrencyDisplay::Code, CurrencyDisplay::Symbol, CurrencyDisplay::NarrowSymbol, CurrencyDisplay::Name];
        let ghost expected = seq![CurrencyDisplay::Code, CurrencyDisplay::Symbol, CurrencyDisplay::NarrowSymbol, CurrencyDisplay::Name];
        proof { assert(all@ =~= expected); }
        let mut i: usize = 0;
        while i < 4
            invariant
                0 <= i <= 4,
                all@ == expected,
                forall|j: int| 0 <= j < i ==> currency_display_name(#[trigger] all@[j]) != s@,
            decreases 4 - i,
        {
            let v = all[i];
            if str_eq(v.string_rep(), s) {
                return Ok(v);
            }
            i = i + 1;
        }
        assert forall|v: CurrencyDisplay| currency_display_name(v) != s@ by {
            match v {
                CurrencyDisplay::Code => assert(all@[0] == v),
                CurrencyDisplay::Symbol => assert(all@[1] == v),
                CurrencyDisplay::NarrowSymbol => assert(all@[2] == v),
                CurrencyDisplay::Name => assert(all@[3] == v),
            }
        }
        Err(())
    }
}

impl core::str::FromStr for CurrencyDisplay {
    type Err = ();

    fn from_str(s: &str) -> (r: Result<Self, Self::Err>)
        ensures
            match r {
                Ok(v) => currency_display_name(v) == s@,
                Err(_) => forall|v: CurrencyDisplay| currency_display_name(v) != s@,
            },
    {
        CurrencyDisplay::parse(s)
    }
}

/// Distinct `CurrencyDisplay` values have distinct option strings, so parsing an option
/// string gives back the value it came from.
pub proof fn lemma_currency_display_names_distinct(a: CurrencyDisplay, b: CurrencyDisplay)
    ensures
        (currency_display_name(a) == currency_display_name(b)) == (a == b),
{
    if a != b {
        assert(currency_display_name(a).len() != currency_display_name(b).len() || currency_display_name(a)[0] != currency_display_name(b)[0]
            || currency_display_name(a)[1] != currency_display_name(b)[1]);
    }
}

/// A value of the `currencySign` formatting option.
#[derive(Clone, Copy, Debug, PartialEq, Eq, Structural)]
pub enum CurrencySign {
    /// The `standard` option.
    Standard,
    /// The `accounting` option.
    Accounting,
}

/// The option string of a `CurrencySign`.
pub open spec fn currency_sign_name(v: CurrencySign) -> Seq<char> {
    match v {
        CurrencySign::Standard => seq!['s', 't', 'a', 'n', 'd', 'a', 'r', 'd'],
        CurrencySign::Accounting => seq!['a', 'c', 'c', 'o', 'u', 'n', 't', 'i', 'n', 'g'],
    }
}

impl CurrencySign {
    /// The option string of this value.
    pub fn string_rep(&self) -> (r: &'static str)
        ensures
            r@ == currency_sign_name(*self),
    {
        match self {
            CurrencySign::Standard => {
                proof { reveal_strlit("standard"); }
                "standard"
            },
            CurrencySign::Accounting => {
                proof { reveal_strlit("accounting"); }
                "accounting"
            },
        }
    }

    /// Parses an option string; fails on a string that is no option.
    pub fn parse(s: &str) -> (r: Result<CurrencySign, ()>)
        ensures
            match r {
                Ok(v) => currency_sign_name(v) == s@,
                Err(_) => forall|v: CurrencySign| currency_sign_name(v) != s@,
            },
    {
        let all: [CurrencySign; 2] = [CurrencySign::Standard, CurrencySign::Accounting];
        let ghost expected = seq![CurrencySign::Standard, CurrencySign::Accounting];
        proof { assert(all@ =~= expected); }
        let mut i: usize = 0;
        while i < 2
            invariant
                0 <= i <= 2,
                all@ == expected,
                forall|j: int| 0 <= j < i ==> currency_sign_name(#[trigger] all@[j]) != s@,
            decreases 2 - i,
        {
            let v = all[i];
            if str_eq(v.string_rep(), s) {
                return Ok(v);
            }
            i = i + 1;
        }
        assert forall|v: CurrencySign| currency_sign_name(v) != s@ by {
            match v {
                CurrencySign::Standard => assert(all@[0] == v),
                CurrencySign::Accounting => assert(all@[1] == v),
            }
        }
        Err(())
    }
}

impl core::str::FromStr for CurrencySign {
    type Err = ();

    fn from_str(s: &str) -> (r: Result<Self, Self::Err>)
        ensures
            match r {
                Ok(v) => currency_sign_name(v) == s@,
                Err(_) => forall|v: CurrencySign| currency_sign_name(v) != s@,
            },
    {
        CurrencySign::parse(s)
    }
}

/// Distinct `CurrencySign` values have distinct option strings, so parsing an option
/// string gives back the value it came from.
pub proof fn lemma_currency_sign_names_distinct(a: CurrencySign, b: CurrencySign)
    ensures
        (currency_sign_name(a) == currency_sign_name(b)) == (a == b),
{
    if a != b {
        assert(currency_sign_name(a).len() != currency_sign_name(b).len() || currency_sign_name(a)[0] != currency_sign_name(b)[0]
            || currency_sign_name(a)[1] != currency_sign_name(b)[1]);
    }
}

/// The options of a number format.
#[derive(Clone, Copy, Debug, Default)]
pub struct Options {
    /// The `style` option, if set.
    pub style: Option<Style>,
    /// The `currencyDisplay` option, if set.
    pub currency_display: Option<CurrencyDisplay>,
    /// The `currencySign` option, if set.
    pub currency_sign: Option<CurrencySign>,
}

/// The properties of the JavaScript options object, in order.
pub open spec fn option_properties(o: Options) -> Seq<(Seq<char>, Seq<char>)> {
    property(seq!['s', 't', 'y', 'l', 'e'], match o.style { Some(v) => Some(style_name(v)), None => None })
        + property(seq!['c', 'u', 'r', 'r', 'e', 'n', 'c', 'y', 'D', 'i', 's', 'p', 'l', 'a', 'y'], match o.currency_display { Some(v) => Some(currency_display_name(v)), None => None })
        + property(seq!['c', 'u', 'r', 'r', 'e', 'n', 'c', 'y', 'S', 'i', 'g', 'n'], match o.currency_sign { Some(v) => Some(currency_sign_name(v)), None => None })
}

impl Options {
    /// The properties of the JavaScript options object these options stand for:
    /// one `(name, value)` pair for each option that is set, in order.
    pub fn js_properties(&self) -> (r: Vec<(&'static str, &'static str)>)
        ensures
            pair_views(r@) == option_properties(*self),
    {
        let mut r: Vec<(&'static str, &'static str)> = Vec::new();
        let key = "style";
        proof {
            reveal_strlit("style");
            assert(key@ =~= seq!['s', 't', 'y', 'l', 'e']);
        }
        let value = match &self.style {
            Some(v) => Some(v.string_rep()),
            None => None,
        };
        push_property(&mut r, key, value);
        let key = "currencyDisplay";
        proof {
            reveal_strlit("currencyDisplay");
            assert(key@ =~= seq!['c', 'u', 'r', 'r', 'e', 'n', 'c', 'y', 'D', 'i', 's', 'p', 'l', 'a', 'y']);
        }
        let value = match &self.currency_display {
            Some(v) => Some(v.string_rep()),
            None => None,
        };
        push_property(&mut r, key, value);
        let key = "currencySign";
        proof {
            reveal_strlit("currencySign");
            assert(key@ =~= seq!['c', 'u', 'r', 'r', 'e', 'n', 'c', 'y', 'S', 'i', 'g', 'n']);
        }
        let value = match &self.currency_sign {
            Some(v) => Some(v.string_rep()),
            None => None,
        };
        push_property(&mut r, key, value);
        proof {
            assert(pair_views(r@) =~= option_properties(*self));
        }
        r
    }
}

/// Each `style` value is written as its `Intl.NumberFormat` option string.
pub proof fn lemma_style_option_strings()
    ensures
        style_name(Style::Decimal) == "decimal"@,
        style_name(Style::Currency) == "currency"@,
        style_name(Style::Percent) == "percent"@,
        style_name(Style::Unit) == "unit"@,
{
    reveal_strlit("decimal");
    reveal_strlit("currency");
    reveal_strlit("percent");
    reveal_strlit("unit");
    assert(style_name(Style::Decimal) =~= "decimal"@);
    assert(style_name(Style::Currency) =~= "currency"@);
    assert(style_name(Style::Percent) =~= "percent"@);
    assert(style_name(Style::Unit) =~= "unit"@);
}

/// Each `currencyDisplay` value is written as its `Intl.NumberFormat` option string.
pub proof fn lemma_currency_display_option_strings()
    ensures
        currency_display_name(CurrencyDisplay::Code) == "code"@,
        currency_display_name(CurrencyDisplay::Symbol) == "symbol"@,
        currency_display_name(CurrencyDisplay::NarrowSymbol) == "narrowSymbol"@,
        currency_display_name(CurrencyDisplay::Name) == "name"@,
{
    reveal_strlit("code");
    reveal_strlit("symbol");
    reveal_strlit("narrowSymbol");
    reveal_strlit("name");
    assert(currency_display_name(CurrencyDisplay::Code) =~= "code"@);
    assert(currency_display_name(CurrencyDisplay::Symbol) =~= "symbol"@);
    assert(currency_display_name(CurrencyDisplay::NarrowSymbol) =~= "narrowSymbol"@);
    assert(currency_display_name(CurrencyDisplay::Name) =~= "name"@);
}

/// Each `currencySign` value is written as its `Intl.NumberFormat` option string.
pub proof fn lemma_currency_sign_option_strings()
    ensures
        currency_sign_name(CurrencySign::Standard) == "standard"@,
        currency_sign_name(CurrencySign::Accounting) == "accounting"@,
{
    reveal_strlit("standard");
    reveal_strlit("accounting");
    assert(currency_sign_name(CurrencySign::Standard) =~= "standard"@);
    assert(currency_sign_name(CurrencySign::Accounting) =~= "accounting"@);
}

/// The properties of a number format hold one pair for each option that is
/// set, under that option's own key and with that option's value, and no pair
/// under the key of an option that is not set.
#[verifier::spinoff_prover]
#[verifier::rlimit(60)]
pub proof fn lemma_js_properties_cover_options(o: Options)
    ensures
        option_properties(o).len() == (if o.style is Some { 1int } else { 0int }) + (if o.currency_display is Some { 1int } else { 0int }) + (if o.currency_sign is Some { 1int } else { 0int }),
        o.style matches Some(v) ==> option_properties(o).contains(("style"@, style_name(v))),
        o.style is None ==> forall|v: Seq<char>| !#[trigger] option_properties(o).contains(("style"@, v)),
        o.currency_display matches Some(v) ==> option_properties(o).contains(("currencyDisplay"@, currency_display_name(v))),
        o.currency_display is None ==> forall|v: Seq<char>| !#[trigger] option_properties(o).contains(("currencyDisplay"@, v)),
        o.currency_sign matches Some(v) ==> option_properties(o).contains(("currencySign"@, currency_sign_name(v))),
        o.currency_sign is None ==> forall|v: Seq<char>| !#[trigger] option_properties(o).contains(("currencySign"@, v)),
{
    reveal_strlit("style");
    assert("style"@ =~= seq!['s', 't', 'y', 'l', 'e']);
    reveal_strlit("currencyDisplay");
    assert("currencyDisplay"@ =~= seq!['c', 'u', 'r', 'r', 'e', 'n', 'c', 'y', 'D', 'i', 's', 'p', 'l', 'a', 'y']);
    reveal_strlit("currencySign");
    assert("currencySign"@ =~= seq!['c', 'u', 'r', 'r', 'e', 'n', 'c', 'y', 'S', 'i', 'g', 'n']);
    let p0 = property(seq!['s', 't', 'y', 'l', 'e'], match o.style { Some(v) => Some(style_name(v)), None => None });
    lemma_property_contains(seq!['s', 't', 'y', 'l', 'e'], match o.style { Some(v) => Some(style_name(v)), None => None }, (Seq::empty(), Seq::empty()));
    let p1 = property(seq!['c', 'u', 'r', 'r', 'e', 'n', 'c', 'y', 'D', 'i', 's', 'p', 'l', 'a', 'y'], match o.currency_display { Some(v) => Some(currency_display_name(v)), None => None });
    lemma_property_contains(seq!['c', 'u', 'r', 'r', 'e', 'n', 'c', 'y', 'D', 'i', 's', 'p', 'l', 'a', 'y'], match o.currency_display { Some(v) => Some(currency_display_name(v)), None => None }, (Seq::empty(), Seq::empty()));
    let p2 = property(seq!['c', 'u', 'r', 'r', 'e', 'n', 'c', 'y', 'S', 'i', 'g', 'n'], match o.currency_sign { Some(v) => Some(currency_sign_name(v)), None => None });
    lemma_property_contains(seq!['c', 'u', 'r', 'r', 'e', 'n', 'c', 'y', 'S', 'i', 'g', 'n'], match o.currency_sign { Some(v) => Some(currency_sign_name(v)), None => None }, (Seq::empty(), Seq::empty()));
    assert(option_properties(o) == p0 + p1 + p2);
    assert forall|x: (Seq<char>, Seq<char>)| #[trigger] option_properties(o).contains(x) == (
        (o.style matches Some(v) && x == (seq!['s', 't', 'y', 'l', 'e'], style_name(v)))
        || (o.currency_display matches Some(v) && x == (seq!['c', 'u', 'r', 'r', 'e', 'n', 'c', 'y', 'D', 'i', 's', 'p', 'l', 'a', 'y'], currency_display_name(v)))
        || (o.currency_sign matches Some(v) && x == (seq!['c', 'u', 'r', 'r', 'e', 'n', 'c', 'y', 'S', 'i', 'g', 'n'], currency_sign_name(v)))) by {
        lemma_in_concat(p0, p1, x);
        lemma_in_concat(p0 + p1, p2, x);
        lemma_property_contains(seq!['s', 't', 'y', 'l', 'e'], match o.style { Some(v) => Some(style_name(v)), None => None }, x);
        lemma_property_contains(seq!['c', 'u', 'r', 'r', 'e', 'n', 'c', 'y', 'D', 'i', 's', 'p', 'l', 'a', 'y'], match o.currency_display { Some(v) => Some(currency_display_name(v)), None => None }, x);
        lemma_property_contains(seq!['c', 'u', 'r', 'r', 'e', 'n', 'c', 'y', 'S', 'i', 'g', 'n'], match o.currency_sign { Some(v) => Some(currency_sign_name(v)), None => None }, x);
    }
}

} // verus!
