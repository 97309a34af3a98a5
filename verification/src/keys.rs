//! The two closed enumerations of the fact sheet: time periods and semantic tags.

use vstd::prelude::*;

verus! {

/// A time period. The position of a variant in this enumeration is the position
/// of its surface form in the `"period"` entry of a dictionary.
#[derive(Debug, Copy, Clone, PartialEq, Eq, Hash, Structural)]
pub enum Period {
    Day,
    Week,
    Month,
    Quarter,
    Year,
}

/// A semantic tag that a prompt may carry.
#[derive(Debug, Copy, Clone, PartialEq, Eq, Hash, Structural)]
pub enum PromptKey {
    Object,
    Document,
    Description,
    Comparison,
    Last,
    New,
    All,
    Period,
    Amount,
}

impl Period {
    /// The periods in enumeration order.
    pub open spec fn ordered() -> Seq<Period> {
        seq![Period::Day, Period::Week, Period::Month, Period::Quarter, Period::Year]
    }

    /// The period at ordinal position `index`, if there is one.
    pub open spec fn nth(index: int) -> Option<Period> {
        if 0 <= index < Self::ordered().len() {
            Some(Self::ordered()[index])
        } else {
            None
        }
    }

    /// Ordinal position of this period.
    pub open spec fn ordinal(self) -> int {
        match self {
            Period::Day => 0,
            Period::Week => 1,
            Period::Month => 2,
            Period::Quarter => 3,
            Period::Year => 4,
        }
    }

    /// The period at ordinal position `index`; `None` when `index` is past the
    /// last period.
    pub fn from_index(index: usize) -> (r: Option<Period>)
        ensures
            r == Self::nth(index as int),
    {
        if index == 0 {
            Some(Period::Day)
        } else if index == 1 {
            Some(Period::Week)
        } else if index == 2 {
            Some(Period::Month)
        } else if index == 3 {
            Some(Period::Quarter)
        } else if index == 4 {
            Some(Period::Year)
        } else {
            None
        }
    }

    /// Ordinal position of this period.
    pub fn index(self) -> (r: usize)
        ensures
            r == self.ordinal(),
            Self::nth(r as int) == Some(self),
    {
        match self {
            Period::Day => 0,
            Period::Week => 1,
            Period::Month => 2,
            Period::Quarter => 3,
            Period::Year => 4,
        }
    }

    /// The periods in enumeration order.
    pub fn all() -> (r: Vec<Period>)
        ensures
            r@ == Self::ordered(),
    {
        let r = vec![Period::Day, Period::Week, Period::Month, Period::Quarter, Period::Year];
        assert(r@ =~= Self::ordered());
        r
    }

    /// The name of this period, as the variant is written.
    pub fn name(self) -> (r: &'static str)
        ensures
            r@ == self.name_text(),
    {
        match self {
            Period::Day => "Day",
            Period::Week => "Week",
            Period::Month => "Month",
            Period::Quarter => "Quarter",
            Period::Year => "Year",
        }
    }

    /// The name of this period, as the variant is written.
    pub open spec fn name_text(self) -> Seq<char> {
        match self {
            Period::Day => "Day"@,
            Period::Week => "Week"@,
            Period::Month => "Month"@,
            Period::Quarter => "Quarter"@,
            Period::Year => "Year"@,
        }
    }
}

impl PromptKey {
    /// The keys in enumeration order.
    pub open spec fn ordered() -> Seq<PromptKey> {
        seq![
            PromptKey::Object,
            PromptKey::Document,
            PromptKey::Description,
            PromptKey::Comparison,
            PromptKey::Last,
            PromptKey::New,
            PromptKey::All,
            PromptKey::Period,
            PromptKey::Amount,
        ]
    }

    /// Ordinal position of this key.
    pub open spec fn ordinal(self) -> int {
        match self {
            PromptKey::Object => 0,
            PromptKey::Document => 1,
            PromptKey::Description => 2,
            PromptKey::Comparison => 3,
            PromptKey::Last => 4,
            PromptKey::New => 5,
            PromptKey::All => 6,
            PromptKey::Period => 7,
            PromptKey::Amount => 8,
        }
    }

    /// Whether this key is found by the mere presence of one of its words. The
    /// two others, `Period` and `Amount`, carry a value and have rules of their
    /// own.
    pub open spec fn is_generic(self) -> bool {
        self != PromptKey::Period && self != PromptKey::Amount
    }

    /// The name of this key, as the variant is written.
    pub open spec fn name_text(self) -> Seq<char> {
        match self {
            PromptKey::Object => "Object"@,
            PromptKey::Document => "Document"@,
            PromptKey::Description => "Description"@,
            PromptKey::Comparison => "Comparison"@,
            PromptKey::Last => "Last"@,
            PromptKey::New => "New"@,
            PromptKey::All => "All"@,
            PromptKey::Period => "Period"@,
            PromptKey::Amount => "Amount"@,
        }
    }

    /// The dictionary category of this key: its name in lower case.
    pub open spec fn category_text(self) -> Seq<char> {
        match self {
            PromptKey::Object => "object"@,
            PromptKey::Document => "document"@,
            PromptKey::Description => "description"@,
            PromptKey::Comparison => "comparison"@,
            PromptKey::Last => "last"@,
            PromptKey::New => "new"@,
            PromptKey::All => "all"@,
            PromptKey::Period => "period"@,
            PromptKey::Amount => "amount"@,
        }
    }

    /// The keys in enumeration order.
    pub fn all() -> (r: Vec<PromptKey>)
        ensures
            r@ == Self::ordered(),
    {
        let r = vec![
            PromptKey::Object,
            PromptKey::Document,
            PromptKey::Description,
            PromptKey::Comparison,
            PromptKey::Last,
            PromptKey::New,
            PromptKey::All,
            PromptKey::Period,
            PromptKey::Amount,
        ];
        assert(r@ =~= Self::ordered());
        r
    }

    /// The name of this key, as the variant is written.
    pub fn name(self) -> (r: &'static str)
        ensures
            r@ == self.name_text(),
    {
        match self {
            PromptKey::Object => "Object",
            PromptKey::Document => "Document",
            PromptKey::Description => "Description",
            PromptKey::Comparison => "Comparison",
            PromptKey::Last => "Last",
            PromptKey::New => "New",
            PromptKey::All => "All",
            PromptKey::Period => "Period",
            PromptKey::Amount => "Amount",
        }
    }

    /// The dictionary category of this key: its name in lower case.
    pub fn category(self) -> (r: &'static str)
        ensures
            r@ == self.category_text(),
    {
        match self {
            PromptKey::Object => "object",
            PromptKey::Document => "document",
            PromptKey::Description => "description",
            PromptKey::Comparison => "comparison",
            PromptKey::Last => "last",
            PromptKey::New => "new",
            PromptKey::All => "all",
            PromptKey::Period => "period",
            PromptKey::Amount => "amount",
        }
    }
}

} // verus!
