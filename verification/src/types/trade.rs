use vstd::prelude::*;
use vstd::string::StringSliceAdditionalSpecFns;

verus! {

/// Which price of a bar a strategy reads.
#[derive(Debug, Clone, Copy, PartialEq, Eq, Structural)]
pub enum Source {
    Open,
    High,
    Low,
    Close,
}

#[derive(Debug, Clone, Copy, PartialEq, Eq, Structural)]
pub enum TradeType {
    EnterLong,
    ExitLong,
    EnterShort,
    ExitShort,
}

impl TradeType {
    /// Whether the trade opens a position.
    pub fn is_entry(&self) -> (r: bool)
        ensures
            r == (*self == TradeType::EnterLong || *self == TradeType::EnterShort),
    {
        match self {
            TradeType::EnterLong => true,
            TradeType::EnterShort => true,
            _ => false,
        }
    }

    /// Whether the trade closes a position.
    pub fn is_exit(&self) -> (r: bool)
        ensures
            r == (*self == TradeType::ExitLong || *self == TradeType::ExitShort),
    {
        match self {
            TradeType::ExitLong => true,
            TradeType::ExitShort => true,
            _ => false,
        }
    }
}

/// The signals a strategy raises for one bar.
pub struct Signals {
    pub enter_long: bool,
    pub exit_long: bool,
    pub enter_short: bool,
    pub exit_short: bool,
}

#[derive(Debug, Clone, Copy, PartialEq, Eq, Structural, Hash)]
pub enum TradeAction {
    EnterLong,
    ExitLong,
    EnterShort,
    ExitShort,
}

impl TradeAction {
    /// Whether the action opens a position.
    pub fn is_entry(&self) -> (r: bool)
        ensures
            r == (*self == TradeAction::EnterLong || *self == TradeAction::EnterShort),
    {
        match self {
            TradeAction::EnterLong => true,
            TradeAction::EnterShort => true,
            _ => false,
        }
    }

    /// Whether the action closes a position.
    pub fn is_exit(&self) -> (r: bool)
        ensures
            r == (*self == TradeAction::ExitLong || *self == TradeAction::ExitShort),
    {
        match self {
            TradeAction::ExitLong => true,
            TradeAction::ExitShort => true,
            _ => false,
        }
    }
}

/// The bar interval of a series.
#[derive(Debug, Clone, Copy, PartialEq, Eq, Structural)]
pub enum Timeframe {
    OneMinute,
    OneHour,
    OneDay,
}

/// The timeframe that a label names: "1m", "1h" and "1d"; any other label
/// stands for one day.
pub open spec fn timeframe_of(label: Seq<u8>) -> Timeframe {
    if label == seq![49u8, 109u8] {
        Timeframe::OneMinute
    } else if label == seq![49u8, 104u8] {
        Timeframe::OneHour
    } else {
        Timeframe::OneDay
    }
}

impl<'a> From<&'a str> for Timeframe {
    fn from(s: &'a str) -> (r: Self) {
        let b = s.as_bytes();
        if b.len() == 2 && b[0] == 49u8 {
            if b[1] == 109u8 {
                assert(b@ =~= seq![49u8, 109u8]);
                return Timeframe::OneMinute;
            }
            if b[1] == 104u8 {
                assert(b@ =~= seq![49u8, 104u8]);
                return Timeframe::OneHour;
            }
        }
        Timeframe::OneDay
    }
}

impl<'a> vstd::std_specs::convert::FromSpecImpl<&'a str> for Timeframe {
    open spec fn obeys_from_spec() -> bool {
        true
    }

    open spec fn from_spec(s: &'a str) -> Self {
        timeframe_of(s.spec_bytes())
    }
}

} // verus!
