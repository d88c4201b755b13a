//! The closed set of bar sizes, their durations and their canonical
//! wire tags (lowercase, except the monthly tag `1M`).

use crate::utils::str_eq;
use vstd::prelude::*;

verus! {

#[derive(Clone, Copy, Debug, PartialEq, Eq, Structural, Hash)]
pub enum Timeframe {
    S1,
    M1,
    M3,
    M5,
    M15,
    M30,
    H1,
    H2,
    H4,
    H6,
    H8,
    H12,
    D1,
    D3,
    W1,
    MN1,
}

/// Duration of one bar in milliseconds (a month counts as 30 days).
pub open spec fn spec_to_ms(t: Timeframe) -> u64 {
    match t {
        Timeframe::S1 => 1_000,
        Timeframe::M1 => 60_000,
        Timeframe::M3 => 180_000,
        Timeframe::M5 => 300_000,
        Timeframe::M15 => 900_000,
        Timeframe::M30 => 1_800_000,
        Timeframe::H1 => 3_600_000,
        Timeframe::H2 => 7_200_000,
        Timeframe::H4 => 14_400_000,
        Timeframe::H6 => 21_600_000,
        Timeframe::H8 => 28_800_000,
        Timeframe::H12 => 43_200_000,
        Timeframe::D1 => 86_400_000,
        Timeframe::D3 => 259_200_000,
        Timeframe::W1 => 604_800_000,
        Timeframe::MN1 => 2_592_000_000,
    }
}

/// Canonical wire tag of a timeframe.
pub open spec fn spec_render(t: Timeframe) -> Seq<char> {
    match t {
        Timeframe::S1 => seq!['1', 's'],
        Timeframe::M1 => seq!['1', 'm'],
        Timeframe::M3 => seq!['3', 'm'],
        Timeframe::M5 => seq!['5', 'm'],
        Timeframe::M15 => seq!['1', '5', 'm'],
        Timeframe::M30 => seq!['3', '0', 'm'],
        Timeframe::H1 => seq!['1', 'h'],
        Timeframe::H2 => seq!['2', 'h'],
        Timeframe::H4 => seq!['4', 'h'],
        Timeframe::H6 => seq!['6', 'h'],
        Timeframe::H8 => seq!['8', 'h'],
        Timeframe::H12 => seq!['1', '2', 'h'],
        Timeframe::D1 => seq!['1', 'd'],
        Timeframe::D3 => seq!['3', 'd'],
        Timeframe::W1 => seq!['1', 'w'],
        Timeframe::MN1 => seq!['1', 'M'],
    }
}

/// The timeframe whose canonical tag is `s`, if any.
pub open spec fn spec_parse(s: Seq<char>) -> Option<Timeframe> {
    if s == spec_render(Timeframe::S1) {
        Some(Timeframe::S1)
    } else if s == spec_render(Timeframe::M1) {
        Some(Timeframe::M1)
    } else if s == spec_render(Timeframe::M3) {
        Some(Timeframe::M3)
    } else if s == spec_render(Timeframe::M5) {
        Some(Timeframe::M5)
    } else if s == spec_render(Timeframe::M15) {
        Some(Timeframe::M15)
    } else if s == spec_render(Timeframe::M30) {
        Some(Timeframe::M30)
    } else if s == spec_render(Timeframe::H1) {
        Some(Timeframe::H1)
    } else if s == spec_render(Timeframe::H2) {
        Some(Timeframe::H2)
    } else if s == spec_render(Timeframe::H4) {
        Some(Timeframe::H4)
    } else if s == spec_render(Timeframe::H6) {
        Some(Timeframe::H6)
    } else if s == spec_render(Timeframe::H8) {
        Some(Timeframe::H8)
    } else if s == spec_render(Timeframe::H12) {
        Some(Timeframe::H12)
    } else if s == spec_render(Timeframe::D1) {
        Some(Timeframe::D1)
    } else if s == spec_render(Timeframe::D3) {
        Some(Timeframe::D3)
    } else if s == spec_render(Timeframe::W1) {
        Some(Timeframe::W1)
    } else if s == spec_render(Timeframe::MN1) {
        Some(Timeframe::MN1)
    } else {
        None
    }
}

impl Timeframe {
    /// Duration of one bar in milliseconds.
    pub fn to_ms(&self) -> (r: u64)
        ensures
            r == spec_to_ms(*self),
            r >= 1000,
    {
        match self {
            Timeframe::S1 => 1_000,
            Timeframe::M1 => 60_000,
            Timeframe::M3 => 180_000,
            Timeframe::M5 => 300_000,
            Timeframe::M15 => 900_000,
            Timeframe::M30 => 1_800_000,
            Timeframe::H1 => 3_600_000,
            Timeframe::H2 => 7_200_000,
            Timeframe::H4 => 14_400_000,
            Timeframe::H6 => 21_600_000,
            Timeframe::H8 => 28_800_000,
            Timeframe::H12 => 43_200_000,
            Timeframe::D1 => 86_400_000,
            Timeframe::D3 => 259_200_000,
            Timeframe::W1 => 604_800_000,
            Timeframe::MN1 => 2_592_000_000,
        }
    }

    /// Canonical wire tag.
    pub fn render(&self) -> (r: String)
        ensures
            r@ == spec_render(*self),
    {
        proof {
            reveal_strlit("1s");
            reveal_strlit("1m");
            reveal_strlit("3m");
            reveal_strlit("5m");
            reveal_strlit("15m");
            reveal_strlit("30m");
            reveal_strlit("1h");
            reveal_strlit("2h");
            reveal_strlit("4h");
            reveal_strlit("6h");
            reveal_strlit("8h");
            reveal_strlit("12h");
            reveal_strlit("1d");
            reveal_strlit("3d");
            reveal_strlit("1w");
            reveal_strlit("1M");
        }
        let r = match self {
            Timeframe::S1 => "1s",
            Timeframe::M1 => "1m",
            Timeframe::M3 => "3m",
            Timeframe::M5 => "5m",
            Timeframe::M15 => "15m",
            Timeframe::M30 => "30m",
            Timeframe::H1 => "1h",
            Timeframe::H2 => "2h",
            Timeframe::H4 => "4h",
            Timeframe::H6 => "6h",
            Timeframe::H8 => "8h",
            Timeframe::H12 => "12h",
            Timeframe::D1 => "1d",
            Timeframe::D3 => "3d",
            Timeframe::W1 => "1w",
            Timeframe::MN1 => "1M",
        };
        proof {
            assert(r@ =~= spec_render(*self));
        }
        r.to_owned()
    }

    /// Parse a canonical wire tag; unknown tags give `None`.
    pub fn parse(s: &str) -> (r: Option<Timeframe>)
        ensures
            r == spec_parse(s@),
    {
        proof {
            reveal_strlit("1s");
            reveal_strlit("1m");
            reveal_strlit("3m");
            reveal_strlit("5m");
            reveal_strlit("15m");
            reveal_strlit("30m");
            reveal_strlit("1h");
            reveal_strlit("2h");
            reveal_strlit("4h");
            reveal_strlit("6h");
            reveal_strlit("8h");
            reveal_strlit("12h");
            reveal_strlit("1d");
            reveal_strlit("3d");
            reveal_strlit("1w");
            reveal_strlit("1M");
            lemma_tags_distinct();
            assert("1s"@ =~= spec_render(Timeframe::S1));
            assert("1m"@ =~= spec_render(Timeframe::M1));
            assert("3m"@ =~= spec_render(Timeframe::M3));
            assert("5m"@ =~= spec_render(Timeframe::M5));
            assert("15m"@ =~= spec_render(Timeframe::M15));
            assert("30m"@ =~= spec_render(Timeframe::M30));
            assert("1h"@ =~= spec_render(Timeframe::H1));
            assert("2h"@ =~= spec_render(Timeframe::H2));
            assert("4h"@ =~= spec_render(Timeframe::H4));
            assert("6h"@ =~= spec_render(Timeframe::H6));
            assert("8h"@ =~= spec_render(Timeframe::H8));
            assert("12h"@ =~= spec_render(Timeframe::H12));
            assert("1d"@ =~= spec_render(Timeframe::D1));
            assert("3d"@ =~= spec_render(Timeframe::D3));
            assert("1w"@ =~= spec_render(Timeframe::W1));
            assert("1M"@ =~= spec_render(Timeframe::MN1));
        }
        if str_eq(s, "1s") {
            Some(Timeframe::S1)
        } else if str_eq(s, "1m") {
            Some(Timeframe::M1)
        } else if str_eq(s, "3m") {
            Some(Timeframe::M3)
        } else if str_eq(s, "5m") {
            Some(Timeframe::M5)
        } else if str_eq(s, "15m") {
            Some(Timeframe::M15)
        } else if str_eq(s, "30m") {
            Some(Timeframe::M30)
        } else if str_eq(s, "1h") {
            Some(Timeframe::H1)
        } else if str_eq(s, "2h") {
            Some(Timeframe::H2)
        } else if str_eq(s, "4h") {
            Some(Timeframe::H4)
        } else if str_eq(s, "6h") {
            Some(Timeframe::H6)
        } else if str_eq(s, "8h") {
            Some(Timeframe::H8)
        } else if str_eq(s, "12h") {
            Some(Timeframe::H12)
        } else if str_eq(s, "1d") {
            Some(Timeframe::D1)
        } else if str_eq(s, "3d") {
            Some(Timeframe::D3)
        } else if str_eq(s, "1w") {
            Some(Timeframe::W1)
        } else if str_eq(s, "1M") {
            Some(Timeframe::MN1)
        } else {
            None
        }
    }
}

/// No two timeframes share a canonical tag.
pub proof fn lemma_tags_distinct()
    ensures
        forall|a: Timeframe, b: Timeframe|
            spec_render(a) == spec_render(b) ==> a == b,
{
    assert forall|a: Timeframe, b: Timeframe|
        spec_render(a) == spec_render(b) implies a == b by {
        if a != b {
            assert(spec_render(a) != spec_render(b)) by {
                if spec_render(a) == spec_render(b) {
                    assert(spec_render(a).len() == spec_render(b).len());
                    assert(spec_render(a)[0] == spec_render(b)[0]);
                    assert(spec_render(a)[1] == spec_render(b)[1]);
                    if spec_render(a).len() == 3 {
                        assert(spec_render(a)[2] == spec_render(b)[2]);
                    }
                }
            }
        }
    }
}

/// Round trip: parsing a rendered tag yields the same timeframe.
pub proof fn lemma_timeframe_round_trip(t: Timeframe)
    ensures
        spec_parse(spec_render(t)) == Some(t),
{
    lemma_tags_distinct();
}

} // verus!
