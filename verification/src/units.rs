//! Unit standards and magnitude prefixes.
//!
//! A byte count is shown at a *magnitude step*: step 0 is plain bytes, step 1
//! is one division by the standard's base, and so on up to [`MAX_STEP`].

use vstd::prelude::*;

verus! {

/// The largest magnitude step that has a symbol.
pub const MAX_STEP: usize = 8;

/// How many prefix choices the settings menu offers, counted from `Auto`.
pub const PREFIX_MENU_LEN: usize = 6;

/// The numeric standard by which byte counts are scaled.
#[derive(Clone, Copy, Debug, PartialEq, Eq, Structural, PartialOrd, Ord, Hash)]
pub enum Standard {
    Si,
    Iec,
}

/// The magnitude at which a byte count is shown.
#[derive(Clone, Copy, Debug, PartialEq, Eq, Structural, PartialOrd, Ord, Hash)]
pub enum Prefix {
    Auto,
    /// No prefix: plain bytes.
    Plain,
    Kilo,
    Mega,
    Giga,
    Tera,
    Peta,
    Exa,
    Zeta,
    Yotta,
}

/// The symbol of a magnitude step: empty for plain bytes and for a step
/// without a symbol.
pub open spec fn symbol(step: nat) -> Seq<char> {
    if step == 1 {
        seq!['K']
    } else if step == 2 {
        seq!['M']
    } else if step == 3 {
        seq!['G']
    } else if step == 4 {
        seq!['T']
    } else if step == 5 {
        seq!['P']
    } else if step == 6 {
        seq!['E']
    } else if step == 7 {
        seq!['Z']
    } else if step == 8 {
        seq!['Y']
    } else {
        Seq::empty()
    }
}

/// The symbol of a magnitude step as text.
pub fn symbol_str(step: usize) -> (s: &'static str)
    ensures
        s@ == symbol(step as nat),
{
    proof {
        reveal_strlit("");
        reveal_strlit("K");
        reveal_strlit("M");
        reveal_strlit("G");
        reveal_strlit("T");
        reveal_strlit("P");
        reveal_strlit("E");
        reveal_strlit("Z");
        reveal_strlit("Y");
    }
    let s = if step == 1 {
        "K"
    } else if step == 2 {
        "M"
    } else if step == 3 {
        "G"
    } else if step == 4 {
        "T"
    } else if step == 5 {
        "P"
    } else if step == 6 {
        "E"
    } else if step == 7 {
        "Z"
    } else if step == 8 {
        "Y"
    } else {
        ""
    };
    assert(s@ =~= symbol(step as nat));
    s
}

impl Standard {
    /// The divisor between two neighbouring magnitudes.
    pub open spec fn spec_base(self) -> nat {
        match self {
            Standard::Si => 1000,
            Standard::Iec => 1024,
        }
    }

    /// What stands between the magnitude symbol and the final `B`.
    pub open spec fn spec_infix(self) -> Seq<char> {
        match self {
            Standard::Si => seq!['i'],
            Standard::Iec => Seq::empty(),
        }
    }

    /// The divisor between two neighbouring magnitudes.
    pub fn base(self) -> (k: u64)
        ensures
            k == self.spec_base(),
    {
        match self {
            Standard::Si => 1000,
            Standard::Iec => 1024,
        }
    }

    /// What stands between the magnitude symbol and the final `B`.
    pub fn infix(self) -> (s: &'static str)
        ensures
            s@ == self.spec_infix(),
    {
        proof {
            reveal_strlit("i");
            reveal_strlit("");
        }
        let s = match self {
            Standard::Si => "i",
            Standard::Iec => "",
        };
        assert(s@ =~= self.spec_infix());
        s
    }

    /// The name shown on the standard selector.
    pub fn label(self) -> (s: &'static str)
        ensures
            s@ == (match self {
                Standard::Si => "SI"@,
                Standard::Iec => "IEC"@,
            }),
    {
        match self {
            Standard::Si => "SI",
            Standard::Iec => "IEC",
        }
    }
}

impl Default for Standard {
    fn default() -> (s: Standard)
        ensures
            s == Standard::Si,
    {
        Standard::Si
    }
}

impl Prefix {
    /// The fixed magnitude step that the prefix asks for; `None` for `Auto`,
    /// which lets the count decide.
    pub open spec fn spec_step(self) -> Option<nat> {
        match self {
            Prefix::Auto => None,
            Prefix::Plain => Some(0),
            Prefix::Kilo => Some(1),
            Prefix::Mega => Some(2),
            Prefix::Giga => Some(3),
            Prefix::Tera => Some(4),
            Prefix::Peta => Some(5),
            Prefix::Exa => Some(6),
            Prefix::Zeta => Some(7),
            Prefix::Yotta => Some(8),
        }
    }

    /// The position of the prefix in the settings menu.
    pub open spec fn spec_index(self) -> nat {
        match self {
            Prefix::Auto => 0,
            Prefix::Plain => 1,
            Prefix::Kilo => 2,
            Prefix::Mega => 3,
            Prefix::Giga => 4,
            Prefix::Tera => 5,
            Prefix::Peta => 6,
            Prefix::Exa => 7,
            Prefix::Zeta => 8,
            Prefix::Yotta => 9,
        }
    }

    /// The prefix at a position of the settings menu, if there is one.
    pub open spec fn spec_from_index(index: nat) -> Option<Prefix> {
        if index == 0 {
            Some(Prefix::Auto)
        } else if index == 1 {
            Some(Prefix::Plain)
        } else if index == 2 {
            Some(Prefix::Kilo)
        } else if index == 3 {
            Some(Prefix::Mega)
        } else if index == 4 {
            Some(Prefix::Giga)
        } else if index == 5 {
            Some(Prefix::Tera)
        } else if index == 6 {
            Some(Prefix::Peta)
        } else if index == 7 {
            Some(Prefix::Exa)
        } else if index == 8 {
            Some(Prefix::Zeta)
        } else if index == 9 {
            Some(Prefix::Yotta)
        } else {
            None
        }
    }

    /// The fixed magnitude step that the prefix asks for; `None` for `Auto`.
    pub fn step(self) -> (s: Option<usize>)
        ensures
            s is Some <==> self.spec_step() is Some,
            s is Some ==> s->0 == self.spec_step()->0 && s->0 <= MAX_STEP,
    {
        match self {
            Prefix::Auto => None,
            Prefix::Plain => Some(0),
            Prefix::Kilo => Some(1),
            Prefix::Mega => Some(2),
            Prefix::Giga => Some(3),
            Prefix::Tera => Some(4),
            Prefix::Peta => Some(5),
            Prefix::Exa => Some(6),
            Prefix::Zeta => Some(7),
            Prefix::Yotta => Some(8),
        }
    }

    /// The position of the prefix in the settings menu.
    pub fn index(self) -> (i: usize)
        ensures
            i == self.spec_index(),
            i <= 9,
    {
        match self {
            Prefix::Auto => 0,
            Prefix::Plain => 1,
            Prefix::Kilo => 2,
            Prefix::Mega => 3,
            Prefix::Giga => 4,
            Prefix::Tera => 5,
            Prefix::Peta => 6,
            Prefix::Exa => 7,
            Prefix::Zeta => 8,
            Prefix::Yotta => 9,
        }
    }

    /// The prefix at a position of the settings menu; `None` exactly for a
    /// position past the last prefix.
    pub fn from_index(index: usize) -> (p: Option<Prefix>)
        ensures
            p == Prefix::spec_from_index(index as nat),
            p is Some <==> index <= 9,
            p is Some ==> p->0.spec_index() == index,
    {
        if index == 0 {
            Some(Prefix::Auto)
        } else if index == 1 {
            Some(Prefix::Plain)
        } else if index == 2 {
            Some(Prefix::Kilo)
        } else if index == 3 {
            Some(Prefix::Mega)
        } else if index == 4 {
            Some(Prefix::Giga)
        } else if index == 5 {
            Some(Prefix::Tera)
        } else if index == 6 {
            Some(Prefix::Peta)
        } else if index == 7 {
            Some(Prefix::Exa)
        } else if index == 8 {
            Some(Prefix::Zeta)
        } else if index == 9 {
            Some(Prefix::Yotta)
        } else {
            None
        }
    }

    /// The name of the prefix in the settings menu.
    pub fn label(self) -> (s: &'static str)
        ensures
            s@ == (match self {
                Prefix::Auto => "Auto"@,
                Prefix::Plain => "None"@,
                Prefix::Kilo => "Kilo"@,
                Prefix::Mega => "Mega"@,
                Prefix::Giga => "Giga"@,
                Prefix::Tera => "Tera"@,
                Prefix::Peta => "Peta"@,
                Prefix::Exa => "Exa"@,
                Prefix::Zeta => "Zeta"@,
                Prefix::Yotta => "Yotta"@,
            }),
    {
        match self {
            Prefix::Auto => "Auto",
            Prefix::Plain => "None",
            Prefix::Kilo => "Kilo",
            Prefix::Mega => "Mega",
            Prefix::Giga => "Giga",
            Prefix::Tera => "Tera",
            Prefix::Peta => "Peta",
            Prefix::Exa => "Exa",
            Prefix::Zeta => "Zeta",
            Prefix::Yotta => "Yotta",
        }
    }
}

impl Default for Prefix {
    fn default() -> (p: Prefix)
        ensures
            p == Prefix::Auto,
    {
        Prefix::Auto
    }
}

/// Going from a prefix to its menu position and back gives the prefix again.
pub proof fn lemma_index_round_trip(prefix: Prefix)
    ensures
        Prefix::spec_from_index(prefix.spec_index()) == Some(prefix),
{
}

/// A menu position that holds a prefix is the position of that prefix.
pub proof fn lemma_from_index_round_trip(index: nat)
    requires
        Prefix::spec_from_index(index) is Some,
    ensures
        index <= 9,
        Prefix::spec_from_index(index)->0.spec_index() == index,
{
}

} // verus!
