//! The channel bandwidths that Mercury supports, and their names on the wire.

use vstd::prelude::*;
use crate::text::text_eq;

verus! {

/// Supported bandwidth modes by mercury
#[derive(Debug, PartialEq, Eq, Structural, Copy, Clone)]
pub enum Bandwidth {
    BW500,
    BW2300,
    BW2750,
}

impl Bandwidth {
    /// The name of the mode, which is also the command that selects it.
    pub open spec fn name(self) -> Seq<char> {
        match self {
            Bandwidth::BW500 => "BW500"@,
            Bandwidth::BW2300 => "BW2300"@,
            Bandwidth::BW2750 => "BW2750"@,
        }
    }

    /// The width in Hz, by which mercury names the mode too.
    pub open spec fn alias(self) -> Seq<char> {
        match self {
            Bandwidth::BW500 => "500"@,
            Bandwidth::BW2300 => "2300"@,
            Bandwidth::BW2750 => "2750"@,
        }
    }

    /// All modes, narrowest first.
    pub open spec fn all() -> Seq<Bandwidth> {
        seq![Bandwidth::BW500, Bandwidth::BW2300, Bandwidth::BW2750]
    }

    /// The mode that `text` names, by its name or by its width. Letter case and white space
    /// count.
    pub open spec fn named(text: Seq<char>) -> Option<Bandwidth> {
        if text == Bandwidth::BW500.name() || text == Bandwidth::BW500.alias() {
            Some(Bandwidth::BW500)
        } else if text == Bandwidth::BW2300.name() || text == Bandwidth::BW2300.alias() {
            Some(Bandwidth::BW2300)
        } else if text == Bandwidth::BW2750.name() || text == Bandwidth::BW2750.alias() {
            Some(Bandwidth::BW2750)
        } else {
            None
        }
    }

    /// Every mode, in the order of `Bandwidth::all`.
    pub fn iter() -> (r: Vec<Bandwidth>)
        ensures
            r@ == Bandwidth::all(),
    {
        let r: Vec<Bandwidth> = vec![Bandwidth::BW500, Bandwidth::BW2300, Bandwidth::BW2750];
        assert(r@ =~= Bandwidth::all());
        r
    }

    /// The name of the mode.
    pub fn to_string(&self) -> (r: String)
        ensures
            r@ == self.name(),
    {
        match self {
            Bandwidth::BW500 => String::from_str("BW500"),
            Bandwidth::BW2300 => String::from_str("BW2300"),
            Bandwidth::BW2750 => String::from_str("BW2750"),
        }
    }

    /// Reads the name or the width of a mode.
    pub fn parse(text: &str) -> (r: Option<Bandwidth>)
        ensures
            r == Bandwidth::named(text@),
    {
        if text_eq(text, "BW500") || text_eq(text, "500") {
            Some(Bandwidth::BW500)
        } else if text_eq(text, "BW2300") || text_eq(text, "2300") {
            Some(Bandwidth::BW2300)
        } else if text_eq(text, "BW2750") || text_eq(text, "2750") {
            Some(Bandwidth::BW2750)
        } else {
            None
        }
    }
}

/// Every mode is read back from its name and from its width.
pub proof fn bandwidth_reads_back(b: Bandwidth)
    ensures
        Bandwidth::named(b.name()) == Some(b),
        Bandwidth::named(b.alias()) == Some(b),
{
    lemma_bandwidth_texts();
}

/// What is offered to choose from holds every mode exactly once.
pub proof fn bandwidth_all_is_complete(b: Bandwidth)
    ensures
        Bandwidth::all().contains(b),
        Bandwidth::all().no_duplicates(),
{
    assert(Bandwidth::all()[0] == Bandwidth::BW500);
    assert(Bandwidth::all()[1] == Bandwidth::BW2300);
    assert(Bandwidth::all()[2] == Bandwidth::BW2750);
}

/// The lengths and the letters of the names and widths that tell them apart.
pub proof fn lemma_bandwidth_texts()
    ensures
        "BW500"@ == seq!['B', 'W', '5', '0', '0'],
        "BW2300"@ == seq!['B', 'W', '2', '3', '0', '0'],
        "BW2750"@ == seq!['B', 'W', '2', '7', '5', '0'],
        "500"@ == seq!['5', '0', '0'],
        "2300"@ == seq!['2', '3', '0', '0'],
        "2750"@ == seq!['2', '7', '5', '0'],
        "BW500"@.len() == 5,
        "BW2300"@.len() == 6 && "BW2300"@[3] == '3',
        "BW2750"@.len() == 6 && "BW2750"@[3] == '7',
        "500"@.len() == 3,
        "2300"@.len() == 4 && "2300"@[1] == '3',
        "2750"@.len() == 4 && "2750"@[1] == '7',
{
    reveal_strlit("BW500");
    reveal_strlit("BW2300");
    reveal_strlit("BW2750");
    reveal_strlit("500");
    reveal_strlit("2300");
    reveal_strlit("2750");
}

/// The names and the widths of the modes, letter by letter.
pub proof fn bandwidths_are_written_so(b: Bandwidth)
    ensures
        b is BW500 ==> b.name() == seq!['B', 'W', '5', '0', '0'] && b.alias() == seq![
            '5',
            '0',
            '0',
        ],
        b is BW2300 ==> b.name() == seq!['B', 'W', '2', '3', '0', '0'] && b.alias() == seq![
            '2',
            '3',
            '0',
            '0',
        ],
        b is BW2750 ==> b.name() == seq!['B', 'W', '2', '7', '5', '0'] && b.alias() == seq![
            '2',
            '7',
            '5',
            '0',
        ],
{
    lemma_bandwidth_texts();
}

/// A text names a mode if and only if it is its name or its width, and names none otherwise.
pub proof fn only_names_and_widths_are_read(text: Seq<char>)
    ensures
        Bandwidth::named(text) == Some(Bandwidth::BW500) <==> text == "BW500"@ || text == "500"@,
        Bandwidth::named(text) == Some(Bandwidth::BW2300) <==> text == "BW2300"@ || text
            == "2300"@,
        Bandwidth::named(text) == Some(Bandwidth::BW2750) <==> text == "BW2750"@ || text
            == "2750"@,
{
    lemma_bandwidth_texts();
}

/// The modes are offered from the narrowest to the widest, and there are three.
pub proof fn bandwidths_are_offered_in_order()
    ensures
        Bandwidth::all().len() == 3,
        Bandwidth::all()[0] is BW500,
        Bandwidth::all()[1] is BW2300,
        Bandwidth::all()[2] is BW2750,
{
}

} // verus!
