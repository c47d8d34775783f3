//! The three-valued sex of a candidate and its forms in the store and on
//! screen.

use crate::text::same_text;
use vstd::prelude::*;

verus! {

/// The sex of a candidate; `U` stands for "not stated".
#[derive(Debug, Clone, Copy, PartialEq, Eq, Structural)]
pub enum Sexo {
    U,
    F,
    M,
}

impl Default for Sexo {
    fn default() -> (out: Sexo)
        ensures
            out == Sexo::U,
    {
        Sexo::U
    }
}

/// The value that a stored text stands for: `F` and `M` for exactly these
/// one-letter texts, `U` for every other text.
pub open spec fn decoded(text: Seq<u8>) -> Sexo {
    if text == seq![70u8] {
        Sexo::F
    } else if text == seq![77u8] {
        Sexo::M
    } else {
        Sexo::U
    }
}

/// The value that a text stands for: `F` and `M` for exactly these
/// one-letter texts, `U` for every other text.
pub open spec fn sex_named(text: Seq<char>) -> Sexo {
    if text == seq!['F'] {
        Sexo::F
    } else if text == seq!['M'] {
        Sexo::M
    } else {
        Sexo::U
    }
}

impl Sexo {
    /// Reads a text; anything but `F` or `M` reads as `U`.
    pub fn parse(text: &str) -> (out: Sexo)
        ensures
            out == sex_named(text@),
    {
        proof {
            reveal_strlit("F");
            reveal_strlit("M");
            assert("F"@ =~= seq!['F']);
            assert("M"@ =~= seq!['M']);
        }
        if same_text(text, "F") {
            Sexo::F
        } else if same_text(text, "M") {
            Sexo::M
        } else {
            Sexo::U
        }
    }

    /// The single letter under which the value is stored.
    pub open spec fn letter(self) -> Seq<char> {
        match self {
            Sexo::F => seq!['F'],
            Sexo::M => seq!['M'],
            Sexo::U => seq!['U'],
        }
    }

    /// Reads a stored text; anything but `F` or `M` reads as `U`.
    pub fn from_sql_text(text: &[u8]) -> (out: Sexo)
        ensures
            out == decoded(text@),
    {
        if text.len() == 1 {
            if text[0] == 70u8 {
                assert(text@ == seq![70u8]);
                return Sexo::F;
            }
            if text[0] == 77u8 {
                assert(text@ == seq![77u8]);
                return Sexo::M;
            }
            assert(text@[0] != 70u8 && text@[0] != 77u8);
            assert(seq![70u8][0] == 70u8 && seq![77u8][0] == 77u8);
            return Sexo::U;
        }
        assert(seq![70u8].len() == 1 && seq![77u8].len() == 1);
        Sexo::U
    }

    /// The text under which the value is stored.
    pub fn to_sql_text(&self) -> (out: &'static str)
        ensures
            out@ == self.letter(),
    {
        proof {
            reveal_strlit("F");
            reveal_strlit("M");
            reveal_strlit("U");
        }
        match self {
            Sexo::F => {
                assert("F"@ == seq!['F']);
                "F"
            },
            Sexo::M => {
                assert("M"@ == seq!['M']);
                "M"
            },
            Sexo::U => {
                assert("U"@ == seq!['U']);
                "U"
            },
        }
    }

    /// The text shown to a reader.
    pub open spec fn label_text(self) -> Seq<char> {
        match self {
            Sexo::U => "No definido"@,
            Sexo::F => "F"@,
            Sexo::M => "M"@,
        }
    }

    /// The text shown to a reader: the letter, or `No definido` for `U`.
    pub fn label(&self) -> (out: &'static str)
        ensures
            out@ == self.label_text(),
    {
        match self {
            Sexo::U => "No definido",
            Sexo::F => "F",
            Sexo::M => "M",
        }
    }
}

} // verus!
