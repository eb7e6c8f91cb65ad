//! Orthographies, texts, and conversion between the two scripts.

use vstd::prelude::*;
use crate::chars::{chars_of, same_text, string_of};
use crate::replace::replace_chars;
use crate::substitution::{apply_first, apply_pairs};
use crate::table::{cyrillic_pairs, flipped_replacements, latin_pairs, pairs_view, replacements};

verus! {

/// The two ways of writing the language.
#[derive(PartialEq, Eq, Copy, Clone, Debug, Structural)]
pub enum Orthography {
    BCMSLatin,
    BCMSCyrillic,
}

/// The message given for a selector that names neither orthography.
pub const ORTHOGRAPHY_ERROR: &'static str = "Must use either LATIN or CYRILLIC as inputs.";

impl Orthography {
    /// Parses an orthography selector: exactly `LATIN` or `CYRILLIC`.
    pub fn from_str(s: &str) -> (r: Result<Orthography, &'static str>)
        ensures
            s@ == "LATIN"@ ==> r == Ok::<Orthography, &'static str>(Orthography::BCMSLatin),
            s@ == "CYRILLIC"@ ==> r == Ok::<Orthography, &'static str>(Orthography::BCMSCyrillic),
            (s@ != "LATIN"@ && s@ != "CYRILLIC"@) ==> r == Err::<Orthography, &'static str>(ORTHOGRAPHY_ERROR),
    {
        proof {
            reveal_strlit("LATIN");
            reveal_strlit("CYRILLIC");
            assert("LATIN"@[0] != "CYRILLIC"@[0]);
        }
        if same_text(s, "LATIN") {
            Ok(Orthography::BCMSLatin)
        } else if same_text(s, "CYRILLIC") {
            Ok(Orthography::BCMSCyrillic)
        } else {
            Err(ORTHOGRAPHY_ERROR)
        }
    }

    /// The other orthography.
    pub fn other(self) -> (r: Orthography)
        ensures
            r != self,
    {
        match self {
            Orthography::BCMSLatin => Orthography::BCMSCyrillic,
            Orthography::BCMSCyrillic => Orthography::BCMSLatin,
        }
    }
}

/// Text together with the orthography it is written in.
pub struct NaturalText {
    pub orthography: Orthography,
    pub contents: String,
}

/// The contents of a text in orthography `source` once written in `dest`.
pub open spec fn converted(dest: Orthography, source: Orthography, s: Seq<char>) -> Seq<char> {
    if source == dest {
        s
    } else if source == Orthography::BCMSLatin {
        apply_pairs(latin_pairs(), s)
    } else {
        apply_pairs(cyrillic_pairs(), s)
    }
}

/// Applies the pairs in order, each replacing every non-overlapping
/// occurrence of its source in the text as it stands after the pairs before.
pub fn map_replace(replacements: &[(&str, &str)], txt: &String) -> (out: String)
    ensures
        out@ == apply_pairs(pairs_view(replacements@), txt@),
{
    let ghost t = pairs_view(replacements@);
    let mut work = chars_of(txt.as_str());
    let mut k: usize = 0;
    while k < replacements.len()
        invariant
            k <= replacements@.len(),
            t == pairs_view(replacements@),
            work@ == apply_first(t, k as nat, txt@),
        decreases replacements.len() - k,
    {
        let (src, dst) = replacements[k];
        let from = chars_of(src);
        let to = chars_of(dst);
        work = replace_chars(&work, &from, &to);
        k = k + 1;
    }
    string_of(&work)
}

/// `txt` written in `dest`: unchanged when it already is, otherwise passed
/// through the table for its direction.
pub fn convert(dest: Orthography, txt: NaturalText) -> (r: NaturalText)
    ensures
        r.orthography == dest,
        r.contents@ == converted(dest, txt.orthography, txt.contents@),
        txt.orthography == dest ==> r.contents@ == txt.contents@,
{
    match txt.orthography {
        Orthography::BCMSLatin if dest != Orthography::BCMSLatin => {
            let table = replacements();
            NaturalText {
                orthography: dest,
                contents: map_replace(table.as_slice(), &txt.contents),
            }
        },
        Orthography::BCMSCyrillic if dest != Orthography::BCMSCyrillic => {
            let table = flipped_replacements();
            NaturalText {
                orthography: dest,
                contents: map_replace(table.as_slice(), &txt.contents),
            }
        },
        _ => txt,
    }
}

/// Each line, written in `source`, converted to `dest`; one result per line,
/// in the same order.
pub fn convert_lines(source: Orthography, dest: Orthography, lines: &Vec<String>) -> (out: Vec<String>)
    ensures
        out.len() == lines.len(),
        forall|i: int| 0 <= i < lines.len() ==> (#[trigger] out[i])@ == converted(dest, source, lines[i]@),
{
    let mut out: Vec<String> = Vec::new();
    let mut i: usize = 0;
    while i < lines.len()
        invariant
            i <= lines.len(),
            out.len() == i,
            forall|j: int| 0 <= j < i ==> (#[trigger] out[j])@ == converted(dest, source, lines[j]@),
        decreases lines.len() - i,
    {
        let text = NaturalText { orthography: source, contents: lines[i].clone() };
        let conv = convert(dest, text);
        out.push(conv.contents);
        i = i + 1;
    }
    out
}

} // verus!
