//! Laws that conversion obeys.

use vstd::prelude::*;
use crate::convert::{converted, Orthography};
use crate::replace::starts_with;
use crate::substitution::{
    first_match,
    lemma_apply_tokenized,
    lemma_first_match_from,
    lemma_tokenized_split,
    outside_sources,
    pair_well_formed,
    tokenized,
};
use crate::table::{
    PAIR_COUNT,
    cyrillic_pairs,
    latin_pair,
    latin_pairs,
    lemma_cyrillic_pairs_well_ordered,
    lemma_cyrillic_side,
    lemma_latin_pairs_well_ordered,
};

verus! {

/// `c` is a single-letter Latin grapheme of the table.
pub open spec fn is_latin_letter(c: char) -> bool {
    exists|k: int| 0 <= k < PAIR_COUNT && latin_pair(k).0 == seq![c]
}

/// Every character of `s` is a Latin letter of the table.
pub open spec fn latin_letters_only(s: Seq<char>) -> bool {
    forall|p: int| 0 <= p < s.len() ==> is_latin_letter(#[trigger] s[p])
}

/// `c` occurs in some grapheme of the table, on either side.
pub open spec fn is_alphabet_char(c: char) -> bool {
    exists|k: int, p: int|
        #![trigger latin_pair(k).0[p]]
        #![trigger latin_pair(k).1[p]]
        0 <= k < PAIR_COUNT && ((0 <= p < latin_pair(k).0.len() && latin_pair(k).0[p] == c)
            || (0 <= p < latin_pair(k).1.len() && latin_pair(k).1[p] == c))
}

proof fn lemma_tokens_round_trip(s: Seq<char>)
    requires
        latin_letters_only(s),
    ensures
        tokenized(cyrillic_pairs(), PAIR_COUNT as int, tokenized(latin_pairs(), PAIR_COUNT as int, s)) == s,
    decreases s.len(),
{
    let l = latin_pairs();
    let c = cyrillic_pairs();
    let n = PAIR_COUNT as int;
    if s.len() == 0 {
        return;
    }
    lemma_latin_pairs_well_ordered();
    assert(is_latin_letter(s[0]));
    let k = choose|k: int| 0 <= k < PAIR_COUNT && latin_pair(k).0 == seq![s[0]];
    assert(l[k].0 =~= s.take(1));
    lemma_first_match_from(l, s, 0);
    let i = first_match(l, s)->0;
    assert(pair_well_formed(l, i, true));
    let src = l[i].0;
    let rest = s.skip(src.len() as int);
    assert forall|p: int| 0 <= p < rest.len() implies is_latin_letter(#[trigger] rest[p]) by {
        assert(rest[p] == s[p + src.len()]);
    }
    lemma_tokens_round_trip(rest);
    let z = tokenized(l, n, rest);
    lemma_cyrillic_side(i);
    let d = l[i].1[0];
    let x = l[i].1 + z;
    assert(tokenized(l, n, s) == x);
    assert(c[i] == (l[i].1, l[i].0));
    assert(x.take(1) =~= c[i].0);
    lemma_first_match_from(c, x, 0);
    let j = first_match(c, x)->0;
    if j != i {
        lemma_cyrillic_side(j);
        assert(c[j] == (l[j].1, l[j].0));
        assert(c[j].0[0] == x.take(1)[0]);
    }
    assert(x.skip(1) =~= z);
    assert(src + rest =~= s);
}

/// Latin text made only of the table's letters, converted to Cyrillic, taken
/// as Cyrillic text, and converted back to Latin, is the text it was.
pub proof fn lemma_round_trip(s: Seq<char>)
    requires
        latin_letters_only(s),
    ensures
        converted(
            Orthography::BCMSLatin,
            Orthography::BCMSCyrillic,
            converted(
                Orthography::BCMSCyrillic,
                Orthography::BCMSCyrillic,
                converted(Orthography::BCMSCyrillic, Orthography::BCMSLatin, s),
            ),
        ) == s,
{
    lemma_latin_pairs_well_ordered();
    lemma_cyrillic_pairs_well_ordered();
    let cyr = converted(Orthography::BCMSCyrillic, Orthography::BCMSLatin, s);
    lemma_apply_tokenized(latin_pairs(), s, true);
    lemma_apply_tokenized(cyrillic_pairs(), cyr, false);
    lemma_tokens_round_trip(s);
}

/// A character that belongs to neither alphabet passes through conversion
/// unchanged, and the text on each side of it converts on its own.
pub proof fn lemma_passthrough(dest: Orthography, source: Orthography, a: Seq<char>, c: char, b: Seq<char>)
    requires
        !is_alphabet_char(c),
    ensures
        converted(dest, source, a + seq![c] + b)
            == converted(dest, source, a) + seq![c] + converted(dest, source, b),
{
    if source != dest {
        let to_cyrillic = source == Orthography::BCMSLatin;
        let t = if to_cyrillic { latin_pairs() } else { cyrillic_pairs() };
        if to_cyrillic {
            lemma_latin_pairs_well_ordered();
        } else {
            lemma_cyrillic_pairs_well_ordered();
        }
        assert(outside_sources(t, c)) by {
            assert forall|m: int, p: int| 0 <= m < t.len() && 0 <= p < t[m].0.len() implies t[m].0[p] != c by {
                if to_cyrillic {
                    assert(t[m] == latin_pair(m));
                    if latin_pair(m).0[p] == c {
                        assert(is_alphabet_char(c));
                    }
                } else {
                    assert(t[m] == (latin_pair(m).1, latin_pair(m).0));
                    if latin_pair(m).1[p] == c {
                        assert(is_alphabet_char(c));
                    }
                }
            }
        }
        lemma_apply_tokenized(t, a + seq![c] + b, to_cyrillic);
        lemma_apply_tokenized(t, a, to_cyrillic);
        lemma_apply_tokenized(t, b, to_cyrillic);
        lemma_tokenized_split(t, PAIR_COUNT as int, a, c, b, to_cyrillic);
    }
}

/// Converting to an orthography twice is converting once.
pub proof fn lemma_convert_idempotent(dest: Orthography, source: Orthography, s: Seq<char>)
    ensures
        converted(dest, dest, converted(dest, source, s)) == converted(dest, source, s),
{
}

} // verus!
