//! The substitution table between the Latin and Cyrillic alphabets.
//!
//! One list of pairs, Latin grapheme first, is the single source of truth;
//! the Cyrillic-to-Latin table is that list with each pair swapped, at the
//! same position. Digraphs come before the single letters that begin them.

use vstd::prelude::*;
use crate::substitution::{Pairs, pair_well_formed, well_ordered};

verus! {

/// Number of pairs in each direction.
pub const PAIR_COUNT: usize = 60;

/// Pair `i` of the Latin-to-Cyrillic table.
pub open spec fn latin_pair(i: int) -> (Seq<char>, Seq<char>) {
    if i == 0 {
        (seq!['a'], seq!['а'])
    } else if i == 1 {
        (seq!['b'], seq!['б'])
    } else if i == 2 {
        (seq!['c'], seq!['ц'])
    } else if i == 3 {
        (seq!['č'], seq!['ч'])
    } else if i == 4 {
        (seq!['ć'], seq!['ћ'])
    } else if i == 5 {
        (seq!['d', 'ž'], seq!['џ'])
    } else if i == 6 {
        (seq!['d'], seq!['д'])
    } else if i == 7 {
        (seq!['đ'], seq!['ђ'])
    } else if i == 8 {
        (seq!['e'], seq!['е'])
    } else if i == 9 {
        (seq!['f'], seq!['ф'])
    } else if i == 10 {
        (seq!['g'], seq!['г'])
    } else if i == 11 {
        (seq!['h'], seq!['х'])
    } else if i == 12 {
        (seq!['i'], seq!['и'])
    } else if i == 13 {
        (seq!['j'], seq!['j'])
    } else if i == 14 {
        (seq!['k'], seq!['к'])
    } else if i == 15 {
        (seq!['l', 'j'], seq!['љ'])
    } else if i == 16 {
        (seq!['l'], seq!['л'])
    } else if i == 17 {
        (seq!['m'], seq!['м'])
    } else if i == 18 {
        (seq!['n', 'j'], seq!['њ'])
    } else if i == 19 {
        (seq!['n'], seq!['н'])
    } else if i == 20 {
        (seq!['o'], seq!['о'])
    } else if i == 21 {
        (seq!['p'], seq!['п'])
    } else if i == 22 {
        (seq!['r'], seq!['р'])
    } else if i == 23 {
        (seq!['s'], seq!['с'])
    } else if i == 24 {
        (seq!['š'], seq!['ш'])
    } else if i == 25 {
        (seq!['t'], seq!['т'])
    } else if i == 26 {
        (seq!['u'], seq!['у'])
    } else if i == 27 {
        (seq!['v'], seq!['в'])
    } else if i == 28 {
        (seq!['z'], seq!['з'])
    } else if i == 29 {
        (seq!['ž'], seq!['ж'])
    } else if i == 30 {
        (seq!['A'], seq!['А'])
    } else if i == 31 {
        (seq!['B'], seq!['Б'])
    } else if i == 32 {
        (seq!['C'], seq!['Ц'])
    } else if i == 33 {
        (seq!['Č'], seq!['Ч'])
    } else if i == 34 {
        (seq!['Ć'], seq!['Ћ'])
    } else if i == 35 {
        (seq!['D', 'Ž'], seq!['Џ'])
    } else if i == 36 {
        (seq!['D'], seq!['Д'])
    } else if i == 37 {
        (seq!['Đ'], seq!['Ђ'])
    } else if i == 38 {
        (seq!['E'], seq!['Е'])
    } else if i == 39 {
        (seq!['F'], seq!['Ф'])
    } else if i == 40 {
        (seq!['G'], seq!['Г'])
    } else if i == 41 {
        (seq!['H'], seq!['Х'])
    } else if i == 42 {
        (seq!['I'], seq!['И'])
    } else if i == 43 {
        (seq!['J'], seq!['J'])
    } else if i == 44 {
        (seq!['K'], seq!['К'])
    } else if i == 45 {
        (seq!['L', 'J'], seq!['Љ'])
    } else if i == 46 {
        (seq!['L'], seq!['Л'])
    } else if i == 47 {
        (seq!['M'], seq!['М'])
    } else if i == 48 {
        (seq!['N', 'J'], seq!['Њ'])
    } else if i == 49 {
        (seq!['N'], seq!['Н'])
    } else if i == 50 {
        (seq!['O'], seq!['О'])
    } else if i == 51 {
        (seq!['P'], seq!['П'])
    } else if i == 52 {
        (seq!['R'], seq!['Р'])
    } else if i == 53 {
        (seq!['S'], seq!['С'])
    } else if i == 54 {
        (seq!['Š'], seq!['Ш'])
    } else if i == 55 {
        (seq!['T'], seq!['Т'])
    } else if i == 56 {
        (seq!['U'], seq!['У'])
    } else if i == 57 {
        (seq!['V'], seq!['В'])
    } else if i == 58 {
        (seq!['Z'], seq!['З'])
    } else if i == 59 {
        (seq!['Ž'], seq!['Ж'])
    } else {
        (Seq::empty(), Seq::empty())
    }
}

/// The Latin-to-Cyrillic table.
pub open spec fn latin_pairs() -> Pairs {
    Seq::new(PAIR_COUNT as nat, |i: int| latin_pair(i))
}

/// `t` with each pair swapped, at the same position.
pub open spec fn mirror(t: Pairs) -> Pairs {
    Seq::new(t.len(), |i: int| (t[i].1, t[i].0))
}

/// The Cyrillic-to-Latin table.
pub open spec fn cyrillic_pairs() -> Pairs {
    mirror(latin_pairs())
}

/// The position in the table of the pair whose Cyrillic side is `c`, or -1.
pub open spec fn cyrillic_position(c: char) -> int {
    if c == 'а' {
        0
    } else if c == 'б' {
        1
    } else if c == 'ц' {
        2
    } else if c == 'ч' {
        3
    } else if c == 'ћ' {
        4
    } else if c == 'џ' {
        5
    } else if c == 'д' {
        6
    } else if c == 'ђ' {
        7
    } else if c == 'е' {
        8
    } else if c == 'ф' {
        9
    } else if c == 'г' {
        10
    } else if c == 'х' {
        11
    } else if c == 'и' {
        12
    } else if c == 'j' {
        13
    } else if c == 'к' {
        14
    } else if c == 'љ' {
        15
    } else if c == 'л' {
        16
    } else if c == 'м' {
        17
    } else if c == 'њ' {
        18
    } else if c == 'н' {
        19
    } else if c == 'о' {
        20
    } else if c == 'п' {
        21
    } else if c == 'р' {
        22
    } else if c == 'с' {
        23
    } else if c == 'ш' {
        24
    } else if c == 'т' {
        25
    } else if c == 'у' {
        26
    } else if c == 'в' {
        27
    } else if c == 'з' {
        28
    } else if c == 'ж' {
        29
    } else if c == 'А' {
        30
    } else if c == 'Б' {
        31
    } else if c == 'Ц' {
        32
    } else if c == 'Ч' {
        33
    } else if c == 'Ћ' {
        34
    } else if c == 'Џ' {
        35
    } else if c == 'Д' {
        36
    } else if c == 'Ђ' {
        37
    } else if c == 'Е' {
        38
    } else if c == 'Ф' {
        39
    } else if c == 'Г' {
        40
    } else if c == 'Х' {
        41
    } else if c == 'И' {
        42
    } else if c == 'J' {
        43
    } else if c == 'К' {
        44
    } else if c == 'Љ' {
        45
    } else if c == 'Л' {
        46
    } else if c == 'М' {
        47
    } else if c == 'Њ' {
        48
    } else if c == 'Н' {
        49
    } else if c == 'О' {
        50
    } else if c == 'П' {
        51
    } else if c == 'Р' {
        52
    } else if c == 'С' {
        53
    } else if c == 'Ш' {
        54
    } else if c == 'Т' {
        55
    } else if c == 'У' {
        56
    } else if c == 'В' {
        57
    } else if c == 'З' {
        58
    } else if c == 'Ж' {
        59
    } else {
        -1
    }
}

/// Pair `i` of the Latin-to-Cyrillic table, as string slices.
pub fn latin_pair_at(i: usize) -> (r: (&'static str, &'static str))
    requires
        i < PAIR_COUNT,
    ensures
        r.0@ == latin_pair(i as int).0,
        r.1@ == latin_pair(i as int).1,
{
    match i {
        0 => {
            proof {
                reveal_strlit("a");
                reveal_strlit("а");
            }
            ("a", "а")
        }
        1 => {
            proof {
                reveal_strlit("b");
                reveal_strlit("б");
            }
            ("b", "б")
        }
        2 => {
            proof {
                reveal_strlit("c");
                reveal_strlit("ц");
            }
            ("c", "ц")
        }
        3 => {
            proof {
                reveal_strlit("č");
                reveal_strlit("ч");
            }
            ("č", "ч")
        }
        4 => {
            proof {
                reveal_strlit("ć");
                reveal_strlit("ћ");
            }
            ("ć", "ћ")
        }
        5 => {
            proof {
                reveal_strlit("dž");
                reveal_strlit("џ");
            }
            ("dž", "џ")
        }
        6 => {
            proof {
                reveal_strlit("d");
                reveal_strlit("д");
            }
            ("d", "д")
        }
        7 => {
            proof {
                reveal_strlit("đ");
                reveal_strlit("ђ");
            }
            ("đ", "ђ")
        }
        8 => {
            proof {
                reveal_strlit("e");
                reveal_strlit("е");
            }
            ("e", "е")
        }
        9 => {
            proof {
                reveal_strlit("f");
                reveal_strlit("ф");
            }
            ("f", "ф")
        }
        10 => {
            proof {
                reveal_strlit("g");
                reveal_strlit("г");
            }
            ("g", "г")
        }
        11 => {
            proof {
                reveal_strlit("h");
                reveal_strlit("х");
            }
            ("h", "х")
        }
        12 => {
            proof {
                reveal_strlit("i");
                reveal_strlit("и");
            }
            ("i", "и")
        }
        13 => {
            proof {
                reveal_strlit("j");
                reveal_strlit("j");
            }
            ("j", "j")
        }
        14 => {
            proof {
                reveal_strlit("k");
                reveal_strlit("к");
            }
            ("k", "к")
        }
        15 => {
            proof {
                reveal_strlit("lj");
                reveal_strlit("љ");
            }
            ("lj", "љ")
        }
        16 => {
            proof {
                reveal_strlit("l");
                reveal_strlit("л");
            }
            ("l", "л")
        }
        17 => {
            proof {
                reveal_strlit("m");
                reveal_strlit("м");
            }
            ("m", "м")
        }
        18 => {
            proof {
                reveal_strlit("nj");
                reveal_strlit("њ");
            }
            ("nj", "њ")
        }
        19 => {
            proof {
                reveal_strlit("n");
                reveal_strlit("н");
            }
            ("n", "н")
        }
        20 => {
            proof {
                reveal_strlit("o");
                reveal_strlit("о");
            }
            ("o", "о")
        }
        21 => {
            proof {
                reveal_strlit("p");
                reveal_strlit("п");
            }
            ("p", "п")
        }
        22 => {
            proof {
                reveal_strlit("r");
                reveal_strlit("р");
            }
            ("r", "р")
        }
        23 => {
            proof {
                reveal_strlit("s");
                reveal_strlit("с");
            }
            ("s", "с")
        }
        24 => {
            proof {
                reveal_strlit("š");
                reveal_strlit("ш");
            }
            ("š", "ш")
        }
        25 => {
            proof {
                reveal_strlit("t");
                reveal_strlit("т");
            }
            ("t", "т")
        }
        26 => {
            proof {
                reveal_strlit("u");
                reveal_strlit("у");
            }
            ("u", "у")
        }
        27 => {
            proof {
                reveal_strlit("v");
                reveal_strlit("в");
            }
            ("v", "в")
        }
        28 => {
            proof {
                reveal_strlit("z");
                reveal_strlit("з");
            }
            ("z", "з")
        }
        29 => {
            proof {
                reveal_strlit("ž");
                reveal_strlit("ж");
            }
            ("ž", "ж")
        }
        30 => {
            proof {
                reveal_strlit("A");
                reveal_strlit("А");
            }
            ("A", "А")
        }
        31 => {
            proof {
                reveal_strlit("B");
                reveal_strlit("Б");
            }
            ("B", "Б")
        }
        32 => {
            proof {
                reveal_strlit("C");
                reveal_strlit("Ц");
            }
            ("C", "Ц")
        }
        33 => {
            proof {
                reveal_strlit("Č");
                reveal_strlit("Ч");
            }
            ("Č", "Ч")
        }
        34 => {
            proof {
                reveal_strlit("Ć");
                reveal_strlit("Ћ");
            }
            ("Ć", "Ћ")
        }
        35 => {
            proof {
                reveal_strlit("DŽ");
                reveal_strlit("Џ");
            }
            ("DŽ", "Џ")
        }
        36 => {
            proof {
                reveal_strlit("D");
                reveal_strlit("Д");
            }
            ("D", "Д")
        }
        37 => {
            proof {
                reveal_strlit("Đ");
                reveal_strlit("Ђ");
            }
            ("Đ", "Ђ")
        }
        38 => {
            proof {
                reveal_strlit("E");
                reveal_strlit("Е");
            }
            ("E", "Е")
        }
        39 => {
            proof {
                reveal_strlit("F");
                reveal_strlit("Ф");
            }
            ("F", "Ф")
        }
        40 => {
            proof {
                reveal_strlit("G");
                reveal_strlit("Г");
            }
            ("G", "Г")
        }
        41 => {
            proof {
                reveal_strlit("H");
                reveal_strlit("Х");
            }
            ("H", "Х")
        }
        42 => {
            proof {
                reveal_strlit("I");
                reveal_strlit("И");
            }
            ("I", "И")
        }
        43 => {
            proof {
                reveal_strlit("J");
                reveal_strlit("J");
            }
            ("J", "J")
        }
        44 => {
            proof {
                reveal_strlit("K");
                reveal_strlit("К");
            }
            ("K", "К")
        }
        45 => {
            proof {
                reveal_strlit("LJ");
                reveal_strlit("Љ");
            }
            ("LJ", "Љ")
        }
        46 => {
            proof {
                reveal_strlit("L");
                reveal_strlit("Л");
            }
            ("L", "Л")
        }
        47 => {
            proof {
                reveal_strlit("M");
                reveal_strlit("М");
            }
            ("M", "М")
        }
        48 => {
            proof {
                reveal_strlit("NJ");
                reveal_strlit("Њ");
            }
            ("NJ", "Њ")
        }
        49 => {
            proof {
                reveal_strlit("N");
                reveal_strlit("Н");
            }
            ("N", "Н")
        }
        50 => {
            proof {
                reveal_strlit("O");
                reveal_strlit("О");
            }
            ("O", "О")
        }
        51 => {
            proof {
                reveal_strlit("P");
                reveal_strlit("П");
            }
            ("P", "П")
        }
        52 => {
            proof {
                reveal_strlit("R");
                reveal_strlit("Р");
            }
            ("R", "Р")
        }
        53 => {
            proof {
                reveal_strlit("S");
                reveal_strlit("С");
            }
            ("S", "С")
        }
        54 => {
            proof {
                reveal_strlit("Š");
                reveal_strlit("Ш");
            }
            ("Š", "Ш")
        }
        55 => {
            proof {
                reveal_strlit("T");
                reveal_strlit("Т");
            }
            ("T", "Т")
        }
        56 => {
            proof {
                reveal_strlit("U");
                reveal_strlit("У");
            }
            ("U", "У")
        }
        57 => {
            proof {
                reveal_strlit("V");
                reveal_strlit("В");
            }
            ("V", "В")
        }
        58 => {
            proof {
                reveal_strlit("Z");
                reveal_strlit("З");
            }
            ("Z", "З")
        }
        59 => {
            proof {
                reveal_strlit("Ž");
                reveal_strlit("Ж");
            }
            ("Ž", "Ж")
        }
        _ => {
            proof {
                reveal_strlit("");
            }
            ("", "")
        }
    }
}

/// The Latin-to-Cyrillic table is ordered as substitution needs.
pub proof fn lemma_latin_pairs_well_ordered()
    ensures
        well_ordered(latin_pairs(), true),
{
    let t = latin_pairs();
    assert forall|k: int| 0 <= k < t.len() implies pair_well_formed(t, k, true) by {
        assert(t[k] == latin_pair(k));
    }
}

/// The Cyrillic-to-Latin table is ordered as substitution needs.
pub proof fn lemma_cyrillic_pairs_well_ordered()
    ensures
        well_ordered(cyrillic_pairs(), false),
{
    let t = cyrillic_pairs();
    assert forall|k: int| 0 <= k < t.len() implies pair_well_formed(t, k, false) by {
        assert(t[k] == (latin_pair(k).1, latin_pair(k).0));
    }
}

/// Each Cyrillic side is one character, and tells its position.
pub proof fn lemma_cyrillic_side(i: int)
    requires
        0 <= i < PAIR_COUNT,
    ensures
        latin_pair(i).1.len() == 1,
        cyrillic_position(latin_pair(i).1[0]) == i,
{
}

/// The graphemes of a table of string slices.
pub open spec fn pairs_view<'a>(p: Seq<(&'a str, &'a str)>) -> Pairs {
    Seq::new(p.len(), |i: int| (p[i].0@, p[i].1@))
}

/// The Latin-to-Cyrillic table, digraphs before the letters that begin them.
pub fn replacements() -> (r: Vec<(&'static str, &'static str)>)
    ensures
        pairs_view(r@) == latin_pairs(),
{
    let mut r: Vec<(&'static str, &'static str)> = Vec::new();
    let mut i: usize = 0;
    while i < PAIR_COUNT
        invariant
            i <= PAIR_COUNT,
            r.len() == i,
            forall|j: int| 0 <= j < i ==> (#[trigger] r@[j]).0@ == latin_pair(j).0 && r@[j].1@ == latin_pair(j).1,
        decreases PAIR_COUNT - i,
    {
        r.push(latin_pair_at(i));
        i = i + 1;
    }
    assert(pairs_view(r@) =~= latin_pairs());
    r
}

/// `pairs` with each pair swapped, at the same position.
pub fn mirrored<'a>(pairs: &[(&'a str, &'a str)]) -> (r: Vec<(&'a str, &'a str)>)
    ensures
        pairs_view(r@) == mirror(pairs_view(pairs@)),
{
    let mut r: Vec<(&'a str, &'a str)> = Vec::new();
    let mut i: usize = 0;
    while i < pairs.len()
        invariant
            i <= pairs.len(),
            r.len() == i,
            forall|j: int| 0 <= j < i ==> (#[trigger] r@[j]).0 == pairs@[j].1 && r@[j].1 == pairs@[j].0,
        decreases pairs.len() - i,
    {
        let (a, b) = pairs[i];
        r.push((b, a));
        i = i + 1;
    }
    assert(pairs_view(r@) =~= mirror(pairs_view(pairs@)));
    r
}

/// The Cyrillic-to-Latin table: the Latin-to-Cyrillic one with each pair
/// swapped.
pub fn flipped_replacements() -> (r: Vec<(&'static str, &'static str)>)
    ensures
        pairs_view(r@) == cyrillic_pairs(),
{
    let forward = replacements();
    mirrored(forward.as_slice())
}

} // verus!
