//! Ordered substitution tables, and what applying one pass per pair does.
//!
//! Applying the pairs of a table one after another, each over the whole
//! working string, is the same as cutting the input into graphemes (at each
//! position the first pair of the table whose source begins there) and
//! replacing each grapheme, provided the table is ordered so that no pass
//! can see the output of an earlier one or split a grapheme that a later
//! pair owns. `well_ordered` states those conditions; `lemma_apply_tokenized`
//! gives the equality.

use vstd::prelude::*;
use crate::replace::{starts_with, replace_all};

verus! {

/// An ordered list of (source grapheme, destination grapheme) pairs.
pub type Pairs = Seq<(Seq<char>, Seq<char>)>;

/// The working string after the first `n` pairs of `t` have each replaced
/// all their occurrences, in table order.
pub open spec fn apply_first(t: Pairs, n: nat, s: Seq<char>) -> Seq<char>
    decreases n,
{
    if n == 0 {
        s
    } else {
        let k = n - 1;
        replace_all(apply_first(t, (n - 1) as nat, s), t[k].0, t[k].1)
    }
}

/// `s` after every pair of `t`, in order, has replaced all its occurrences.
pub open spec fn apply_pairs(t: Pairs, s: Seq<char>) -> Seq<char> {
    apply_first(t, t.len(), s)
}

/// Index of the first pair of `t`, from index `i` on, whose source begins `s`.
pub open spec fn first_match_from(t: Pairs, s: Seq<char>, i: int) -> Option<int>
    decreases t.len() - i,
{
    if i < 0 || i >= t.len() {
        None
    } else if starts_with(s, t[i].0) {
        Some(i)
    } else {
        first_match_from(t, s, i + 1)
    }
}

/// Index of the first pair of `t` whose source begins `s`.
pub open spec fn first_match(t: Pairs, s: Seq<char>) -> Option<int> {
    first_match_from(t, s, 0)
}

/// `s` cut into graphemes (at each position the source of the first pair
/// that begins there, or else one character), with every grapheme whose pair
/// has an index below `k` replaced by that pair's destination.
pub open spec fn tokenized(t: Pairs, k: int, s: Seq<char>) -> Seq<char>
    decreases s.len(),
{
    if s.len() == 0 {
        s
    } else {
        match first_match(t, s) {
            Some(i) => if 0 <= i < t.len() && 0 < t[i].0.len() <= s.len() {
                (if i < k {
                    t[i].1
                } else {
                    t[i].0
                }) + tokenized(t, k, s.skip(t[i].0.len() as int))
            } else {
                seq![s[0]] + tokenized(t, k, s.drop_first())
            },
            None => seq![s[0]] + tokenized(t, k, s.drop_first()),
        }
    }
}

/// Code points U+0400 to U+04FF, the Cyrillic block.
pub open spec fn is_cyrillic_char(c: char) -> bool {
    0x400 <= (c as u32) && (c as u32) <= 0x4FF
}

/// Letters written alike in both scripts.
pub open spec fn is_shared_letter(c: char) -> bool {
    c == 'j' || c == 'J'
}

/// `c` belongs to the script that a table converts into.
pub open spec fn in_target_script(c: char, to_cyrillic: bool) -> bool {
    is_cyrillic_char(c) == to_cyrillic
}

/// The conditions on pair `k` of a table that converts into Cyrillic
/// (`to_cyrillic`) or into Latin:
/// - a source has one or two characters, a destination at least one;
/// - a two-character source is followed at once by the pair of its first
///   character;
/// - a pair that maps a grapheme to itself is one shared letter; any other
///   pair maps a grapheme of the source script, that does not begin with a
///   shared letter, to one of the target script;
/// - no earlier pair that changes text has a source starting with the second
///   character of a two-character source.
pub open spec fn pair_well_formed(t: Pairs, k: int, to_cyrillic: bool) -> bool {
    &&& 1 <= t[k].0.len() <= 2
    &&& 1 <= t[k].1.len()
    &&& t[k].0.len() == 2 ==> k + 1 < t.len() && t[k + 1].0 == seq![t[k].0[0]]
    &&& if t[k].0 == t[k].1 {
        t[k].0.len() == 1 && is_shared_letter(t[k].0[0])
    } else {
        &&& forall|p: int| 0 <= p < t[k].1.len() ==> in_target_script(t[k].1[p], to_cyrillic)
        &&& forall|p: int| 0 <= p < t[k].0.len() ==> !in_target_script(t[k].0[p], to_cyrillic)
        &&& !is_shared_letter(t[k].0[0])
    }
    &&& t[k].0.len() == 2 ==> forall|m: int|
        0 <= m < k && t[m].0 != t[m].1 ==> t[m].0[0] != t[k].0[1]
}

/// Every pair of `t` meets `pair_well_formed`.
pub open spec fn well_ordered(t: Pairs, to_cyrillic: bool) -> bool {
    forall|k: int| 0 <= k < t.len() ==> pair_well_formed(t, k, to_cyrillic)
}

/// What `first_match_from` finds: the least index from `i` on whose source
/// begins `s`.
pub proof fn lemma_first_match_from(t: Pairs, s: Seq<char>, i: int)
    requires
        0 <= i,
    ensures
        match first_match_from(t, s, i) {
            Some(j) => i <= j < t.len() && starts_with(s, t[j].0) && forall|m: int|
                i <= m < j ==> !starts_with(s, #[trigger] t[m].0),
            None => forall|m: int| i <= m < t.len() ==> !starts_with(s, #[trigger] t[m].0),
        },
    decreases t.len() - i,
{
    if i < t.len() && !starts_with(s, t[i].0) {
        lemma_first_match_from(t, s, i + 1);
    }
}

/// `first_match_from` depends only on which sources begin the string.
pub proof fn lemma_first_match_same(t: Pairs, s1: Seq<char>, s2: Seq<char>, i: int)
    requires
        forall|m: int| 0 <= m < t.len() ==> starts_with(s1, #[trigger] t[m].0) == starts_with(s2, t[m].0),
    ensures
        first_match_from(t, s1, i) == first_match_from(t, s2, i),
    decreases t.len() - i,
{
    if 0 <= i < t.len() {
        lemma_first_match_same(t, s1, s2, i + 1);
    }
}

/// Replacing a pattern by itself changes nothing.
pub proof fn lemma_replace_by_itself(x: Seq<char>, f: Seq<char>)
    requires
        f.len() > 0,
    ensures
        replace_all(x, f, f) == x,
    decreases x.len(),
{
    if x.len() > 0 {
        if starts_with(x, f) {
            lemma_replace_by_itself(x.skip(f.len() as int), f);
            assert(f + x.skip(f.len() as int) =~= x);
        } else {
            lemma_replace_by_itself(x.drop_first(), f);
            assert(seq![x[0]] + x.drop_first() =~= x);
        }
    }
}

/// No occurrence of `f` starts inside `a` when no character of `a` is the
/// first of `f`: replacing then leaves `a` in front as it is.
pub proof fn lemma_replace_skips_prefix(a: Seq<char>, y: Seq<char>, f: Seq<char>, to: Seq<char>)
    requires
        f.len() > 0,
        forall|p: int| 0 <= p < a.len() ==> a[p] != f[0],
    ensures
        replace_all(a + y, f, to) == a + replace_all(y, f, to),
    decreases a.len(),
{
    if a.len() == 0 {
        assert(a + y =~= y);
        assert(a + replace_all(y, f, to) =~= replace_all(y, f, to));
    } else {
        let x = a + y;
        if starts_with(x, f) {
            assert(x.take(f.len() as int)[0] == x[0]);
            assert(false);
        }
        assert(x.drop_first() =~= a.drop_first() + y);
        lemma_replace_skips_prefix(a.drop_first(), y, f, to);
        assert(seq![a[0]] + (a.drop_first() + replace_all(y, f, to)) =~= a + replace_all(y, f, to));
    }
}

/// With no grapheme replaced, cutting and joining gives the string back.
pub proof fn lemma_tokenized_none(t: Pairs, s: Seq<char>)
    ensures
        tokenized(t, 0, s) == s,
    decreases s.len(),
{
    if s.len() > 0 {
        lemma_first_match_from(t, s, 0);
        match first_match(t, s) {
            Some(i) => {
                if 0 <= i < t.len() && 0 < t[i].0.len() <= s.len() {
                    lemma_tokenized_none(t, s.skip(t[i].0.len() as int));
                    assert(t[i].0 + s.skip(t[i].0.len() as int) =~= s);
                } else {
                    lemma_tokenized_none(t, s.drop_first());
                    assert(seq![s[0]] + s.drop_first() =~= s);
                }
            },
            None => {
                lemma_tokenized_none(t, s.drop_first());
                assert(seq![s[0]] + s.drop_first() =~= s);
            },
        }
    }
}

/// A pair that maps its grapheme to itself makes no difference to the cut.
pub proof fn lemma_tokenized_self_pair(t: Pairs, k: int, s: Seq<char>)
    requires
        0 <= k < t.len(),
        t[k].0 == t[k].1,
    ensures
        tokenized(t, k, s) == tokenized(t, k + 1, s),
    decreases s.len(),
{
    if s.len() > 0 {
        lemma_first_match_from(t, s, 0);
        match first_match(t, s) {
            Some(i) => {
                if 0 <= i < t.len() && 0 < t[i].0.len() <= s.len() {
                    lemma_tokenized_self_pair(t, k, s.skip(t[i].0.len() as int));
                } else {
                    lemma_tokenized_self_pair(t, k, s.drop_first());
                }
            },
            None => {
                lemma_tokenized_self_pair(t, k, s.drop_first());
            },
        }
    }
}

/// The cut of a nonempty string starts with its own first character or with
/// a character of the target script.
pub proof fn lemma_tokenized_head(t: Pairs, k: int, s: Seq<char>, to_cyrillic: bool)
    requires
        well_ordered(t, to_cyrillic),
        s.len() > 0,
    ensures
        tokenized(t, k, s).len() > 0,
        tokenized(t, k, s)[0] == s[0] || in_target_script(tokenized(t, k, s)[0], to_cyrillic),
{
    lemma_first_match_from(t, s, 0);
    match first_match(t, s) {
        Some(i) => {
            assert(pair_well_formed(t, i, to_cyrillic));
            let rest = tokenized(t, k, s.skip(t[i].0.len() as int));
            if i < k {
                assert((t[i].1 + rest)[0] == t[i].1[0]);
                if t[i].0 == t[i].1 {
                    assert(t[i].0[0] == s.take(t[i].0.len() as int)[0]);
                }
            } else {
                assert((t[i].0 + rest)[0] == t[i].0[0]);
                assert(t[i].0[0] == s.take(t[i].0.len() as int)[0]);
            }
        },
        None => {},
    }
}

/// One pass of pair `k`, over the cut in which the pairs before `k` are
/// replaced, gives the cut in which pair `k` is replaced too.
pub proof fn lemma_pass_step(t: Pairs, k: int, s: Seq<char>, to_cyrillic: bool)
    requires
        well_ordered(t, to_cyrillic),
        0 <= k < t.len(),
        t[k].0 != t[k].1,
    ensures
        replace_all(tokenized(t, k, s), t[k].0, t[k].1) == tokenized(t, k + 1, s),
    decreases s.len(),
{
    let f = t[k].0;
    let g = t[k].1;
    assert(pair_well_formed(t, k, to_cyrillic));
    if s.len() == 0 {
        return;
    }
    lemma_first_match_from(t, s, 0);
    match first_match(t, s) {
        None => {
            let y = tokenized(t, k, s.drop_first());
            lemma_pass_step(t, k, s.drop_first(), to_cyrillic);
            if f[0] == s[0] {
                if f.len() == 1 {
                    assert(s.take(1) =~= f);
                } else {
                    assert(s.take(1) =~= t[k + 1].0);
                }
            }
            lemma_replace_skips_prefix(seq![s[0]], y, f, g);
        },
        Some(i) => {
            assert(pair_well_formed(t, i, to_cyrillic));
            let src = t[i].0;
            let rest = s.skip(src.len() as int);
            let y = tokenized(t, k, rest);
            lemma_pass_step(t, k, rest, to_cyrillic);
            assert(src =~= s.take(src.len() as int));
            if i == k {
                assert((f + y).take(f.len() as int) =~= f);
                assert((f + y).skip(f.len() as int) =~= y);
            } else if i < k && src != t[i].1 {
                assert forall|p: int| 0 <= p < t[i].1.len() implies t[i].1[p] != f[0] by {
                    assert(in_target_script(t[i].1[p], to_cyrillic));
                    assert(!in_target_script(f[0], to_cyrillic));
                }
                lemma_replace_skips_prefix(t[i].1, y, f, g);
            } else if src == t[i].1 {
                lemma_replace_skips_prefix(src, y, f, g);
            } else {
                // k < i: the source of pair k does not begin `s`
                assert(!starts_with(s, f));
                let x = src + y;
                if src.len() == 1 {
                    if starts_with(x, f) {
                        assert(x.take(f.len() as int)[0] == f[0]);
                        if f.len() == 1 {
                            assert(s.take(1) =~= f);
                        } else {
                            assert(x.take(f.len() as int)[1] == f[1]);
                            if rest.len() > 0 {
                                lemma_tokenized_head(t, k, rest, to_cyrillic);
                                assert(s.take(2) =~= f);
                            }
                        }
                    }
                    assert(x.drop_first() =~= y);
                    assert(seq![x[0]] + replace_all(y, f, g) =~= x.take(1) + replace_all(y, f, g));
                    assert(x.take(1) =~= src);
                } else {
                    if starts_with(x, f) {
                        assert(x.take(f.len() as int)[0] == f[0]);
                        if f.len() == 1 {
                            assert(s.take(1) =~= f);
                        } else {
                            assert(x.take(f.len() as int)[1] == f[1]);
                            assert(s.take(2) =~= f);
                        }
                    }
                    assert(x.drop_first() =~= seq![src[1]] + y);
                    lemma_replace_skips_prefix(seq![src[1]], y, f, g);
                    assert(seq![x[0]] + (seq![src[1]] + replace_all(y, f, g)) =~= src + replace_all(y, f, g));
                }
            }
        },
    }
}

/// For a well-ordered table, the first `n` passes give the cut in which the
/// graphemes of the first `n` pairs are replaced.
pub proof fn lemma_apply_first_tokenized(t: Pairs, n: nat, s: Seq<char>, to_cyrillic: bool)
    requires
        well_ordered(t, to_cyrillic),
        n <= t.len(),
    ensures
        apply_first(t, n, s) == tokenized(t, n as int, s),
    decreases n,
{
    if n == 0 {
        lemma_tokenized_none(t, s);
    } else {
        let k = n - 1;
        lemma_apply_first_tokenized(t, (n - 1) as nat, s, to_cyrillic);
        if t[k].0 == t[k].1 {
            assert(pair_well_formed(t, k, to_cyrillic));
            lemma_replace_by_itself(tokenized(t, k, s), t[k].0);
            lemma_tokenized_self_pair(t, k, s);
        } else {
            lemma_pass_step(t, k, s, to_cyrillic);
        }
    }
}

/// For a well-ordered table, applying all its pairs in order is cutting the
/// string into graphemes and replacing each.
pub proof fn lemma_apply_tokenized(t: Pairs, s: Seq<char>, to_cyrillic: bool)
    requires
        well_ordered(t, to_cyrillic),
    ensures
        apply_pairs(t, s) == tokenized(t, t.len() as int, s),
{
    lemma_apply_first_tokenized(t, t.len(), s, to_cyrillic);
}

/// `c` occurs in no source grapheme of `t`.
pub open spec fn outside_sources(t: Pairs, c: char) -> bool {
    forall|m: int, p: int| 0 <= m < t.len() && 0 <= p < t[m].0.len() ==> t[m].0[p] != c
}

/// A character that occurs in no source splits the cut in two.
pub proof fn lemma_tokenized_split(t: Pairs, k: int, a: Seq<char>, c: char, b: Seq<char>, to_cyrillic: bool)
    requires
        well_ordered(t, to_cyrillic),
        outside_sources(t, c),
    ensures
        tokenized(t, k, a + seq![c] + b) == tokenized(t, k, a) + seq![c] + tokenized(t, k, b),
    decreases a.len(),
{
    let x = a + seq![c] + b;
    lemma_first_match_from(t, x, 0);
    if a.len() == 0 {
        assert(x.drop_first() =~= b);
        match first_match(t, x) {
            Some(i) => {
                assert(pair_well_formed(t, i, to_cyrillic));
                assert(x.take(t[i].0.len() as int)[0] == x[0]);
            },
            None => {},
        }
        assert(tokenized(t, k, a) =~= Seq::<char>::empty());
        assert(seq![c] + tokenized(t, k, b) =~= tokenized(t, k, a) + seq![c] + tokenized(t, k, b));
    } else {
        assert forall|m: int| 0 <= m < t.len() implies starts_with(x, #[trigger] t[m].0) == starts_with(a, t[m].0) by {
            let src = t[m].0;
            if src.len() <= a.len() {
                assert(x.take(src.len() as int) =~= a.take(src.len() as int));
            } else if starts_with(x, src) {
                assert(x.take(src.len() as int)[a.len() as int] == x[a.len() as int]);
            }
        }
        lemma_first_match_same(t, x, a, 0);
        lemma_first_match_from(t, a, 0);
        match first_match(t, a) {
            Some(i) => {
                assert(pair_well_formed(t, i, to_cyrillic));
                let n = t[i].0.len() as int;
                assert(x.skip(n) =~= a.skip(n) + seq![c] + b);
                lemma_tokenized_split(t, k, a.skip(n), c, b, to_cyrillic);
                let d = if i < k { t[i].1 } else { t[i].0 };
                assert(d + (tokenized(t, k, a.skip(n)) + seq![c] + tokenized(t, k, b))
                    =~= (d + tokenized(t, k, a.skip(n))) + seq![c] + tokenized(t, k, b));
            },
            None => {
                assert(x.drop_first() =~= a.drop_first() + seq![c] + b);
                lemma_tokenized_split(t, k, a.drop_first(), c, b, to_cyrillic);
                assert(seq![a[0]] + (tokenized(t, k, a.drop_first()) + seq![c] + tokenized(t, k, b))
                    =~= (seq![a[0]] + tokenized(t, k, a.drop_first())) + seq![c] + tokenized(t, k, b));
            },
        }
    }
}

} // verus!
