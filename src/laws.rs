use vstd::prelude::*;

use crate::scan::{
    first_match,
    first_pattern_from,
    first_rule_from,
    lemma_first_pattern_from,
    lemma_first_rule_from,
    pattern,
    saypyu_of,
    single,
    starts_with,
};
use crate::table::{fallback, lemma_rules_well_formed, rules};

verus! {

/// Pattern `j` of rule `i` exists in the table.
pub open spec fn is_pattern(i: int, j: int) -> bool {
    0 <= i < rules().len() && 0 <= j < rules()[i].patterns.len()
}

/// Pattern `(i1, j1)` is tried no later than pattern `(i2, j2)`: rule order
/// first, then the order of patterns within a rule.
pub open spec fn tried_no_later(i1: int, j1: int, i2: int, j2: int) -> bool {
    i1 < i2 || (i1 == i2 && j1 <= j2)
}

/// `c` occurs in some pattern of the rule table.
pub open spec fn in_some_pattern(c: char) -> bool {
    exists|i: int, j: int| is_pattern(i, j) && #[trigger] pattern(i, j).contains(c)
}

/// The conversion is deterministic: it depends on the characters of its
/// input alone, so equal inputs give equal outputs.
pub proof fn lemma_deterministic(s: Seq<char>, t: Seq<char>)
    requires
        s == t,
    ensures
        saypyu_of(s) == saypyu_of(t),
{
}

/// Where some pattern matches at the start of `s`, a rule fires there, never
/// the single-character mapping of the first character: the rule that fires
/// is the first whose pattern matches, tried no later than the given one, and
/// the output begins with its replacement.
pub proof fn lemma_rule_before_fallback(s: Seq<char>, i: int, j: int)
    requires
        is_pattern(i, j),
        starts_with(s, pattern(i, j)),
    ensures
        first_match(s) matches Some((k, m)) && is_pattern(k, m) && tried_no_later(k, m, i, j)
            && starts_with(s, pattern(k, m)) && saypyu_of(s) == rules()[k].replacement
            + saypyu_of(s.skip(pattern(k, m).len() as int)),
{
    lemma_rules_well_formed();
    lemma_first_rule_from(s, 0);
    assert(pattern(i, j).len() > 0);
    if first_match(s) is None {
        assert(!starts_with(s, pattern(i, j)));
    }
    let (k, m) = first_match(s)->0;
    if !tried_no_later(k, m, i, j) {
        if i < k {
            assert(!starts_with(s, pattern(i, j)));
        } else {
            assert(!starts_with(s, pattern(k, j)));
        }
    }
}

/// Where an earlier pattern `(i1, j1)` and a later one `(i2, j2)` both match
/// at the start of `s`, the later one does not fire: the rule that fires is
/// tried no later than the earlier pattern, and the output begins with its
/// replacement.
pub proof fn lemma_earlier_rule_wins(s: Seq<char>, i1: int, j1: int, i2: int, j2: int)
    requires
        is_pattern(i1, j1),
        is_pattern(i2, j2),
        starts_with(s, pattern(i1, j1)),
        starts_with(s, pattern(i2, j2)),
        tried_no_later(i1, j1, i2, j2),
        (i1, j1) != (i2, j2),
    ensures
        first_match(s) matches Some((k, m)) && tried_no_later(k, m, i1, j1) && (k, m) != (i2, j2)
            && saypyu_of(s) == rules()[k].replacement + saypyu_of(
            s.skip(pattern(k, m).len() as int),
        ),
{
    lemma_rule_before_fallback(s, i1, j1);
}

/// Where the earlier patterns do not match, the pattern `(i, j)` that
/// matches is the one that fires.
pub proof fn lemma_first_matching_rule_fires(s: Seq<char>, i: int, j: int)
    requires
        is_pattern(i, j),
        starts_with(s, pattern(i, j)),
        forall|k: int, m: int|
            is_pattern(k, m) && tried_no_later(k, m, i, j) && (k, m) != (i, j) ==> !starts_with(
                s,
                #[trigger] pattern(k, m),
            ),
    ensures
        first_match(s) == Some((i, j)),
        saypyu_of(s) == rules()[i].replacement + saypyu_of(s.skip(pattern(i, j).len() as int)),
{
    lemma_rule_before_fallback(s, i, j);
}

/// A pattern without `c` matches at the start of `a + [c] + b` exactly when
/// it matches at the start of `a`.
proof fn lemma_starts_with_cut(a: Seq<char>, b: Seq<char>, c: char, p: Seq<char>)
    requires
        !p.contains(c),
    ensures
        starts_with(a + seq![c] + b, p) == starts_with(a, p),
{
    let s = a + seq![c] + b;
    if p.len() <= a.len() {
        assert(s.take(p.len() as int) =~= a.take(p.len() as int));
    } else if starts_with(s, p) {
        assert(s.take(p.len() as int)[a.len() as int] == c);
        assert(p[a.len() as int] == c);
    }
}

proof fn lemma_first_pattern_agree(pats: Seq<Seq<char>>, s: Seq<char>, t: Seq<char>, j: int)
    requires
        forall|m: int| 0 <= m < pats.len() ==> starts_with(s, #[trigger] pats[m]) == starts_with(t, pats[m]),
    ensures
        first_pattern_from(pats, s, j) == first_pattern_from(pats, t, j),
    decreases pats.len() - j,
{
    if 0 <= j < pats.len() {
        lemma_first_pattern_agree(pats, s, t, j + 1);
    }
}

/// Two inputs on which the same patterns match at the start have the same
/// first match.
proof fn lemma_first_rule_agree(s: Seq<char>, t: Seq<char>, i: int)
    requires
        forall|k: int, m: int|
            is_pattern(k, m) ==> starts_with(s, #[trigger] pattern(k, m)) == starts_with(t, pattern(k, m)),
    ensures
        first_rule_from(s, i) == first_rule_from(t, i),
    decreases rules().len() - i,
{
    if 0 <= i < rules().len() {
        let pats = rules()[i].patterns;
        assert forall|m: int| 0 <= m < pats.len() implies starts_with(s, #[trigger] pats[m])
            == starts_with(t, pats[m]) by {
            assert(is_pattern(i, m));
            assert(pattern(i, m) == pats[m]);
        }
        lemma_first_pattern_agree(pats, s, t, 0);
        lemma_first_rule_agree(s, t, i + 1);
    }
}

/// A character that occurs in no pattern splits the scan in two: no rule
/// reaches across it, and it is converted on its own.
pub proof fn lemma_split_at(a: Seq<char>, b: Seq<char>, c: char)
    requires
        !in_some_pattern(c),
    ensures
        saypyu_of(a + seq![c] + b) == saypyu_of(a) + single(c) + saypyu_of(b),
    decreases a.len(),
{
    lemma_rules_well_formed();
    let s = a + seq![c] + b;
    assert forall|k: int, m: int| is_pattern(k, m) implies starts_with(s, #[trigger] pattern(k, m))
        == starts_with(a, pattern(k, m)) by {
        assert(!pattern(k, m).contains(c));
        lemma_starts_with_cut(a, b, c, pattern(k, m));
    }
    lemma_first_rule_agree(s, a, 0);
    lemma_first_rule_from(a, 0);
    if a.len() == 0 {
        assert(s.skip(1) =~= b);
        assert(s[0] == c);
        assert(saypyu_of(a) + single(c) + saypyu_of(b) =~= single(c) + saypyu_of(b));
    } else {
        assert(s[0] == a[0]);
        match first_match(a) {
            Some((k, m)) => {
                let n = pattern(k, m).len() as int;
                assert(s.skip(n) =~= a.skip(n) + seq![c] + b);
                lemma_split_at(a.skip(n), b, c);
                assert(rules()[k].replacement + (saypyu_of(a.skip(n)) + single(c) + saypyu_of(b))
                    =~= rules()[k].replacement + saypyu_of(a.skip(n)) + single(c) + saypyu_of(b));
            },
            None => {
                assert(s.skip(1) =~= a.skip(1) + seq![c] + b);
                lemma_split_at(a.skip(1), b, c);
                assert(single(a[0]) + (saypyu_of(a.skip(1)) + single(c) + saypyu_of(b))
                    =~= single(a[0]) + saypyu_of(a.skip(1)) + single(c) + saypyu_of(b));
            },
        }
    }
}

/// Space and both parentheses appear unchanged in the output wherever they
/// appear in the input; the text on either side is converted on its own.
pub proof fn lemma_passes_through(a: Seq<char>, b: Seq<char>, c: char)
    requires
        c == ' ' || c == '(' || c == ')',
    ensures
        saypyu_of(a + seq![c] + b) == saypyu_of(a) + seq![c] + saypyu_of(b),
{
    lemma_rules_well_formed();
    if in_some_pattern(c) {
        let (i, j) = choose|i: int, j: int| is_pattern(i, j) && #[trigger] pattern(i, j).contains(c);
        assert(!pattern(i, j).contains(c));
    }
    reveal_strlit(" ");
    reveal_strlit("(");
    reveal_strlit(")");
    assert(single(c) =~= seq![c]);
    lemma_split_at(a, b, c);
}

/// A character that neither a pattern nor the single-character mapping
/// covers contributes nothing to the output.
pub proof fn lemma_dropped(a: Seq<char>, b: Seq<char>, c: char)
    requires
        !in_some_pattern(c),
        fallback(c) is None,
    ensures
        saypyu_of(a + seq![c] + b) == saypyu_of(a) + saypyu_of(b),
{
    lemma_split_at(a, b, c);
    assert(saypyu_of(a) + single(c) =~= saypyu_of(a));
}


/// The primary and secondary stress marks are dropped: each contributes
/// nothing, and the text on either side is converted on its own.
pub proof fn lemma_stress_marks_dropped(a: Seq<char>, b: Seq<char>, c: char)
    requires
        c == 'ˈ' || c == 'ˌ',
    ensures
        saypyu_of(a + seq![c] + b) == saypyu_of(a) + saypyu_of(b),
{
    assert forall|i: int, j: int| is_pattern(i, j) implies !#[trigger] pattern(i, j).contains(c) by {}
    lemma_dropped(a, b, c);
}

} // verus!
