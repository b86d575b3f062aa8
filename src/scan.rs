use vstd::prelude::*;

use crate::table::{fallback, fallback_of, lemma_rules_well_formed, rule_table, rules, Rule};

verus! {

/// `s` begins with `p`.
pub open spec fn starts_with(s: Seq<char>, p: Seq<char>) -> bool {
    p.len() <= s.len() && s.take(p.len() as int) == p
}

/// Pattern `j` of rule `i`.
pub open spec fn pattern(i: int, j: int) -> Seq<char> {
    rules()[i].patterns[j]
}

/// The first of `pats`, from index `j` on, that `s` begins with.
pub open spec fn first_pattern_from(pats: Seq<Seq<char>>, s: Seq<char>, j: int) -> Option<int>
    decreases pats.len() - j,
{
    if j < 0 || j >= pats.len() {
        None
    } else if starts_with(s, pats[j]) {
        Some(j)
    } else {
        first_pattern_from(pats, s, j + 1)
    }
}

/// The first rule, from rule `i` on, one of whose patterns `s` begins with,
/// together with the first such pattern of that rule.
pub open spec fn first_rule_from(s: Seq<char>, i: int) -> Option<(int, int)>
    decreases rules().len() - i,
{
    if i < 0 || i >= rules().len() {
        None
    } else {
        match first_pattern_from(rules()[i].patterns, s, 0) {
            Some(j) => Some((i, j)),
            None => first_rule_from(s, i + 1),
        }
    }
}

/// The rule and pattern that fire at the start of `s`: rules are tried in
/// order and, within a rule, its patterns in order.
pub open spec fn first_match(s: Seq<char>) -> Option<(int, int)> {
    first_rule_from(s, 0)
}

/// What a character becomes when no rule fires on it: its fallback
/// replacement, or nothing.
pub open spec fn single(c: char) -> Seq<char> {
    match fallback(c) {
        Some(t) => t,
        None => Seq::empty(),
    }
}

/// The SaypYu spelling of the IPA transcription `s`: a left-to-right scan
/// that, at each position, applies the first rule that fires there and
/// otherwise maps the single character at that position.
pub open spec fn saypyu_of(s: Seq<char>) -> Seq<char>
    decreases s.len(),
    via saypyu_of_decreases
{
    if s.len() == 0 {
        Seq::empty()
    } else {
        match first_match(s) {
            Some((i, j)) => rules()[i].replacement + saypyu_of(s.skip(pattern(i, j).len() as int)),
            None => single(s[0]) + saypyu_of(s.skip(1)),
        }
    }
}

pub(crate) proof fn lemma_first_pattern_from(pats: Seq<Seq<char>>, s: Seq<char>, j: int)
    ensures
        match first_pattern_from(pats, s, j) {
            Some(k) => 0 <= j <= k < pats.len() && starts_with(s, pats[k]) && forall|m: int|
                j <= m < k ==> !starts_with(s, #[trigger] pats[m]),
            None => forall|m: int| 0 <= j <= m < pats.len() ==> !starts_with(s, #[trigger] pats[m]),
        },
    decreases pats.len() - j,
{
    if 0 <= j < pats.len() && !starts_with(s, pats[j]) {
        lemma_first_pattern_from(pats, s, j + 1);
    }
}

/// The match that `first_rule_from` reports fires, and nothing before it does.
pub(crate) proof fn lemma_first_rule_from(s: Seq<char>, i: int)
    ensures
        match first_rule_from(s, i) {
            Some((k, j)) => {
                &&& 0 <= i <= k < rules().len()
                &&& 0 <= j < rules()[k].patterns.len()
                &&& starts_with(s, pattern(k, j))
                &&& forall|m: int| 0 <= m < j ==> !starts_with(s, #[trigger] pattern(k, m))
                &&& forall|r: int, m: int|
                    i <= r < k && 0 <= m < rules()[r].patterns.len() ==> !starts_with(
                        s,
                        #[trigger] pattern(r, m),
                    )
            },
            None => forall|r: int, m: int|
                0 <= i <= r < rules().len() && 0 <= m < rules()[r].patterns.len()
                    ==> !starts_with(s, #[trigger] pattern(r, m)),
        },
    decreases rules().len() - i,
{
    if 0 <= i < rules().len() {
        lemma_first_pattern_from(rules()[i].patterns, s, 0);
        if first_pattern_from(rules()[i].patterns, s, 0) is None {
            lemma_first_rule_from(s, i + 1);
        }
    }
}

#[via_fn]
proof fn saypyu_of_decreases(s: Seq<char>) {
    lemma_rules_well_formed();
    lemma_first_rule_from(s, 0);
}

/// The characters of `s`, one Unicode scalar value per element.
pub fn chars_of(s: &str) -> (r: Vec<char>)
    ensures
        r@ == s@,
{
    let mut r: Vec<char> = Vec::new();
    for c in it: s.chars()
        invariant
            it.seq() == s@,
            r@ == it.seq().take(it.index() as int),
    {
        r.push(c);
    }
    r
}

/// Whether the characters of `s` from `pos` on begin with `p`.
fn starts_with_at(s: &Vec<char>, pos: usize, p: &Vec<char>) -> (r: bool)
    requires
        pos <= s.len(),
    ensures
        r == starts_with(s@.skip(pos as int), p@),
{
    if p.len() > s.len() - pos {
        return false;
    }
    let mut k: usize = 0;
    while k < p.len()
        invariant
            k <= p.len(),
            pos + p.len() <= s.len(),
            forall|m: int| 0 <= m < k ==> s@[pos + m] == p@[m],
        decreases p.len() - k,
    {
        if s[pos + k] != p[k] {
            assert(s@.skip(pos as int).take(p.len() as int)[k as int] != p@[k as int]);
            return false;
        }
        k += 1;
    }
    assert(s@.skip(pos as int).take(p.len() as int) =~= p@);
    true
}

/// The first of `pats` that the characters of `s` from `pos` on begin with.
fn first_pattern(pats: &Vec<Vec<char>>, s: &Vec<char>, pos: usize) -> (r: Option<usize>)
    requires
        pos <= s.len(),
    ensures
        match r {
            Some(j) => first_pattern_from(pats.deep_view(), s@.skip(pos as int), 0) == Some(
                j as int,
            ) && j < pats.len(),
            None => first_pattern_from(pats.deep_view(), s@.skip(pos as int), 0) is None,
        },
{
    let ghost rest = s@.skip(pos as int);
    let mut j: usize = 0;
    while j < pats.len()
        invariant
            j <= pats.len(),
            pos <= s.len(),
            rest == s@.skip(pos as int),
            first_pattern_from(pats.deep_view(), rest, 0) == first_pattern_from(
                pats.deep_view(),
                rest,
                j as int,
            ),
        decreases pats.len() - j,
    {
        assert(pats.deep_view()[j as int] =~= pats[j as int]@);
        if starts_with_at(s, pos, &pats[j]) {
            return Some(j);
        }
        j += 1;
    }
    None
}

/// The first rule of `table` that fires on the characters of `s` from `pos`
/// on, with the first of its patterns that matches there.
fn first_rule(table: &Vec<Rule>, s: &Vec<char>, pos: usize) -> (r: Option<(usize, usize)>)
    requires
        pos <= s.len(),
        table.len() == rules().len(),
        forall|i: int| 0 <= i < table.len() ==> #[trigger] table[i]@ == rules()[i],
    ensures
        match r {
            Some((i, j)) => first_match(s@.skip(pos as int)) == Some((i as int, j as int))
                && i < table.len() && j < table[i as int].patterns.len(),
            None => first_match(s@.skip(pos as int)) is None,
        },
{
    let ghost rest = s@.skip(pos as int);
    let mut i: usize = 0;
    while i < table.len()
        invariant
            i <= table.len(),
            pos <= s.len(),
            rest == s@.skip(pos as int),
            table.len() == rules().len(),
            forall|k: int| 0 <= k < table.len() ==> #[trigger] table[k]@ == rules()[k],
            first_match(rest) == first_rule_from(rest, i as int),
        decreases table.len() - i,
    {
        assert(table[i as int]@ == rules()[i as int]);
        if let Some(j) = first_pattern(&table[i].patterns, s, pos) {
            return Some((i, j));
        }
        i += 1;
    }
    None
}

/// Converts an IPA transcription (the OED and CED notations included) into
/// SaypYu spelling. Characters that neither a rule nor the single-character
/// mapping covers, such as stress marks, are dropped.
pub fn ipa_to_saypyu(ipa: &str) -> (r: String)
    ensures
        r@ == saypyu_of(ipa@),
{
    let chars = chars_of(ipa);
    let table = rule_table();
    let mut res = String::new();
    let mut pos: usize = 0;
    assert(chars@.skip(0) =~= chars@);
    assert(res@ + saypyu_of(chars@) =~= saypyu_of(chars@));
    while pos < chars.len()
        invariant
            pos <= chars.len(),
            table.len() == rules().len(),
            forall|k: int| 0 <= k < table.len() ==> #[trigger] table[k]@ == rules()[k],
            res@ + saypyu_of(chars@.skip(pos as int)) == saypyu_of(chars@),
        decreases chars.len() - pos,
    {
        let ghost rest = chars@.skip(pos as int);
        let ghost before = res@;
        match first_rule(&table, &chars, pos) {
            Some((i, j)) => {
                let n = table[i].patterns[j].len();
                proof {
                    lemma_rules_well_formed();
                    lemma_first_rule_from(rest, 0);
                    assert(table[i as int]@ == rules()[i as int]);
                    assert(table[i as int].patterns.deep_view()[j as int] =~= table[i as int].patterns[j as int]@);
                    assert(rest.skip(n as int) =~= chars@.skip(pos + n));
                }
                res.append(table[i].replacement);
                pos = pos + n;
                assert(before + rules()[i as int].replacement + saypyu_of(chars@.skip(pos as int))
                    =~= before + (rules()[i as int].replacement + saypyu_of(rest.skip(n as int))));
            }
            None => {
                if let Some(t) = fallback_of(chars[pos]) {
                    res.append(t);
                }
                pos = pos + 1;
                assert(rest.skip(1) =~= chars@.skip(pos as int));
                assert(res@ + saypyu_of(chars@.skip(pos as int)) =~= before + (single(rest[0])
                    + saypyu_of(rest.skip(1))));
            }
        }
    }
    assert(chars@.skip(pos as int) =~= Seq::<char>::empty());
    assert(res@ + Seq::<char>::empty() =~= res@);
    res
}


} // verus!
