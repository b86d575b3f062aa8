use vstd::prelude::*;

verus! {

/// A substitution rule: alternative source patterns, tried in order, and
/// the text that replaces whichever of them matches first.
pub struct RuleModel {
    pub patterns: Seq<Seq<char>>,
    pub replacement: Seq<char>,
}

pub open spec fn rule_model(patterns: Seq<Seq<char>>, replacement: Seq<char>) -> RuleModel {
    RuleModel { patterns, replacement }
}

/// The ordered multi-character rules. Earlier rules, and earlier patterns
/// within a rule, take priority: more specific patterns are listed before
/// more general ones. A pattern listed twice (such as `aɪər`) takes the
/// replacement of its first rule; the later entry never fires.
pub open spec fn rules() -> Seq<RuleModel> {
    seq![
        rule_model(seq![seq!['e', ':'], seq!['e', 'ː']], "ee"@),
        rule_model(seq![seq!['i', ':'], seq!['i', 'ː']], "ii"@),
        rule_model(seq![seq!['u', ':'], seq!['u', 'ː']], "uu"@),
        rule_model(seq![seq!['e', 'ɪ']], "ey"@),
        rule_model(seq![seq!['a', 'ɪ'], seq!['ʌ', 'ɪ']], "ai"@),
        rule_model(seq![seq!['ɔ', 'ɪ']], "oy"@),
        rule_model(seq![seq!['æ', 'ʊ']], "aw"@),
        rule_model(seq![seq!['a', 'ʊ']], "ou"@),
        rule_model(seq![seq!['o', 'ʊ'], seq!['ə', 'ʊ']], "ow"@),
        rule_model(seq![seq!['ə', 'ʊ']], "oh"@),
        rule_model(seq![seq!['u', 'i']], "uy"@),
        rule_model(
            seq![
                seq!['ɜ', 'r'],
                seq!['ɜ', ':', 'r'],
                seq!['ɜ', 'ː', 'r'],
                seq!['ɜ', ':'],
                seq!['ɜ', 'ː'],
                seq!['ɘ', ':'],
                seq!['ɘ', 'ː'],
            ],
            "ur"@,
        ),
        rule_model(seq![seq!['o', 'ʊ', 'r'], seq!['ɔ', ':', 'r'], seq!['ɔ', 'ː', 'r']], "oor"@),
        rule_model(seq![seq!['ɪ', 'ə', 'r'], seq!['ɪ', 'ə']], "iir"@),
        rule_model(
            seq![
                seq!['ɛ', 'ə', 'r'],
                seq!['ε', 'ə', 'r'],
                seq!['e', 'ə', 'r'],
                seq!['ε', 'ə'],
                seq!['ɛ', 'ə'],
                seq!['e', 'ə'],
            ],
            "ayr"@,
        ),
        rule_model(seq![seq!['ʊ', 'ə']], "ur"@),
        rule_model(seq![seq!['a', 'ɪ', 'ə', 'r'], seq!['ʌ', 'ɪ', 'ə']], "aiɘr"@),
        rule_model(seq![seq!['a', 'ɪ', 'ə', 'r'], seq!['a', 'ʊ', 'ə']], "ouɘr"@),
        rule_model(seq![seq!['t', 'ʃ']], "tsh"@),
        rule_model(seq![seq!['d', 'ʒ'], seq!['ʤ']], "j"@),
    ]
}

/// A rule as executable data.
pub struct Rule {
    pub patterns: Vec<Vec<char>>,
    pub replacement: &'static str,
}

impl View for Rule {
    type V = RuleModel;

    open spec fn view(&self) -> RuleModel {
        RuleModel { patterns: self.patterns.deep_view(), replacement: self.replacement@ }
    }
}

fn rule(patterns: Vec<Vec<char>>, replacement: &'static str) -> (r: Rule)
    ensures
        r.patterns == patterns,
        r.replacement == replacement,
{
    Rule { patterns, replacement }
}

/// The rule table as executable data, in the order of `rules()`.
pub fn rule_table() -> (t: Vec<Rule>)
    ensures
        t.len() == rules().len(),
        forall|i: int| 0 <= i < t.len() ==> #[trigger] t[i]@ == rules()[i],
{
    let t = vec![
        rule(vec![vec!['e', ':'], vec!['e', 'ː']], "ee"),
        rule(vec![vec!['i', ':'], vec!['i', 'ː']], "ii"),
        rule(vec![vec!['u', ':'], vec!['u', 'ː']], "uu"),
        rule(vec![vec!['e', 'ɪ']], "ey"),
        rule(vec![vec!['a', 'ɪ'], vec!['ʌ', 'ɪ']], "ai"),
        rule(vec![vec!['ɔ', 'ɪ']], "oy"),
        rule(vec![vec!['æ', 'ʊ']], "aw"),
        rule(vec![vec!['a', 'ʊ']], "ou"),
        rule(vec![vec!['o', 'ʊ'], vec!['ə', 'ʊ']], "ow"),
        rule(vec![vec!['ə', 'ʊ']], "oh"),
        rule(vec![vec!['u', 'i']], "uy"),
        rule(
            vec![
                vec!['ɜ', 'r'],
                vec!['ɜ', ':', 'r'],
                vec!['ɜ', 'ː', 'r'],
                vec!['ɜ', ':'],
                vec!['ɜ', 'ː'],
                vec!['ɘ', ':'],
                vec!['ɘ', 'ː'],
            ],
            "ur",
        ),
        rule(vec![vec!['o', 'ʊ', 'r'], vec!['ɔ', ':', 'r'], vec!['ɔ', 'ː', 'r']], "oor"),
        rule(vec![vec!['ɪ', 'ə', 'r'], vec!['ɪ', 'ə']], "iir"),
        rule(
            vec![
                vec!['ɛ', 'ə', 'r'],
                vec!['ε', 'ə', 'r'],
                vec!['e', 'ə', 'r'],
                vec!['ε', 'ə'],
                vec!['ɛ', 'ə'],
                vec!['e', 'ə'],
            ],
            "ayr",
        ),
        rule(vec![vec!['ʊ', 'ə']], "ur"),
        rule(vec![vec!['a', 'ɪ', 'ə', 'r'], vec!['ʌ', 'ɪ', 'ə']], "aiɘr"),
        rule(vec![vec!['a', 'ɪ', 'ə', 'r'], vec!['a', 'ʊ', 'ə']], "ouɘr"),
        rule(vec![vec!['t', 'ʃ']], "tsh"),
        rule(vec![vec!['d', 'ʒ'], vec!['ʤ']], "j"),
    ];
    assert(t[0]@.patterns =~~= rules()[0].patterns);
    assert(t[1]@.patterns =~~= rules()[1].patterns);
    assert(t[2]@.patterns =~~= rules()[2].patterns);
    assert(t[3]@.patterns =~~= rules()[3].patterns);
    assert(t[4]@.patterns =~~= rules()[4].patterns);
    assert(t[5]@.patterns =~~= rules()[5].patterns);
    assert(t[6]@.patterns =~~= rules()[6].patterns);
    assert(t[7]@.patterns =~~= rules()[7].patterns);
    assert(t[8]@.patterns =~~= rules()[8].patterns);
    assert(t[9]@.patterns =~~= rules()[9].patterns);
    assert(t[10]@.patterns =~~= rules()[10].patterns);
    assert(t[11]@.patterns =~~= rules()[11].patterns);
    assert(t[12]@.patterns =~~= rules()[12].patterns);
    assert(t[13]@.patterns =~~= rules()[13].patterns);
    assert(t[14]@.patterns =~~= rules()[14].patterns);
    assert(t[15]@.patterns =~~= rules()[15].patterns);
    assert(t[16]@.patterns =~~= rules()[16].patterns);
    assert(t[17]@.patterns =~~= rules()[17].patterns);
    assert(t[18]@.patterns =~~= rules()[18].patterns);
    assert(t[19]@.patterns =~~= rules()[19].patterns);
    t
}

/// What a single character becomes when no rule matches at its position;
/// `None` for a character that is dropped.
pub open spec fn fallback(c: char) -> Option<Seq<char>> {
    match c {
        'ō' => Some("oh"@),
        'ā' => Some("ay"@),
        'a' | 'æ' => Some("a"@),
        'ɑ' | 'ä' => Some("aa"@),
        'e' | 'ε' | 'ɛ' => Some("e"@),
        'ɪ' => Some("i"@),
        'i' => Some("ii"@),
        'o' | 'ɒ' => Some("o"@),
        'ɔ' => Some("aw"@),
        'ʊ' => Some("u"@),
        'u' => Some("uu"@),
        'y' => Some("uy"@),
        'ə' | 'ʌ' => Some("ɘ"@),
        'ø' | 'œ' => Some("ur"@),
        'j' | 'ʎ' | 'ʝ' => Some("y"@),
        'w' => Some("w"@),
        'ʍ' => Some("hw"@),
        'ɥ' => Some("w"@),
        'b' => Some("b"@),
        'd' => Some("d"@),
        'f' => Some("f"@),
        'g' | 'ɡ' => Some("g"@),
        'h' => Some("h"@),
        'k' => Some("k"@),
        'x' => Some("kh"@),
        'l' => Some("l"@),
        'm' => Some("m"@),
        'n' => Some("n"@),
        'p' => Some("p"@),
        'q' => Some("q"@),
        'r' | 'ɾ' | 'ɹ' => Some("r"@),
        's' => Some("s"@),
        't' => Some("t"@),
        'v' => Some("v"@),
        'z' => Some("z"@),
        'θ' => Some("th"@),
        'ð' => Some("dh"@),
        'ʃ' => Some("sh"@),
        'ʒ' => Some("j"@),
        'ŋ' => Some("ng"@),
        '(' => Some("("@),
        ')' => Some(")"@),
        ' ' => Some(" "@),
        _ => None,
    }
}

/// The single-character mapping, as executable code.
pub fn fallback_of(c: char) -> (r: Option<&'static str>)
    ensures
        match r {
            Some(t) => fallback(c) == Some(t@),
            None => fallback(c) is None,
        },
{
    match c {
        'ō' => Some("oh"),
        'ā' => Some("ay"),
        'a' | 'æ' => Some("a"),
        'ɑ' | 'ä' => Some("aa"),
        'e' | 'ε' | 'ɛ' => Some("e"),
        'ɪ' => Some("i"),
        'i' => Some("ii"),
        'o' | 'ɒ' => Some("o"),
        'ɔ' => Some("aw"),
        'ʊ' => Some("u"),
        'u' => Some("uu"),
        'y' => Some("uy"),
        'ə' | 'ʌ' => Some("ɘ"),
        'ø' | 'œ' => Some("ur"),
        'j' | 'ʎ' | 'ʝ' => Some("y"),
        'w' => Some("w"),
        'ʍ' => Some("hw"),
        'ɥ' => Some("w"),
        'b' => Some("b"),
        'd' => Some("d"),
        'f' => Some("f"),
        'g' | 'ɡ' => Some("g"),
        'h' => Some("h"),
        'k' => Some("k"),
        'x' => Some("kh"),
        'l' => Some("l"),
        'm' => Some("m"),
        'n' => Some("n"),
        'p' => Some("p"),
        'q' => Some("q"),
        'r' | 'ɾ' | 'ɹ' => Some("r"),
        's' => Some("s"),
        't' => Some("t"),
        'v' => Some("v"),
        'z' => Some("z"),
        'θ' => Some("th"),
        'ð' => Some("dh"),
        'ʃ' => Some("sh"),
        'ʒ' => Some("j"),
        'ŋ' => Some("ng"),
        '(' => Some("("),
        ')' => Some(")"),
        ' ' => Some(" "),
        _ => None,
    }
}

} // verus!

verus! {

/// Every pattern is nonempty and holds none of the characters that the
/// fallback mapping passes through verbatim (space and both parentheses).
pub open spec fn rules_well_formed() -> bool {
    forall|i: int, j: int|
        0 <= i < rules().len() && 0 <= j < rules()[i].patterns.len() ==> {
            let p = #[trigger] rules()[i].patterns[j];
            &&& p.len() > 0
            &&& !p.contains(' ')
            &&& !p.contains('(')
            &&& !p.contains(')')
        }
}

pub proof fn lemma_rules_well_formed()
    ensures
        rules_well_formed(),
{
}

} // verus!
