use saypyu::{chars_of, ipa_to_saypyu};

#[test]
fn crustacean_example() {
    assert_eq!(ipa_to_saypyu("krʌˈsteɪʃən"), "krɘsteyshɘn");
}

#[test]
fn empty_input_gives_empty_output() {
    assert_eq!(ipa_to_saypyu(""), "");
}

#[test]
fn parentheses_are_preserved() {
    assert_eq!(ipa_to_saypyu("(stressed)"), "(stressed)");
}

#[test]
fn long_r_coloured_vowel_becomes_ur() {
    assert_eq!(ipa_to_saypyu("ɜːr"), "ur");
    assert_eq!(ipa_to_saypyu("stɜːrɪŋ"), "sturing");
    assert_eq!(ipa_to_saypyu("ɜ:r"), "ur");
    assert_eq!(ipa_to_saypyu("bɜːd"), "burd");
}

#[test]
fn affricate_tsh() {
    assert_eq!(ipa_to_saypyu("tʃ"), "tsh");
    assert_eq!(ipa_to_saypyu("tʃɜːtʃ"), "tshurtsh");
}

#[test]
fn stress_mark_between_mapped_characters_vanishes() {
    assert_eq!(ipa_to_saypyu("bˈd"), "bd");
    assert_eq!(ipa_to_saypyu("θˌð"), "thdh");
}

#[test]
fn dropped_character_keeps_rules_from_joining_across_it() {
    assert_eq!(ipa_to_saypyu("eɪ"), "ey");
    assert_eq!(ipa_to_saypyu("eˈɪ"), "ei");
}

#[test]
fn unmapped_symbols_only_give_empty_output() {
    assert_eq!(ipa_to_saypyu("ˈˌ123"), "");
    assert_eq!(ipa_to_saypyu("a1b"), "ab");
}

#[test]
fn space_and_parentheses_pass_through() {
    assert_eq!(ipa_to_saypyu("a (b) d"), "a (b) d");
    assert_eq!(ipa_to_saypyu(" "), " ");
    assert_eq!(ipa_to_saypyu("()"), "()");
}

#[test]
fn earlier_rule_beats_later_longer_rule() {
    // "oʊ" is listed before "oʊr", so the shorter pattern wins.
    assert_eq!(ipa_to_saypyu("oʊr"), "owr");
    // "aʊ" is listed before "aʊə".
    assert_eq!(ipa_to_saypyu("aʊə"), "ouɘ");
    // "aɪ" is listed before both "aɪər" entries.
    assert_eq!(ipa_to_saypyu("faɪər"), "faiɘr");
}

#[test]
fn earlier_rule_shadows_duplicate_pattern() {
    // "əʊ" appears in the "ow" rule before the "oh" rule.
    assert_eq!(ipa_to_saypyu("gəʊ"), "gow");
}

#[test]
fn rule_beats_single_character_mapping() {
    assert_eq!(ipa_to_saypyu("iː"), "ii");
    assert_eq!(ipa_to_saypyu("i"), "ii");
    assert_eq!(ipa_to_saypyu("uː"), "uu");
    assert_eq!(ipa_to_saypyu("kjuːb"), "kyuub");
    assert_eq!(ipa_to_saypyu("ɪə"), "iir");
    assert_eq!(ipa_to_saypyu("bɪər"), "biir");
    assert_eq!(ipa_to_saypyu("ɔːr"), "oor");
    assert_eq!(ipa_to_saypyu("ʊə"), "ur");
    assert_eq!(ipa_to_saypyu("εə"), "ayr");
    assert_eq!(ipa_to_saypyu("ʤ"), "j");
    assert_eq!(ipa_to_saypyu("dʒ"), "j");
    assert_eq!(ipa_to_saypyu("ɔɪ"), "oy");
    assert_eq!(ipa_to_saypyu("æʊ"), "aw");
    assert_eq!(ipa_to_saypyu("ui"), "uy");
}

#[test]
fn single_character_mapping() {
    assert_eq!(ipa_to_saypyu("ʃʒŋθðxʍ"), "shjngthdhkhhw");
    assert_eq!(ipa_to_saypyu("ōā"), "ohay");
    assert_eq!(ipa_to_saypyu("ɑäæ"), "aaaaa");
    assert_eq!(ipa_to_saypyu("øœy"), "ururuy");
    assert_eq!(ipa_to_saypyu("ɾɹr"), "rrr");
    assert_eq!(ipa_to_saypyu("ʎʝj"), "yyy");
    assert_eq!(ipa_to_saypyu("ɡg"), "gg");
    assert_eq!(ipa_to_saypyu("ɒɔʊ"), "oawu");
}

#[test]
fn conversion_is_deterministic() {
    let s = "krʌˈsteɪʃən (ə)";
    assert_eq!(ipa_to_saypyu(s), ipa_to_saypyu(s));
}

#[test]
fn chars_of_splits_into_scalar_values() {
    assert_eq!(chars_of("aɪ b"), vec!['a', 'ɪ', ' ', 'b']);
    assert_eq!(chars_of(""), Vec::<char>::new());
}
