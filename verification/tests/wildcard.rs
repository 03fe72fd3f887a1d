use irc_ingress::wildcard::match_wildcard;
use irc_ingress::wildcard::starts_single_wilcards;

#[test]
fn test_match_wildcard() {
    assert!(match_wildcard("somebody", "somebody"));
    assert!(!match_wildcard("somebody", "somebady"));
    assert!(match_wildcard("s?meb?dy", "samebady"));
    assert!(!match_wildcard("s?mec?dy", "samebady"));
    assert!(!match_wildcard("somebody", "somebod"));
    assert!(!match_wildcard("somebody", "somebodyis"));
    assert!(match_wildcard("so*body", "somebody"));
    assert!(match_wildcard("so**body", "somebody"));
    assert!(match_wildcard("so*body", "sobody"));
    assert!(match_wildcard("so*body*", "sobody"));
    assert!(match_wildcard("*so*body*", "sobody"));
    assert!(!match_wildcard("so*body", "sbody"));
    assert!(!match_wildcard("*so*body*", "sbody"));
    assert!(match_wildcard("so*body", "something body"));
    assert!(match_wildcard("so*bo*", "somebody"));
    assert!(match_wildcard("*", "Alice and Others"));
    assert!(!match_wildcard("", "Alice and Others"));
    assert!(match_wildcard("", ""));
    assert!(match_wildcard("*", ""));
    assert!(match_wildcard("***", ""));
    assert!(match_wildcard("* and Others", "Alice and Others"));
    assert!(!match_wildcard("* and Others", "Alice and others"));
    assert!(!match_wildcard("* and Others", "Aliceand Others"));
    assert!(match_wildcard("* and *", "Alice and Others"));
    assert!(match_wildcard("*** and **", "Alice and Others"));
    assert!(!match_wildcard("* and *", "Aliceand Others"));
    assert!(!match_wildcard("* and *", "Alice andOthers"));
    assert!(!match_wildcard("*** and ***", "Aliceand Others"));
    assert!(!match_wildcard("*** and ***", "Alice andOthers"));
    assert!(match_wildcard("*?and *", "Aliceand Others"));
    assert!(match_wildcard("* and?*", "Alice andOthers"));
    assert!(!match_wildcard("*?and *", "Aliceund Others"));
    assert!(!match_wildcard("* and?*", "Alice undOthers"));
    assert!(match_wildcard("lu*na*Xna*Y", "lulu and nanaXnaY"));
    assert!(match_wildcard("lu*Xlu*Wlu*Zlu*B", "lulululuYlululuXlululuWluluZluluAluluB"));
    assert!(match_wildcard("lu*?lu*?lu*?lu*?", "lulululuYlululuXlululuWluluZluluAluluB"));
    assert!(match_wildcard("*lu*Xlu*Wlu*Zlu*B*", "XXXlulululuYlululuXlululuWluluZluluAluluBlululu"));
    assert!(match_wildcard("la*la", "labulabela"));
    assert!(!match_wildcard("la*la", "labulabele"));
    assert!(match_wildcard("la*la*la", "labulalabela"));
    assert!(!match_wildcard("la*la*la", "labulalabele"));
    assert!(match_wildcard("la*l?", "labulabela"));
    assert!(!match_wildcard("la*?a", "labulabele"));
    assert!(!match_wildcard("la*l?", "labulabeka"));
    assert!(match_wildcard("greg*@somehere*", "greg-guru@somehere.net"));
    assert!(match_wildcard("greg*@somehere*", "greg@@@@somehere@@@"));
    assert!(!match_wildcard("greg*@somehere*", "greg.somehere@@@"));
}

#[test]
fn test_match_wildcard_pattern_longer_than_subject() {
    assert!(!match_wildcard("*abc", "x"));
    assert!(!match_wildcard("a*bcd", "a"));
    assert!(!match_wildcard("??", "x"));
}

#[test]
fn test_starts_single_wilcards() {
    assert!(starts_single_wilcards("s?m", "some"));
    assert!(starts_single_wilcards("", "anything"));
    assert!(!starts_single_wilcards("s?m", "so"));
    assert!(!starts_single_wilcards("s?m", "sax"));
    assert!(starts_single_wilcards("???", "abc"));
}
