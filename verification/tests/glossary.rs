use prism_agent::glossary::{import_tally, parse_glossary_csv, parse_glossary_line, GlossaryLine};

fn term(l: &GlossaryLine) -> (String, String, String, String, Option<String>) {
    match l {
        GlossaryLine::Term(t) => (
            t.source_lang.clone(),
            t.target_lang.clone(),
            t.source_term.clone(),
            t.target_term.clone(),
            t.category.clone(),
        ),
        other => panic!("not a term: {:?}", other),
    }
}

#[test]
fn four_fields_make_a_term_without_category() {
    let l = parse_glossary_line("en,zh,apple,苹果");
    assert_eq!(term(&l), ("en".into(), "zh".into(), "apple".into(), "苹果".into(), None));
}

#[test]
fn fields_are_trimmed_and_category_keeps_commas() {
    let l = parse_glossary_line("  en , zh , large model , 大模型 , AI, ML  ");
    assert_eq!(
        term(&l),
        ("en".into(), "zh".into(), "large model".into(), "大模型".into(), Some("AI, ML".into()))
    );
}

#[test]
fn blank_and_comment_lines_are_skipped() {
    assert!(matches!(parse_glossary_line("   "), GlossaryLine::Blank));
    assert!(matches!(parse_glossary_line("# en,zh,a,b"), GlossaryLine::Blank));
}

#[test]
fn fewer_than_four_fields_is_malformed() {
    assert!(matches!(parse_glossary_line("en,zh,apple"), GlossaryLine::Malformed));
    assert!(matches!(parse_glossary_line("just text"), GlossaryLine::Malformed));
}

#[test]
fn csv_skips_header_and_tallies() {
    let csv = "source_lang,target_lang,source_term,target_term,category\r\nen,zh,a,甲\n\n# note\nbad,line\nen,zh,b,乙,cat\n";
    let lines = parse_glossary_csv(csv);
    assert_eq!(lines.len(), 5);
    assert_eq!(term(&lines[0]).3, "甲");
    assert!(matches!(lines[1], GlossaryLine::Blank));
    assert!(matches!(lines[2], GlossaryLine::Blank));
    assert!(matches!(lines[3], GlossaryLine::Malformed));
    assert_eq!(term(&lines[4]).4, Some("cat".to_string()));
    let r = import_tally(&lines, &vec![true, true, true, true, false]);
    assert_eq!(r.imported, 1);
    assert_eq!(r.failed, 2);
}

#[test]
fn empty_csv_has_no_lines() {
    assert!(parse_glossary_csv("").is_empty());
    assert!(parse_glossary_csv("header only").is_empty());
}
