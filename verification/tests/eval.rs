use prism_agent::eval::{
    chart_caption_of, levenshtein_chars, score_case, table_json_of, table_match_counts, tally_cases, CaseResult,
    ChunkMeta, EvalCase, EvalExpect, EvalHit, EvalTally,
};

#[test]
fn levenshtein_identical() {
    assert_eq!(levenshtein_chars("今天天气很好", "今天天气很好"), 0);
}

#[test]
fn levenshtein_one_char() {
    assert_eq!(levenshtein_chars("今天天气很好", "今天天气很不好"), 1);
}

#[test]
fn levenshtein_empty() {
    assert_eq!(levenshtein_chars("", "abc"), 3);
    assert_eq!(levenshtein_chars("abc", ""), 3);
}

#[test]
fn levenshtein_classic_example() {
    assert_eq!(levenshtein_chars("kitten", "sitting"), 3);
    assert_eq!(levenshtein_chars("sitting", "kitten"), 3);
}

#[test]
fn levenshtein_counts_characters_not_bytes() {
    // one substituted 3-byte character is one edit
    assert_eq!(levenshtein_chars("中文", "英文"), 1);
}

#[test]
fn eval_types_hold_their_fields() {
    let expect = EvalExpect {
        chunk_ids: vec!["c1".into()],
        pages: vec![1, 2],
        section: None,
        answer_keywords: vec![],
        has_table: Some(true),
        table_expected: Some(vec![vec!["a".into()]]),
        ocr_reference: None,
        chart_expected: None,
    };
    let case = EvalCase { id: "e1".into(), wiki_id: "w".into(), question: "q".into(), expect, suite: "default".into() };
    assert_eq!(case.expect.pages, vec![1, 2]);
    let meta = ChunkMeta { id: "c1".into(), block_type: "table".into(), table_json: None, caption: None, content: "x".into() };
    assert_eq!(meta.block_type, "table");
    let r = CaseResult { id: "e1".into(), question: "q".into(), passed: true, hit_count: 1, detail: String::new() };
    assert!(r.passed);
}

#[test]
fn table_cells_matched_by_containment() {
    let cells = vec!["营业收入 100".to_string(), "净利润".to_string()];
    let expected = vec!["营业收入".to_string(), "净利润".to_string(), "毛利率".to_string()];
    assert_eq!(prism_agent::eval::matched_cells(&cells, &expected), 2);
    assert_eq!(prism_agent::eval::matched_cells(&vec![], &expected), 0);
}

fn expect(ids: &[&str], kws: &[&str], pages: &[u32]) -> EvalExpect {
    EvalExpect {
        chunk_ids: ids.iter().map(|s| s.to_string()).collect(),
        pages: pages.to_vec(),
        section: None,
        answer_keywords: kws.iter().map(|s| s.to_string()).collect(),
        has_table: None,
        table_expected: None,
        ocr_reference: None,
        chart_expected: None,
    }
}

fn case(id: &str, e: EvalExpect) -> EvalCase {
    EvalCase { id: id.into(), wiki_id: "w".into(), question: format!("q-{id}"), expect: e, suite: "default".into() }
}

fn hit(id: &str, quote: &str, page: Option<u32>) -> EvalHit {
    EvalHit { chunk_id: id.into(), quote: quote.into(), page_start: page }
}

fn meta(id: &str, block: &str, table: Option<&str>, caption: Option<&str>) -> ChunkMeta {
    ChunkMeta {
        id: id.into(),
        block_type: block.into(),
        table_json: table.map(String::from),
        caption: caption.map(String::from),
        content: String::new(),
    }
}

#[test]
fn score_case_recall_detail() {
    let c = case("e1", expect(&["c1", "c2", "c3"], &["营收"], &[]));
    let hits = vec![hit("c2", "本季营收增长", None), hit("c9", "x", None), hit("c1", "y", None)];
    let r = score_case(&c, &hits);
    assert_eq!(r.id, "e1");
    assert_eq!(r.question, "q-e1");
    assert_eq!(r.hit_count, 2);
    assert!(r.passed);
    assert_eq!(r.detail, "recall 2/3");
}

#[test]
fn score_case_missing_keywords() {
    let c = case("e2", expect(&["c1"], &["营收", "利润", "现金流"], &[]));
    let hits = vec![hit("c1", "利润下降", None)];
    let r = score_case(&c, &hits);
    assert_eq!(r.hit_count, 1);
    assert!(!r.passed);
    assert_eq!(r.detail, "缺少关键词: 营收, 现金流");
}

#[test]
fn score_case_no_expected_ids() {
    let r = score_case(&case("e3", expect(&[], &[], &[])), &vec![]);
    assert!(r.passed);
    assert_eq!(r.hit_count, 0);
    assert_eq!(r.detail, "recall 0/0");
    let r = score_case(&case("e4", expect(&["c1"], &[], &[])), &vec![hit("c2", "", None)]);
    assert!(!r.passed);
    assert_eq!(r.detail, "recall 0/1");
}

#[test]
fn tally_counts_each_dimension() {
    let mut t = EvalTally::new();
    let mut e = expect(&["c1", "c2"], &[], &[3, 4]);
    e.has_table = Some(false);
    e.table_expected = Some(vec![vec!["a".into()]]);
    e.ocr_reference = Some("ref".into());
    t.add_case(&case("a", e), &vec![hit("c1", "", Some(4))]);
    let mut e2 = expect(&["c3"], &[], &[7]);
    e2.chart_expected = Some("柱状图".into());
    e2.has_table = Some(true);
    t.add_case(&case("b", e2), &vec![hit("c3", "", Some(8)), hit("c4", "", None)]);
    assert_eq!((t.hit_total, t.hit_denom), (2, 3));
    assert_eq!((t.page_ok, t.page_denom), (1, 2));
    assert_eq!(t.table_denom, 2);
    assert_eq!(t.ocr_denom, 1);
    assert_eq!(t.chart_denom, 1);
}

#[test]
fn tally_cases_empty_and_full() {
    let (t, r) = tally_cases(&vec![], &vec![]);
    assert!(r.is_empty());
    assert_eq!((t.hit_total, t.hit_denom, t.page_ok, t.page_denom), (0, 0, 0, 0));
    assert_eq!((t.table_denom, t.ocr_denom, t.chart_denom), (0, 0, 0));
    let cases = vec![case("a", expect(&["c1"], &[], &[])), case("b", expect(&["c2"], &["k"], &[]))];
    let hits = vec![vec![hit("c1", "", None)], vec![hit("c2", "no", None)]];
    let (t, r) = tally_cases(&cases, &hits);
    assert_eq!((t.hit_total, t.hit_denom), (2, 2));
    assert!(r[0].passed);
    assert!(!r[1].passed);
    assert_eq!(r[1].detail, "缺少关键词: k");
}

#[test]
fn first_table_and_image_chunks() {
    let metas = vec![
        meta("m1", "text", Some("[]"), Some("x")),
        meta("m2", "table", None, None),
        meta("m3", "table", Some("[[\"a\"]]"), None),
        meta("m4", "image", None, Some("图1")),
    ];
    // the first table chunk decides, even without JSON
    assert_eq!(table_json_of(&metas), None);
    assert_eq!(table_json_of(&metas[2..].to_vec()).as_deref(), Some("[[\"a\"]]"));
    assert_eq!(chart_caption_of(&metas).as_deref(), Some("图1"));
    assert_eq!(chart_caption_of(&vec![]), None);
}

#[test]
fn table_counts_from_json() {
    let exp = vec!["营业收入".to_string(), "净利润".to_string(), "毛利率".to_string()];
    assert_eq!(
        table_match_counts(Some(r#"[["营业收入 100", 5], "x", ["净利润"]]"#), &exp),
        Some((2, 3, 2))
    );
    assert_eq!(table_match_counts(Some(r#"{"a": "毛利率 30%", "b": 1}"#), &exp), Some((1, 3, 1)));
    assert_eq!(table_match_counts(Some("42"), &exp), Some((0, 3, 0)));
    assert_eq!(table_match_counts(Some("not json"), &exp), None);
    assert_eq!(table_match_counts(None, &exp), None);
    assert_eq!(table_match_counts(Some("[[\"a\"]]"), &vec![]), Some((0, 0, 1)));
}
