use prism_agent::market::{
    collect_market_hits, market_hit, market_results, market_urls, mark_installed, merge_hits,
    rank_hits, MarketItem, MarketSource, PluginMarket,
};
use prism_agent::skills::SkillSearchHit;

fn plugins() -> PluginMarket {
    PluginMarket { host: "plugins.example.dev".into(), id_prefix: "plugins-example".into() }
}

fn item(name: &str) -> MarketItem {
    MarketItem {
        name: name.into(),
        description: String::new(),
        tags: vec![],
        author: None,
        url: None,
        download_url: None,
        install_url: None,
        github: None,
        stars: None,
    }
}

fn hit(name: &str, desc: &str, stars: Option<u64>, installed: bool) -> SkillSearchHit {
    SkillSearchHit {
        id: format!("x:{}", name),
        name: name.into(),
        description: desc.into(),
        source: "skills.sh".into(),
        install_source: String::new(),
        tags: vec![],
        author: None,
        stars,
        url: None,
        installed,
    }
}

#[test]
fn search_urls_encode_query() {
    let urls = market_urls(&plugins(), "pdf 工具&x");
    assert_eq!(urls.len(), 3);
    assert_eq!(urls[0], "https://skills.sh/api/search?q=pdf%20%E5%B7%A5%E5%85%B7%26x");
    assert_eq!(urls[1], "https://plugins.example.dev/api/skills?q=pdf%20%E5%B7%A5%E5%85%B7%26x");
    assert_eq!(urls[2], "https://clawhub.ai/api/v1/search?query=pdf%20%E5%B7%A5%E5%85%B7%26x");
    assert_eq!(market_urls(&plugins(), "a-b_c.d~")[0], "https://skills.sh/api/search?q=a-b_c.d~");
}

#[test]
fn skills_sh_item_becomes_hit() {
    let mut it = item("pdf");
    it.description = "PDF tools".into();
    it.download_url = Some("https://d/pdf.zip".into());
    it.tags = vec!["doc".into()];
    let h = market_hit(MarketSource::SkillsSh, &plugins(), it).unwrap();
    assert_eq!(h.id, "skills-sh:pdf");
    assert_eq!(h.source, "skills.sh");
    assert_eq!(h.install_source, "skills.sh:pdf");
    assert_eq!(h.url.as_deref(), Some("https://d/pdf.zip"));
    assert_eq!(h.tags, vec!["doc".to_string()]);
    assert_eq!(h.stars, None);
    assert!(!h.installed);
}

#[test]
fn nameless_items_are_dropped() {
    assert!(market_hit(MarketSource::ClawHub, &plugins(), item("")).is_none());
    let mut out = Vec::new();
    collect_market_hits(MarketSource::Plugins, &plugins(), vec![item("a"), item(""), item("b")], &mut out);
    assert_eq!(out.len(), 2);
    assert_eq!(out[0].install_source, "github:a");
    assert_eq!(out[1].id, "plugins-example:b");
}

#[test]
fn plugin_directory_uses_github_repo() {
    let mut it = item("x");
    it.github = Some("owner/repo".into());
    let h = market_hit(MarketSource::Plugins, &plugins(), it).unwrap();
    assert_eq!(h.install_source, "github:owner/repo");
    assert_eq!(h.source, "plugins.example.dev");
    assert_eq!(h.url, None);
}

#[test]
fn clawhub_install_and_url_fallbacks() {
    let mut a = item("a");
    a.github = Some("o/r".into());
    a.stars = Some(12);
    let h = market_hit(MarketSource::ClawHub, &plugins(), a).unwrap();
    assert_eq!(h.install_source, "github:o/r");
    assert_eq!(h.url.as_deref(), Some("https://github.com/o/r"));
    assert_eq!(h.stars, Some(12));
    let mut b = item("b");
    b.install_url = Some("https://i/b.zip".into());
    assert_eq!(market_hit(MarketSource::ClawHub, &plugins(), b).unwrap().install_source, "zip:https://i/b.zip");
    assert_eq!(market_hit(MarketSource::ClawHub, &plugins(), item("c")).unwrap().install_source, "zip");
}

#[test]
fn installed_match_ignores_case_and_spaces() {
    let hits = vec![hit("PDF Tools", "", None, false), hit("other", "", None, true)];
    let r = mark_installed(hits, &vec!["pdftools".to_string()]);
    assert!(r[0].installed);
    assert!(!r[1].installed);
}

#[test]
fn merge_fills_gaps_and_keeps_first_position() {
    let mut a = hit("PDF-Skill", "", Some(3), false);
    a.install_source = String::new();
    let mut b = hit("pdf", "Handles PDFs", Some(10), true);
    b.author = Some("ann".into());
    b.install_source = "github:o/pdf".into();
    let c = hit("other", "o", None, false);
    let r = merge_hits(vec![a, c, b]);
    assert_eq!(r.len(), 2);
    assert_eq!(r[0].name, "PDF-Skill");
    assert_eq!(r[0].description, "Handles PDFs");
    assert_eq!(r[0].author.as_deref(), Some("ann"));
    assert_eq!(r[0].install_source, "github:o/pdf");
    assert_eq!(r[0].stars, Some(10));
    assert!(r[0].installed);
    assert_eq!(r[1].name, "other");
}

#[test]
fn ranking_puts_installed_then_stars_first() {
    let r = rank_hits(vec![
        hit("a", "d", Some(5), false),
        hit("b", "d", None, true),
        hit("c", "d", Some(50), false),
        hit("e", "", Some(5), false),
    ]);
    let names: Vec<&str> = r.iter().map(|h| h.name.as_str()).collect();
    assert_eq!(names, vec!["b", "c", "e", "a"]);
}

#[test]
fn results_pipeline() {
    let hits = vec![hit("Alpha", "", Some(1), false), hit("alpha skill", "x", None, false), hit("beta", "", Some(7), false)];
    let r = market_results(hits, &vec!["Alpha".to_string()]);
    assert_eq!(r.len(), 2);
    assert_eq!(r[0].name, "Alpha");
    assert!(r[0].installed);
    assert_eq!(r[0].description, "x");
    assert_eq!(r[1].name, "beta");
}
