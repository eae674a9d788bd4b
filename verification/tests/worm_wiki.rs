use scraper::Html;
use wiki_spider::layout::LayoutComponent;
use wiki_spider::requester::{Method, SimpleRequest};
use wiki_spider::spider::RequestFilter;
use wiki_spider::worm_wiki::{
    any_cell_mentions, cells_mention, clean_names, first_says, follow_links, initial, resolve_link, selects_any,
    ArcSummary, ArticleLinksComponent, CategoryPage, ChapterSumary, CharacterSheetComponent, Extractions,
    MainPageBanner, StoryArticle, WormRequestFilter,
};

fn request() -> SimpleRequest {
    SimpleRequest::get("https://worm.fandom.com/wiki/Some/Page?x=1".to_string())
}

fn texts(parts: &[&str]) -> Vec<String> {
    parts.iter().map(|p| p.to_string()).collect()
}

#[test]
fn test_clean_names() {
    let cleaned = clean_names(vec![
        "Victoria Dallon".into(),
        "Vicky".into(),
        "Glory Girl".into(),
        "Antares".into(),
        "Point_Me_@_The_Sky (civilian ".into(),
        "PHO".into(),
        " handle)".into(),
        "Alexandria Junior (By ".into(),
        "Taylor".into(),
        ")".into(),
        "[1]".into(),
        "Glory Hole (By ".into(),
        "Tattletale".into(),
        ")".into(),
        "[1]".into(),
        "[2]".into(),
        "[3]".into(),
        "Big V (By ".into(),
        "Vista".into(),
        ")".into(),
        "[4]".into(),
        "[5]".into(),
        "[6]".into(),
    ]);
    let expected: Vec<String> = vec![
        "Victoria Dallon".into(),
        "Vicky".into(),
        "Glory Girl".into(),
        "Antares".into(),
        "Point_Me_@_The_Sky".into(),
        "Alexandria Junior".into(),
        "Glory Hole".into(),
        "Big V".into(),
    ];
    assert_eq!(cleaned, expected);
}

#[test]
fn clean_names_edge_cases() {
    let clean = |names: &[&str]| clean_names(names.iter().map(|n| n.to_string()).collect());
    assert_eq!(clean(&[]), Vec::<String>::new());
    assert_eq!(clean(&["", "  ", "(all remark)", "[1]"]), Vec::<String>::new());
    // A closing bracket outside a remark is kept.
    assert_eq!(clean(&["a) b"]), vec!["a) b"]);
    // Remarks do not nest: the first closing bracket ends the remark.
    assert_eq!(clean(&["a (b (c) d) e"]), vec!["a  d) e"]);
    // Either closing bracket ends a remark.
    assert_eq!(clean(&["a (b] c"]), vec!["a  c"]);
    // A remark left open runs into the next names.
    assert_eq!(clean(&["a (b", "c", "d) e", "f"]), vec!["a", "e", "f"]);
    // An opening bracket inside a remark keeps it open, even if it closes.
    assert_eq!(clean(&["a [) b] c"]), vec!["a  b] c"]);
    assert_eq!(clean(&["\u{a0}Skitter\u{3000}"]), vec!["Skitter"]);
}

#[test]
fn initial_is_the_main_page_of_the_wiki() {
    let seeds = initial();
    assert_eq!(seeds.len(), 1);
    assert_eq!(seeds[0].method, Method::Get);
    assert_eq!(seeds[0].url, "https://worm.fandom.com/wiki/Worm_Wiki");
    assert!(seeds[0].headers.is_empty());
    assert!(seeds[0].body.is_none());
    assert!(WormRequestFilter.is_valid(&seeds[0]));
}

#[test]
fn filter_accepts_only_pages_of_the_wiki() {
    let accepts = |url: &str| WormRequestFilter.is_valid(&SimpleRequest::get(url.to_string()));
    assert!(accepts("https://worm.fandom.com/wiki"));
    assert!(accepts("https://worm.fandom.com/wiki/Taylor_Hebert"));
    assert!(accepts("https://worm.fandom.com/wikipedia"));
    assert!(!accepts("https://worm.fandom.com/wik"));
    assert!(!accepts("http://worm.fandom.com/wiki/Taylor_Hebert"));
    assert!(!accepts("https://example.com/https://worm.fandom.com/wiki"));
    assert!(!accepts(""));
}

#[test]
fn resolve_link_joins_parses_and_drops_the_query() {
    let base = "https://worm.fandom.com/wiki/Some/Page?x=1";
    assert_eq!(
        resolve_link(base, "/wiki/Taylor_Hebert?action=edit#Trivia").as_deref(),
        Some("https://worm.fandom.com/wiki/Taylor_Hebert#Trivia")
    );
    assert_eq!(resolve_link(base, "//cdn.example.com/a b").as_deref(), Some("https://cdn.example.com/a%20b"));
    assert_eq!(resolve_link(base, "HTTP://Example.COM:80/a/../b?q").as_deref(), None);
    assert_eq!(resolve_link(base, "http://Example.COM:80/a/../b?q").as_deref(), Some("http://example.com/b"));
    assert_eq!(resolve_link(base, "https://example.com").as_deref(), Some("https://example.com/"));
    assert_eq!(resolve_link(base, "httpx").as_deref(), None);
    assert_eq!(resolve_link(base, "http://").as_deref(), None);
    assert_eq!(resolve_link(base, "relative/page").as_deref(), None);
    assert_eq!(resolve_link(base, "#fragment").as_deref(), None);
    assert_eq!(resolve_link(base, "").as_deref(), None);
    assert_eq!(resolve_link("not a url", "/wiki/A").as_deref(), None);
}

#[test]
fn links_lose_their_query_and_nothing_else() {
    let base = "https://worm.fandom.com/wiki/Some/Page?x=1";
    assert_eq!(resolve_link(base, "https://a.example/p?x=1&y=2").as_deref(), Some("https://a.example/p"));
    assert_eq!(resolve_link(base, "https://a.example/p?x=1#frag").as_deref(), Some("https://a.example/p#frag"));
    assert_eq!(resolve_link(base, "https://a.example/p").as_deref(), Some("https://a.example/p"));
    assert_eq!(resolve_link(base, "https://A.example").as_deref(), Some("https://a.example/"));
    assert_eq!(resolve_link(base, "/?q=1").as_deref(), Some("https://worm.fandom.com/"));
}

#[test]
fn article_links_need_a_link_and_resolve_each_reference() {
    let page = Html::parse_document(
        r#"<a href="/wiki/A?x=1">a</a><a>none</a><a href="ftp://x">f</a><a href="http://b.example/?q">b</a>"#,
    );
    assert!(ArticleLinksComponent.matches(&page));
    let facts = ArticleLinksComponent.extract(&request(), &page);
    let urls: Vec<String> = facts
        .iter()
        .map(|f| match f {
            Extractions::URL(u) => u.clone(),
            other => panic!("unexpected {:?}", other),
        })
        .collect();
    assert_eq!(urls, vec!["https://worm.fandom.com/wiki/A", "http://b.example/"]);
    let bare = Html::parse_document("<p>no links</p>");
    assert!(!ArticleLinksComponent.matches(&bare));
    assert!(ArticleLinksComponent.extract(&request(), &bare).is_empty());
}

#[test]
fn marker_components_match_their_markers_and_extract_nothing() {
    let banner = Html::parse_document(r#"<div class="x main-page-tag-lcs">hi</div>"#);
    let story = Html::parse_document(r#"<div id="infoboxinternal"></div>"#);
    let bare = Html::parse_document("<p>chapter guide outside of a table</p>");
    assert!(MainPageBanner.matches(&banner));
    assert!(!MainPageBanner.matches(&story));
    assert!(StoryArticle.matches(&story));
    assert!(!StoryArticle.matches(&banner));
    assert!(MainPageBanner.extract(&request(), &banner).is_empty());
    assert!(StoryArticle.extract(&request(), &story).is_empty());
    assert!(selects_any(&banner, "div"));
    assert!(!selects_any(&banner, "table"));
    // A text that is no selector selects nothing.
    assert!(!selects_any(&banner, "div["));
    assert!(!ChapterSumary.matches(&bare));
    assert!(!ArcSummary.matches(&bare));
}

#[test]
fn guides_are_found_in_table_cells_whatever_their_case() {
    let chapter = Html::parse_document(
        "<table><tr><td>other</td><td><b>Chapter</b> GUIDE: 1.1</td></tr></table>",
    );
    let arc = Html::parse_document("<table><tr><td>The Arc Guide</td></tr></table>");
    assert!(ChapterSumary.matches(&chapter));
    assert!(!ArcSummary.matches(&chapter));
    assert!(ArcSummary.matches(&arc));
    assert!(!ChapterSumary.matches(&arc));
    assert!(any_cell_mentions(&arc, "the arc"));
    assert!(!any_cell_mentions(&arc, "The Arc"));
    assert!(ChapterSumary.extract(&request(), &chapter).is_empty());
    assert!(ArcSummary.extract(&request(), &arc).is_empty());
}

#[test]
fn category_page_reads_the_first_subtitle() {
    let category = Html::parse_document(
        r#"<div class="page-header__page-subtitle">A <i>Category page</i></div>"#,
    );
    let second = Html::parse_document(
        r#"<div class="page-header__page-subtitle">Article</div><div class="page-header__page-subtitle">Category page</div>"#,
    );
    let lower = Html::parse_document(r#"<div class="page-header__page-subtitle">category page</div>"#);
    assert!(CategoryPage.matches(&category));
    assert!(!CategoryPage.matches(&second));
    assert!(!CategoryPage.matches(&lower));
    assert!(!CategoryPage.matches(&Html::parse_document("<p>Category page</p>")));
    assert!(CategoryPage.extract(&request(), &category).is_empty());
}

#[test]
fn character_sheet_gives_the_cleaned_names() {
    let page = Html::parse_document(
        r#"<aside class="portable-infobox">
<h2 data-source="name"><i>The</i> Victoria Dallon</h2>
<section class="pi-group"><div data-source="alias"><div class="pi-data-value">Vicky<br>Glory Girl (hero)<br>Antares<sup>[1]</sup></div></div></section>
</aside>
<aside class="portable-infobox"><h2 data-source="name">No Aliases</h2></aside>
<aside class="portable-infobox">
<section class="pi-group"><div data-source="alias"><div class="pi-data-value">Nameless</div></div></section>
</aside>"#,
    );
    assert!(CharacterSheetComponent.matches(&page));
    let facts = CharacterSheetComponent.extract(&request(), &page);
    assert_eq!(facts.len(), 1);
    match &facts[0] {
        Extractions::Character(names) => {
            assert_eq!(names, &vec!["Victoria Dallon", "Vicky", "Glory Girl", "Antares"])
        }
        other => panic!("unexpected {:?}", other),
    }
    let bare = Html::parse_document("<p>nothing</p>");
    assert!(!CharacterSheetComponent.matches(&bare));
    assert!(CharacterSheetComponent.extract(&request(), &bare).is_empty());
}

#[test]
fn extract_character_takes_the_last_text_of_the_name_and_the_first_aliases() {
    let character = CharacterSheetComponent.extract_character(
        &vec![texts(&["Dr. ", "Taylor Hebert"]), texts(&["ignored"])],
        &vec![texts(&["Skitter (villain)", " Weaver ", "[2]"]), texts(&["ignored too"])],
    );
    match character {
        Some(Extractions::Character(names)) => assert_eq!(names, vec!["Taylor Hebert", "Skitter", "Weaver"]),
        other => panic!("unexpected {:?}", other),
    }
    assert!(CharacterSheetComponent.extract_character(&vec![], &vec![texts(&["a"])]).is_none());
    assert!(CharacterSheetComponent.extract_character(&vec![texts(&[])], &vec![texts(&["a"])]).is_none());
    assert!(CharacterSheetComponent.extract_character(&vec![texts(&["a"])], &vec![]).is_none());
    match CharacterSheetComponent.extract_character(&vec![texts(&["a"])], &vec![texts(&[])]) {
        Some(Extractions::Character(names)) => assert_eq!(names, vec!["a"]),
        other => panic!("unexpected {:?}", other),
    }
}

#[test]
fn follow_links_keeps_what_resolves_in_order() {
    let base = "https://worm.fandom.com/wiki/Some/Page";
    let hrefs = vec![
        Some("/wiki/B?x=1".to_string()),
        None,
        Some("mailto:someone@example.com".to_string()),
        Some("http://a.example".to_string()),
        Some("/wiki/B".to_string()),
        Some("http://[bad".to_string()),
    ];
    let urls: Vec<String> = follow_links(base, &hrefs)
        .into_iter()
        .map(|f| match f {
            Extractions::URL(u) => u,
            other => panic!("unexpected {:?}", other),
        })
        .collect();
    assert_eq!(
        urls,
        vec!["https://worm.fandom.com/wiki/B", "http://a.example/", "https://worm.fandom.com/wiki/B"]
    );
    assert!(follow_links(base, &Vec::new()).is_empty());
    assert!(follow_links("no base", &vec![Some("/wiki/B".to_string())]).is_empty());
}

#[test]
fn cells_mention_joins_and_lowers_the_text_of_each_cell() {
    let cells = vec![texts(&["Arc ", "Guide"]), texts(&[]), texts(&["CHAPTER", " GUIDE"])];
    assert!(cells_mention(&cells, "arc guide"));
    assert!(cells_mention(&cells, "chapter guide"));
    assert!(cells_mention(&cells, ""));
    assert!(!cells_mention(&cells, "Arc Guide"));
    assert!(!cells_mention(&cells, "guidearc"));
    assert!(!cells_mention(&Vec::new(), ""));
    // Lower case is Unicode's: the capital sharp s and the Greek sigma.
    assert!(cells_mention(&vec![texts(&["STRA\u{1e9e}E \u{3a3}"])], "stra\u{df}e \u{3c3}"));
}

#[test]
fn first_says_reads_only_the_first() {
    assert!(first_says(&vec![texts(&["A ", "Category", " page"]), texts(&["x"])], "Category page"));
    assert!(!first_says(&vec![texts(&["x"]), texts(&["Category page"])], "Category page"));
    assert!(!first_says(&vec![texts(&["category page"])], "Category page"));
    assert!(!first_says(&Vec::new(), "Category page"));
    assert!(first_says(&vec![texts(&[])], ""));
}

#[test]
fn extract_characters_pairs_names_and_aliases_sheet_by_sheet() {
    let names = vec![vec![texts(&["Taylor"])], vec![], vec![texts(&["Lisa"])], vec![texts(&["Extra"])]];
    let aliases = vec![vec![texts(&["Skitter"])], vec![texts(&["Nobody"])], vec![texts(&["Tattletale [1]"])]];
    let facts = CharacterSheetComponent.extract_characters(&names, &aliases);
    let found: Vec<Vec<String>> = facts
        .into_iter()
        .map(|f| match f {
            Extractions::Character(names) => names,
            other => panic!("unexpected {:?}", other),
        })
        .collect();
    assert_eq!(found, vec![vec!["Taylor", "Skitter"], vec!["Lisa", "Tattletale"]]);
    assert!(CharacterSheetComponent.extract_characters(&Vec::new(), &aliases).is_empty());
}
