//! The extraction rules for the Worm wiki: its layouts, its request filter
//! and the clean-up of character names.

use crate::html::{
    html_source, is_selector, parse, parse_selector, select_attrs, select_nested_texts, select_texts, selected_attrs,
    selected_nested_texts, selected_texts,
};
use crate::layout::{fact_views, ClassificationError, Layout, LayoutComponent, LayoutParser};
use crate::parser::Parser;
use crate::requester::{request_views, Method, RequestView, SimpleRequest};
use crate::spider::RequestFilter;
use crate::text::{
    chars_of, contains, join_texts, joined, lowercase, lowercased, occurs_in, starts_with, string_of, string_views,
    trim, trimmed,
};
use crate::url::{
    drop_get_parameters, join_url, joined_url, parse_url, parsed_url, url_sans_query, url_string,
};
use scraper::Html;
use std::path::PathBuf;
use std::sync::Arc;
use vstd::prelude::*;
use vstd::string::*;

verus! {

/// Whether `c` opens a bracketed remark.
pub open spec fn is_opening(c: char) -> bool {
    c == '(' || c == '['
}

/// Whether `c` closes a bracketed remark.
pub open spec fn is_closing(c: char) -> bool {
    c == ')' || c == ']'
}

/// The characters of `name` outside bracketed remarks, and whether a remark
/// is still open at its end. `inside` says whether one was open at its
/// start. A remark runs from an opening bracket to the next closing one,
/// both included; remarks do not nest.
pub open spec fn unbracketed(name: Seq<char>, inside: bool) -> (Seq<char>, bool)
    decreases name.len(),
{
    if name.len() == 0 {
        (Seq::empty(), inside)
    } else {
        let (kept, open) = unbracketed(name.drop_last(), inside);
        let c = name.last();
        if is_opening(c) || open {
            (kept, !is_closing(c))
        } else {
            (kept.push(c), false)
        }
    }
}

/// The cleaned names of `names`, and whether a remark is still open after
/// the last of them. A remark may run from one name into the next ones.
/// Each name loses its remarks and then the white space at its ends; a name
/// of which nothing is left is dropped.
pub open spec fn cleaned(names: Seq<Seq<char>>, inside: bool) -> (Seq<Seq<char>>, bool)
    decreases names.len(),
{
    if names.len() == 0 {
        (Seq::empty(), inside)
    } else {
        let (done, open) = cleaned(names.drop_last(), inside);
        let (kept, still) = unbracketed(names.last(), open);
        let name = trimmed(kept);
        if name.len() == 0 {
            (done, still)
        } else {
            (done.push(name), still)
        }
    }
}

/// The names of a character sheet without their bracketed remarks.
pub fn clean_names(names: Vec<String>) -> (clean: Vec<String>)
    ensures
        string_views(clean@) == cleaned(string_views(names@), false).0,
{
    let mut clean: Vec<String> = Vec::new();
    let mut currently_in_brackets = false;
    let ghost all = string_views(names@);
    let mut n: usize = 0;
    assert(all.take(0) =~= Seq::empty());
    assert(string_views(clean@) =~= Seq::empty());
    while n < names.len()
        invariant
            n <= names@.len(),
            all == string_views(names@),
            (string_views(clean@), currently_in_brackets) == cleaned(all.take(n as int), false),
        decreases names@.len() - n,
    {
        let chars = chars_of(names[n].as_str());
        let ghost open = currently_in_brackets;
        let mut kept: Vec<char> = Vec::new();
        let mut i: usize = 0;
        assert(chars@.take(0) =~= Seq::empty());
        while i < chars.len()
            invariant
                i <= chars@.len(),
                (kept@, currently_in_brackets) == unbracketed(chars@.take(i as int), open),
            decreases chars@.len() - i,
        {
            let c = chars[i];
            assert(chars@.take(i + 1).drop_last() =~= chars@.take(i as int));
            if c == '(' || c == '[' || currently_in_brackets {
                currently_in_brackets = !(c == ')' || c == ']');
            } else {
                kept.push(c);
            }
            i += 1;
        }
        assert(chars@.take(chars@.len() as int) =~= chars@);
        assert(all.take(n + 1).drop_last() =~= all.take(n as int));
        assert(all.take(n + 1).last() == chars@);
        let name = trim(&kept);
        if name.len() > 0 {
            let ghost before = string_views(clean@);
            clean.push(string_of(name.as_slice()));
            assert(string_views(clean@) =~= before.push(name@));
        }
        n += 1;
    }
    assert(all.take(all.len() as int) =~= all);
    clean
}

/// A fact found in a page of the wiki.
#[derive(Clone, Debug)]
pub enum Extractions {
    /// A link to follow.
    URL(String),
    /// The names of a character: the main name, then the aliases.
    Character(Vec<String>),
}

/// The mathematical value of an [`Extractions`].
pub ghost enum ExtractionsView {
    URL(Seq<char>),
    Character(Seq<Seq<char>>),
}

impl View for Extractions {
    type V = ExtractionsView;

    open spec fn view(&self) -> ExtractionsView {
        match self {
            Extractions::URL(url) => ExtractionsView::URL(url@),
            Extractions::Character(names) => ExtractionsView::Character(string_views(names@)),
        }
    }
}

/// Only requests for pages of the wiki are followed.
pub struct WormRequestFilter;

impl RequestFilter for WormRequestFilter {
    open spec fn accepts(&self, request: RequestView) -> bool {
        "https://worm.fandom.com/wiki"@.is_prefix_of(request.url)
    }

    fn is_valid(&self, request: &SimpleRequest) -> (b: bool) {
        let u = chars_of(request.url.as_str());
        starts_with(&u, &chars_of("https://worm.fandom.com/wiki"))
    }
}

/// The seed of the crawl: the wiki's main page.
pub fn initial() -> (seeds: Vec<SimpleRequest>)
    ensures
        request_views(seeds@) == seq![
            RequestView {
                method: Method::Get,
                url: "https://worm.fandom.com/wiki/Worm_Wiki"@,
                headers: Seq::empty(),
                body: None,
            },
        ],
{
    let mut seeds: Vec<SimpleRequest> = Vec::new();
    seeds.push(SimpleRequest::get("https://worm.fandom.com/wiki/Worm_Wiki".to_owned()));
    assert(request_views(seeds@) =~= seq![seeds@[0]@]);
    seeds
}

/// The URL that a link with the reference `href` leads to from the page at
/// `base`, without its query: a reference that starts with a slash is
/// resolved against `base`, one that starts with `http` is a URL of its
/// own, any other is no link to follow, nor is one that does not resolve.
pub open spec fn link_target(base: Seq<char>, href: Seq<char>) -> Option<Seq<char>> {
    let target = if "/"@.is_prefix_of(href) {
        match parsed_url(base) {
            Some(from) => joined_url(from, href),
            None => None,
        }
    } else if "http"@.is_prefix_of(href) {
        parsed_url(href)
    } else {
        None
    };
    match target {
        Some(url) => Some(url_sans_query(url)),
        None => None,
    }
}

/// The links to follow among the references `hrefs`, found in the page at
/// `base`, in their order.
pub open spec fn link_facts(base: Seq<char>, hrefs: Seq<Option<Seq<char>>>) -> Seq<ExtractionsView>
    decreases hrefs.len(),
{
    if hrefs.len() == 0 {
        Seq::empty()
    } else {
        let before = link_facts(base, hrefs.drop_last());
        match hrefs.last() {
            Some(href) => match link_target(base, href) {
                Some(url) => before.push(ExtractionsView::URL(url)),
                None => before,
            },
            None => before,
        }
    }
}

/// The target of one link: see [`link_target`].
pub fn resolve_link(base: &str, href: &str) -> (target: Option<String>)
    ensures
        target.deep_view() == link_target(base@, href@),
{
    let reference = chars_of(href);
    let target = if starts_with(&reference, &chars_of("/")) {
        match parse_url(base) {
            Some(from) => join_url(&from, href),
            None => None,
        }
    } else if starts_with(&reference, &chars_of("http")) {
        parse_url(href)
    } else {
        None
    };
    match target {
        Some(url) => Some(url_string(drop_get_parameters(url))),
        None => None,
    }
}

/// The links to follow among the references `hrefs`, found in the page at
/// `base`: see [`link_facts`].
pub fn follow_links(base: &str, hrefs: &Vec<Option<String>>) -> (facts: Vec<Extractions>)
    ensures
        fact_views(facts@) == link_facts(base@, hrefs.deep_view()),
{
    let mut facts: Vec<Extractions> = Vec::new();
    let ghost all = hrefs.deep_view();
    let mut i: usize = 0;
    assert(fact_views(facts@) =~= Seq::empty());
    assert(all.take(0) =~= Seq::empty());
    while i < hrefs.len()
        invariant
            i <= hrefs@.len(),
            all == hrefs.deep_view(),
            fact_views(facts@) == link_facts(base@, all.take(i as int)),
        decreases hrefs@.len() - i,
    {
        let ghost before = fact_views(facts@);
        assert(all.take(i + 1).drop_last() =~= all.take(i as int));
        assert(all.take(i + 1).last() == hrefs@[i as int].deep_view());
        match &hrefs[i] {
            Some(href) => match resolve_link(base, href.as_str()) {
                Some(url) => {
                    facts.push(Extractions::URL(url));
                    assert(fact_views(facts@) =~= before.push(ExtractionsView::URL(url@)));
                },
                None => {},
            },
            None => {},
        }
        i += 1;
    }
    assert(all.take(all.len() as int) =~= all);
    facts
}

/// Whether `selector` selects an element of the page `source`.
pub open spec fn any_selected(source: Seq<char>, selector: Seq<char>) -> bool {
    is_selector(selector) && selected_texts(source, selector).len() > 0
}

/// Whether `selector` selects an element of `content`.
pub fn selects_any(content: &Html, selector: &str) -> (b: bool)
    ensures
        b == any_selected(html_source(*content), selector@),
{
    match parse_selector(selector) {
        Some(selector) => select_texts(content, &selector).len() > 0,
        None => false,
    }
}

/// Whether the text below an element, in lower case, holds `phrase`.
pub open spec fn mentions(texts: Seq<Seq<char>>, phrase: Seq<char>) -> bool {
    occurs_in(lowercased(joined(texts)), phrase)
}

/// Whether one of `cells`, each given by its text nodes, mentions `phrase`.
pub open spec fn any_mentions(cells: Seq<Seq<Seq<char>>>, phrase: Seq<char>) -> bool {
    exists|k: int| 0 <= k < cells.len() && mentions(#[trigger] cells[k], phrase)
}

/// Whether a table cell of the page `source` mentions `phrase`.
pub open spec fn cell_mentions(source: Seq<char>, phrase: Seq<char>) -> bool {
    is_selector("td"@) && any_mentions(selected_texts(source, "td"@), phrase)
}

/// Whether one of `cells`, each given by its text nodes, mentions `phrase`:
/// see [`any_mentions`].
pub fn cells_mention(cells: &Vec<Vec<String>>, phrase: &str) -> (b: bool)
    ensures
        b == any_mentions(cells.deep_view(), phrase@),
{
    let needle = chars_of(phrase);
    let mut k: usize = 0;
    while k < cells.len()
        invariant
            k <= cells@.len(),
            needle@ == phrase@,
            forall|j: int| 0 <= j < k ==> !mentions(#[trigger] cells.deep_view()[j], phrase@),
        decreases cells@.len() - k,
    {
        let text = lowercase(join_texts(&cells[k]).as_str());
        assert(cells.deep_view()[k as int] == cells@[k as int].deep_view());
        if contains(&chars_of(text.as_str()), &needle) {
            assert(mentions(cells.deep_view()[k as int], phrase@));
            return true;
        }
        k += 1;
    }
    false
}

/// Whether a table cell of `content` mentions `phrase`.
pub fn any_cell_mentions(content: &Html, phrase: &str) -> (b: bool)
    ensures
        b == cell_mentions(html_source(*content), phrase@),
{
    match parse_selector("td") {
        Some(selector) => cells_mention(&select_texts(content, &selector), phrase),
        None => false,
    }
}

/// The links of a page.
#[derive(Debug)]
pub struct ArticleLinksComponent;

impl ArticleLinksComponent {
    /// The references of the links of `content`.
    pub open spec fn links(content: &Html) -> Seq<Option<Seq<char>>> {
        if is_selector("a"@) {
            selected_attrs(html_source(*content), "a"@, "href"@)
        } else {
            Seq::empty()
        }
    }
}

impl LayoutComponent for ArticleLinksComponent {
    type Content = Html;

    type Extracted = Extractions;

    open spec fn matches_spec(&self, content: &Html) -> bool {
        Self::links(content).len() > 0
    }

    open spec fn extract_spec(&self, request: RequestView, content: &Html) -> Seq<ExtractionsView> {
        link_facts(request.url, Self::links(content))
    }

    open spec fn label(&self) -> Seq<char> {
        "ArticleLinksComponent"@
    }

    fn matches(&self, content: &Html) -> (b: bool) {
        match parse_selector("a") {
            Some(selector) => select_attrs(content, &selector, "href").len() > 0,
            None => false,
        }
    }

    fn extract(&self, request: &SimpleRequest, content: &Html) -> (facts: Vec<Extractions>) {
        match parse_selector("a") {
            Some(selector) => follow_links(request.url.as_str(), &select_attrs(content, &selector, "href")),
            None => follow_links(request.url.as_str(), &Vec::new()),
        }
    }

    fn name(&self) -> (name: String) {
        "ArticleLinksComponent".to_owned()
    }
}

/// The names of the character of one sheet, cleaned: the last text node of
/// the first element that holds the name, then the text nodes of the first
/// element that holds aliases. `names` and `aliases` hold the text nodes of
/// each such element of the sheet. A sheet without a name or without
/// aliases gives no character.
pub open spec fn character_of(names: Seq<Seq<Seq<char>>>, aliases: Seq<Seq<Seq<char>>>) -> Option<
    Seq<Seq<char>>,
> {
    if names.len() > 0 && names[0].len() > 0 && aliases.len() > 0 {
        Some(cleaned(seq![names[0].last()] + aliases[0], false).0)
    } else {
        None
    }
}

/// The characters of the first `n` sheets of a page, in order. `names` and
/// `aliases` hold, for each sheet, what [`character_of`] takes.
pub open spec fn character_facts(
    names: Seq<Seq<Seq<Seq<char>>>>,
    aliases: Seq<Seq<Seq<Seq<char>>>>,
    n: nat,
) -> Seq<ExtractionsView>
    decreases n,
{
    if n == 0 {
        Seq::empty()
    } else {
        let before = character_facts(names, aliases, (n - 1) as nat);
        match character_of(names[n - 1], aliases[n - 1]) {
            Some(character) => before.push(ExtractionsView::Character(character)),
            None => before,
        }
    }
}

/// The characters of the sheets of a page, in order: those of the sheets
/// that both `names` and `aliases` know.
pub open spec fn sheet_facts(names: Seq<Seq<Seq<Seq<char>>>>, aliases: Seq<Seq<Seq<Seq<char>>>>) -> Seq<
    ExtractionsView,
> {
    character_facts(
        names,
        aliases,
        if names.len() <= aliases.len() {
            names.len()
        } else {
            aliases.len()
        },
    )
}

/// The character sheets of a page.
#[derive(Debug)]
pub struct CharacterSheetComponent;

impl CharacterSheetComponent {
    /// Whether the three selectors of a character sheet are CSS selectors.
    pub open spec fn selectors_parse() -> bool {
        &&& is_selector(".portable-infobox"@)
        &&& is_selector("[data-source~=name]"@)
        &&& is_selector(".pi-group [data-source~=alias] .pi-data-value"@)
    }

    /// For each sheet of `content`, the text nodes of its name elements.
    pub open spec fn names(content: &Html) -> Seq<Seq<Seq<Seq<char>>>> {
        selected_nested_texts(html_source(*content), ".portable-infobox"@, "[data-source~=name]"@)
    }

    /// For each sheet of `content`, the text nodes of its alias elements.
    pub open spec fn aliases(content: &Html) -> Seq<Seq<Seq<Seq<char>>>> {
        selected_nested_texts(
            html_source(*content),
            ".portable-infobox"@,
            ".pi-group [data-source~=alias] .pi-data-value"@,
        )
    }

    /// The character of one sheet: see [`character_of`].
    pub fn extract_character(&self, names: &Vec<Vec<String>>, aliases: &Vec<Vec<String>>) -> (character:
        Option<Extractions>)
        ensures
            match character_of(names.deep_view(), aliases.deep_view()) {
                Some(cleaned) => character matches Some(c) && c@ == ExtractionsView::Character(cleaned),
                None => character is None,
            },
    {
        if names.len() == 0 || names[0].len() == 0 || aliases.len() == 0 {
            return None;
        }
        let main_name = names[0][names[0].len() - 1].clone();
        let mut all: Vec<String> = Vec::new();
        all.push(main_name);
        let others = &aliases[0];
        let ghost first = names.deep_view()[0].last();
        assert(names.deep_view()[0] == names@[0].deep_view());
        assert(aliases.deep_view()[0] == others.deep_view());
        assert(string_views(all@) =~= seq![first] + others.deep_view().take(0));
        let mut i: usize = 0;
        while i < others.len()
            invariant
                i <= others@.len(),
                string_views(all@) == seq![first] + others.deep_view().take(i as int),
            decreases others@.len() - i,
        {
            let ghost before = string_views(all@);
            let alias = others[i].clone();
            assert(alias@ == others.deep_view()[i as int]);
            all.push(alias);
            assert(string_views(all@) =~= before.push(alias@));
            assert(others.deep_view().take(i + 1) =~= others.deep_view().take(i as int).push(alias@));
            assert(string_views(all@) =~= seq![first] + others.deep_view().take(i + 1));
            i += 1;
        }
        assert(others.deep_view().take(others@.len() as int) =~= others.deep_view());
        Some(Extractions::Character(clean_names(all)))
    }
}

impl CharacterSheetComponent {
    /// The characters of the sheets of a page, in order. `names` and
    /// `aliases` hold, for each sheet, what `extract_character` takes; a
    /// sheet that only one of them knows is passed over.
    pub fn extract_characters(&self, names: &Vec<Vec<Vec<String>>>, aliases: &Vec<Vec<Vec<String>>>) -> (facts:
        Vec<Extractions>)
        ensures
            fact_views(facts@) == sheet_facts(names.deep_view(), aliases.deep_view()),
    {
        let mut facts: Vec<Extractions> = Vec::new();
        assert(fact_views(facts@) =~= Seq::empty());
        let sheets = if names.len() <= aliases.len() {
            names.len()
        } else {
            aliases.len()
        };
        let mut k: usize = 0;
        while k < sheets
            invariant
                k <= sheets,
                sheets <= names@.len(),
                sheets <= aliases@.len(),
                fact_views(facts@) == character_facts(names.deep_view(), aliases.deep_view(), k as nat),
            decreases sheets - k,
        {
            let ghost before = fact_views(facts@);
            assert(names.deep_view()[k as int] == names@[k as int].deep_view());
            assert(aliases.deep_view()[k as int] == aliases@[k as int].deep_view());
            match self.extract_character(&names[k], &aliases[k]) {
                Some(character) => {
                    facts.push(character);
                    assert(fact_views(facts@) =~= before.push(character@));
                },
                None => {},
            }
            k += 1;
        }
        facts
    }
}

impl LayoutComponent for CharacterSheetComponent {
    type Content = Html;

    type Extracted = Extractions;

    open spec fn matches_spec(&self, content: &Html) -> bool {
        any_selected(html_source(*content), ".portable-infobox"@)
    }

    open spec fn extract_spec(&self, request: RequestView, content: &Html) -> Seq<ExtractionsView> {
        if Self::selectors_parse() {
            sheet_facts(Self::names(content), Self::aliases(content))
        } else {
            Seq::empty()
        }
    }

    open spec fn label(&self) -> Seq<char> {
        "CharacterSheetComponent"@
    }

    fn matches(&self, content: &Html) -> (b: bool) {
        selects_any(content, ".portable-infobox")
    }

    fn extract(&self, _request: &SimpleRequest, content: &Html) -> (facts: Vec<Extractions>) {
        let sheet = parse_selector(".portable-infobox");
        let name = parse_selector("[data-source~=name]");
        let alias = parse_selector(".pi-group [data-source~=alias] .pi-data-value");
        match (sheet, name, alias) {
            (Some(sheet), Some(name), Some(alias)) => self.extract_characters(
                &select_nested_texts(content, &sheet, &name),
                &select_nested_texts(content, &sheet, &alias),
            ),
            _ => {
                let facts: Vec<Extractions> = Vec::new();
                assert(fact_views(facts@) =~= Seq::empty());
                facts
            },
        }
    }

    fn name(&self) -> (name: String) {
        "CharacterSheetComponent".to_owned()
    }
}

/// The banner of the wiki's main page.
#[derive(Debug)]
pub struct MainPageBanner;

impl LayoutComponent for MainPageBanner {
    type Content = Html;

    type Extracted = Extractions;

    open spec fn matches_spec(&self, content: &Html) -> bool {
        any_selected(html_source(*content), ".main-page-tag-lcs"@)
    }

    open spec fn extract_spec(&self, request: RequestView, content: &Html) -> Seq<ExtractionsView> {
        Seq::empty()
    }

    open spec fn label(&self) -> Seq<char> {
        "MainPageBanner"@
    }

    fn matches(&self, content: &Html) -> (b: bool) {
        selects_any(content, ".main-page-tag-lcs")
    }

    fn extract(&self, _request: &SimpleRequest, _content: &Html) -> (facts: Vec<Extractions>) {
        let facts: Vec<Extractions> = Vec::new();
        assert(fact_views(facts@) =~= Seq::empty());
        facts
    }

    fn name(&self) -> (name: String) {
        "MainPageBanner".to_owned()
    }
}

/// The information box of an article on a story.
#[derive(Debug)]
pub struct StoryArticle;

impl LayoutComponent for StoryArticle {
    type Content = Html;

    type Extracted = Extractions;

    open spec fn matches_spec(&self, content: &Html) -> bool {
        any_selected(html_source(*content), "#infoboxinternal"@)
    }

    open spec fn extract_spec(&self, request: RequestView, content: &Html) -> Seq<ExtractionsView> {
        Seq::empty()
    }

    open spec fn label(&self) -> Seq<char> {
        "StoryArticle"@
    }

    fn matches(&self, content: &Html) -> (b: bool) {
        selects_any(content, "#infoboxinternal")
    }

    fn extract(&self, _request: &SimpleRequest, _content: &Html) -> (facts: Vec<Extractions>) {
        let facts: Vec<Extractions> = Vec::new();
        assert(fact_views(facts@) =~= Seq::empty());
        facts
    }

    fn name(&self) -> (name: String) {
        "StoryArticle".to_owned()
    }
}

/// The summary of a chapter: a page with a chapter guide in a table.
#[derive(Debug)]
pub struct ChapterSumary;

impl LayoutComponent for ChapterSumary {
    type Content = Html;

    type Extracted = Extractions;

    open spec fn matches_spec(&self, content: &Html) -> bool {
        cell_mentions(html_source(*content), "chapter guide"@)
    }

    open spec fn extract_spec(&self, request: RequestView, content: &Html) -> Seq<ExtractionsView> {
        Seq::empty()
    }

    open spec fn label(&self) -> Seq<char> {
        "ChapterSumary"@
    }

    fn matches(&self, content: &Html) -> (b: bool) {
        any_cell_mentions(content, "chapter guide")
    }

    fn extract(&self, _request: &SimpleRequest, _content: &Html) -> (facts: Vec<Extractions>) {
        let facts: Vec<Extractions> = Vec::new();
        assert(fact_views(facts@) =~= Seq::empty());
        facts
    }

    fn name(&self) -> (name: String) {
        "ChapterSumary".to_owned()
    }
}

/// The summary of an arc: a page with an arc guide in a table.
#[derive(Debug)]
pub struct ArcSummary;

impl LayoutComponent for ArcSummary {
    type Content = Html;

    type Extracted = Extractions;

    open spec fn matches_spec(&self, content: &Html) -> bool {
        cell_mentions(html_source(*content), "arc guide"@)
    }

    open spec fn extract_spec(&self, request: RequestView, content: &Html) -> Seq<ExtractionsView> {
        Seq::empty()
    }

    open spec fn label(&self) -> Seq<char> {
        "ArcSummary"@
    }

    fn matches(&self, content: &Html) -> (b: bool) {
        any_cell_mentions(content, "arc guide")
    }

    fn extract(&self, _request: &SimpleRequest, _content: &Html) -> (facts: Vec<Extractions>) {
        let facts: Vec<Extractions> = Vec::new();
        assert(fact_views(facts@) =~= Seq::empty());
        facts
    }

    fn name(&self) -> (name: String) {
        "ArcSummary".to_owned()
    }
}

/// Whether the text below the first of `found`, each given by its text
/// nodes, holds `phrase`.
pub open spec fn first_holds(found: Seq<Seq<Seq<char>>>, phrase: Seq<char>) -> bool {
    found.len() > 0 && occurs_in(joined(found[0]), phrase)
}

/// Whether the text below the first of `found` holds `phrase`: see
/// [`first_holds`].
pub fn first_says(found: &Vec<Vec<String>>, phrase: &str) -> (b: bool)
    ensures
        b == first_holds(found.deep_view(), phrase@),
{
    if found.len() == 0 {
        return false;
    }
    let text = join_texts(&found[0]);
    assert(found.deep_view()[0] == found@[0].deep_view());
    contains(&chars_of(text.as_str()), &chars_of(phrase))
}

/// A category page: its subtitle says so.
#[derive(Debug)]
pub struct CategoryPage;

impl CategoryPage {
    /// Whether the first subtitle of the page `source` reads as that of a
    /// category page.
    pub open spec fn subtitle_says_category(source: Seq<char>) -> bool {
        is_selector(".page-header__page-subtitle"@) && first_holds(
            selected_texts(source, ".page-header__page-subtitle"@),
            "Category page"@,
        )
    }
}

impl LayoutComponent for CategoryPage {
    type Content = Html;

    type Extracted = Extractions;

    open spec fn matches_spec(&self, content: &Html) -> bool {
        Self::subtitle_says_category(html_source(*content))
    }

    open spec fn extract_spec(&self, request: RequestView, content: &Html) -> Seq<ExtractionsView> {
        Seq::empty()
    }

    open spec fn label(&self) -> Seq<char> {
        "CategoryPage"@
    }

    fn matches(&self, content: &Html) -> (b: bool) {
        match parse_selector(".page-header__page-subtitle") {
            Some(selector) => first_says(&select_texts(content, &selector), "Category page"),
            None => false,
        }
    }

    fn extract(&self, _request: &SimpleRequest, _content: &Html) -> (facts: Vec<Extractions>) {
        let facts: Vec<Extractions> = Vec::new();
        assert(fact_views(facts@) =~= Seq::empty());
        facts
    }

    fn name(&self) -> (name: String) {
        "CategoryPage".to_owned()
    }
}

/// A component of a layout of the wiki.
#[derive(Clone, Copy, Debug, PartialEq, Eq, Structural)]
pub enum WormComponent {
    ArticleLinks,
    CharacterSheet,
    MainPageBanner,
    StoryArticle,
    ChapterSumary,
    ArcSummary,
    CategoryPage,
}

impl LayoutComponent for WormComponent {
    type Content = Html;

    type Extracted = Extractions;

    open spec fn matches_spec(&self, content: &Html) -> bool {
        match self {
            WormComponent::ArticleLinks => ArticleLinksComponent.matches_spec(content),
            WormComponent::CharacterSheet => CharacterSheetComponent.matches_spec(content),
            WormComponent::MainPageBanner => MainPageBanner.matches_spec(content),
            WormComponent::StoryArticle => StoryArticle.matches_spec(content),
            WormComponent::ChapterSumary => ChapterSumary.matches_spec(content),
            WormComponent::ArcSummary => ArcSummary.matches_spec(content),
            WormComponent::CategoryPage => CategoryPage.matches_spec(content),
        }
    }

    open spec fn extract_spec(&self, request: RequestView, content: &Html) -> Seq<ExtractionsView> {
        match self {
            WormComponent::ArticleLinks => ArticleLinksComponent.extract_spec(request, content),
            WormComponent::CharacterSheet => CharacterSheetComponent.extract_spec(request, content),
            WormComponent::MainPageBanner => MainPageBanner.extract_spec(request, content),
            WormComponent::StoryArticle => StoryArticle.extract_spec(request, content),
            WormComponent::ChapterSumary => ChapterSumary.extract_spec(request, content),
            WormComponent::ArcSummary => ArcSummary.extract_spec(request, content),
            WormComponent::CategoryPage => CategoryPage.extract_spec(request, content),
        }
    }

    open spec fn label(&self) -> Seq<char> {
        match self {
            WormComponent::ArticleLinks => ArticleLinksComponent.label(),
            WormComponent::CharacterSheet => CharacterSheetComponent.label(),
            WormComponent::MainPageBanner => MainPageBanner.label(),
            WormComponent::StoryArticle => StoryArticle.label(),
            WormComponent::ChapterSumary => ChapterSumary.label(),
            WormComponent::ArcSummary => ArcSummary.label(),
            WormComponent::CategoryPage => CategoryPage.label(),
        }
    }

    fn matches(&self, content: &Html) -> (b: bool) {
        match self {
            WormComponent::ArticleLinks => ArticleLinksComponent.matches(content),
            WormComponent::CharacterSheet => CharacterSheetComponent.matches(content),
            WormComponent::MainPageBanner => MainPageBanner.matches(content),
            WormComponent::StoryArticle => StoryArticle.matches(content),
            WormComponent::ChapterSumary => ChapterSumary.matches(content),
            WormComponent::ArcSummary => ArcSummary.matches(content),
            WormComponent::CategoryPage => CategoryPage.matches(content),
        }
    }

    fn extract(&self, request: &SimpleRequest, content: &Html) -> (facts: Vec<Extractions>) {
        match self {
            WormComponent::ArticleLinks => ArticleLinksComponent.extract(request, content),
            WormComponent::CharacterSheet => CharacterSheetComponent.extract(request, content),
            WormComponent::MainPageBanner => MainPageBanner.extract(request, content),
            WormComponent::StoryArticle => StoryArticle.extract(request, content),
            WormComponent::ChapterSumary => ChapterSumary.extract(request, content),
            WormComponent::ArcSummary => ArcSummary.extract(request, content),
            WormComponent::CategoryPage => CategoryPage.extract(request, content),
        }
    }

    fn name(&self) -> (name: String) {
        match self {
            WormComponent::ArticleLinks => ArticleLinksComponent.name(),
            WormComponent::CharacterSheet => CharacterSheetComponent.name(),
            WormComponent::MainPageBanner => MainPageBanner.name(),
            WormComponent::StoryArticle => StoryArticle.name(),
            WormComponent::ChapterSumary => ChapterSumary.name(),
            WormComponent::ArcSummary => ArcSummary.name(),
            WormComponent::CategoryPage => CategoryPage.name(),
        }
    }
}

/// The layouts of the wiki: every page has links, and one thing that tells
/// which kind of page it is.
pub open spec fn site_catalog() -> Seq<Seq<WormComponent>> {
    seq![
        seq![WormComponent::ArticleLinks, WormComponent::MainPageBanner],
        seq![WormComponent::ArticleLinks, WormComponent::StoryArticle],
        seq![WormComponent::ArticleLinks, WormComponent::ChapterSumary],
        seq![WormComponent::ArticleLinks, WormComponent::ArcSummary],
        seq![WormComponent::ArticleLinks, WormComponent::CategoryPage],
        seq![WormComponent::ArticleLinks, WormComponent::CharacterSheet],
    ]
}

/// The requests that the facts of a page lead to: a `GET` request for each
/// link, in order. Characters lead nowhere.
pub open spec fn routed(facts: Seq<ExtractionsView>) -> Seq<RequestView>
    decreases facts.len(),
{
    if facts.len() == 0 {
        Seq::empty()
    } else {
        let before = routed(facts.drop_last());
        match facts.last() {
            ExtractionsView::URL(url) => before.push(
                RequestView { method: Method::Get, url, headers: Seq::empty(), body: None },
            ),
            ExtractionsView::Character(_) => before,
        }
    }
}

/// Where the characters found are to be kept.
struct CharacterToDisk {
    base_dir: PathBuf,
}

/// The parser of the wiki's pages: it collects the links to follow and the
/// names of the characters.
pub struct WormWikiListOfCharacters {
    layout_parser: LayoutParser<WormComponent>,
    character_to_disk: CharacterToDisk,
}

/// A layout of the two components `first` and `second`.
fn layout_of(first: WormComponent, second: WormComponent) -> (layout: Layout<WormComponent>)
    ensures
        layout.components@ == seq![first, second],
{
    let mut layout = Layout::new();
    layout.push(first);
    layout.push(second);
    assert(layout.components@ =~= seq![first, second]);
    layout
}

impl WormWikiListOfCharacters {
    /// The catalog of layouts.
    pub closed spec fn parser(&self) -> LayoutParser<WormComponent> {
        self.layout_parser
    }

    /// The components of each layout of the catalog.
    pub open spec fn catalog(&self) -> Seq<Seq<WormComponent>> {
        self.parser().layouts@.map_values(|l: Layout<WormComponent>| l.components@)
    }

    /// The directory for the characters found.
    pub closed spec fn out(&self) -> PathBuf {
        self.character_to_disk.base_dir
    }

    /// The parser with the wiki's six layouts, which keeps what it finds
    /// under `out`.
    pub fn new(out: PathBuf) -> (parser: WormWikiListOfCharacters)
        ensures
            parser.catalog() == site_catalog(),
            parser.out() == out,
    {
        let mut layouts: Vec<Layout<WormComponent>> = Vec::new();
        layouts.push(layout_of(WormComponent::ArticleLinks, WormComponent::MainPageBanner));
        layouts.push(layout_of(WormComponent::ArticleLinks, WormComponent::StoryArticle));
        layouts.push(layout_of(WormComponent::ArticleLinks, WormComponent::ChapterSumary));
        layouts.push(layout_of(WormComponent::ArticleLinks, WormComponent::ArcSummary));
        layouts.push(layout_of(WormComponent::ArticleLinks, WormComponent::CategoryPage));
        layouts.push(layout_of(WormComponent::ArticleLinks, WormComponent::CharacterSheet));
        let parser = WormWikiListOfCharacters {
            layout_parser: LayoutParser { layouts: Arc::new(layouts) },
            character_to_disk: CharacterToDisk { base_dir: out },
        };
        assert(parser.catalog() =~= site_catalog());
        parser
    }

    /// The directory for the characters found.
    pub fn out_dir(&self) -> (dir: &PathBuf)
        ensures
            *dir == self.out(),
    {
        &self.character_to_disk.base_dir
    }

    /// Turns the facts of a page into the requests to follow: see
    /// [`routed`].
    pub fn router(&self, extractions: Vec<Extractions>) -> (requests: Vec<SimpleRequest>)
        ensures
            request_views(requests@) == routed(fact_views(extractions@)),
    {
        let mut requests: Vec<SimpleRequest> = Vec::new();
        let ghost facts = fact_views(extractions@);
        assert(request_views(requests@) =~= Seq::empty());
        assert(facts.take(0) =~= Seq::empty());
        for e in it: extractions
            invariant
                it.seq() == extractions@,
                facts == fact_views(extractions@),
                request_views(requests@) == routed(facts.take(it.index() as int)),
        {
            let ghost before = request_views(requests@);
            assert(facts.take(it.index() + 1).drop_last() =~= facts.take(it.index() as int));
            assert(facts.take(it.index() + 1).last() == e@);
            match e {
                Extractions::URL(u) => {
                    let r = SimpleRequest::get(u);
                    requests.push(r);
                    assert(request_views(requests@) =~= before.push(r@));
                },
                Extractions::Character(_names) => {},
            }
        }
        assert(facts.take(facts.len() as int) =~= facts);
        requests
    }
}

impl Parser for WormWikiListOfCharacters {
    /// The page is parsed into its content tree; the one layout that
    /// matches the tree gives the facts, which are routed to the requests
    /// to follow. A page that no layout or several layouts match gives the
    /// classification error.
    open spec fn outcome(
        &self,
        request: RequestView,
        page: Seq<char>,
        result: Result<Vec<SimpleRequest>, ClassificationError>,
    ) -> bool {
        exists|content: Html, facts: Result<Vec<Extractions>, ClassificationError>|
            html_source(content) == page && #[trigger] self.parser().yields(request, &content, facts) && match facts {
                Ok(found) => result matches Ok(requests) && request_views(requests@) == routed(fact_views(found@)),
                Err(e) => result matches Err(same) && same == e,
            }
    }

    fn parse(&self, request: &SimpleRequest, page: &str) -> (result: Result<
        Vec<SimpleRequest>,
        ClassificationError,
    >) {
        let router = |extractions: Vec<Extractions>| -> (requests: Vec<SimpleRequest>)
            ensures
                request_views(requests@) == routed(fact_views(extractions@)),
            { self.router(extractions) };
        let result = self.layout_parser.parse(request, page, parse, router);
        proof {
            let (content, facts) = choose|content: Html, facts: Result<Vec<Extractions>, ClassificationError>|
                call_ensures(parse, (page,), content) && #[trigger] self.layout_parser.yields(
                    request@,
                    &content,
                    facts,
                ) && match facts {
                    Ok(found) => result matches Ok(requests) && call_ensures(router, (found,), requests),
                    Err(e) => result matches Err(same) && same == e,
                };
            assert(html_source(content) == page@);
            assert(self.parser().yields(request@, &content, facts));
        }
        result
    }
}

} // verus!
