use wiki_spider::requester::SimpleRequest;
use wiki_spider::spider::{Control, Failure, Outcome, RequestFilter, Spider, SpiderState};
use wiki_spider::worm_wiki::WormRequestFilter;

fn get(url: &str) -> SimpleRequest {
    SimpleRequest::get(url.to_string())
}

fn urls(requests: &[SimpleRequest]) -> Vec<String> {
    requests.iter().map(|r| r.url.clone()).collect()
}

#[test]
fn end_to_end_crawl_follows_only_accepted_links() {
    let url0 = "https://worm.fandom.com/wiki/Worm_Wiki";
    let url1 = "https://worm.fandom.com/wiki/Taylor_Hebert";
    let url2 = "https://example.com/elsewhere";
    let mut spider = Spider::new(vec![get(url0)]);
    let mut fetched: Vec<String> = Vec::new();

    let dispatched = spider.drain();
    assert_eq!(urls(&dispatched), vec![url0.to_string()]);
    fetched.extend(urls(&dispatched));
    assert_eq!(spider.in_flight(), 1);
    let control = spider.harvest(vec![Outcome::Done(vec![get(url1), get(url2)])], &WormRequestFilter);
    assert!(matches!(control, Control::Continue));

    let dispatched = spider.drain();
    assert_eq!(urls(&dispatched), vec![url1.to_string()]);
    fetched.extend(urls(&dispatched));
    let control = spider.harvest(vec![Outcome::Done(Vec::new())], &WormRequestFilter);
    assert!(matches!(control, Control::Stop));

    assert!(spider.is_quiescent());
    assert_eq!(spider.in_flight(), 0);
    assert!(spider.drain().is_empty());
    assert!(spider.has_seen(url0));
    assert!(spider.has_seen(url1));
    assert!(!spider.has_seen(url2));
    assert_eq!(fetched, vec![url0.to_string(), url1.to_string()]);
}

#[test]
fn seeds_are_not_filtered() {
    let mut spider = Spider::new(vec![get("https://example.com/seed")]);
    assert!(!WormRequestFilter.is_valid(&get("https://example.com/seed")));
    let dispatched = spider.drain();
    assert_eq!(urls(&dispatched), vec!["https://example.com/seed".to_string()]);
    assert!(spider.has_seen("https://example.com/seed"));
}

#[test]
fn drain_hands_out_last_in_first_out() {
    let mut spider = Spider::new(vec![
        get("https://a.example/1"),
        get("https://a.example/2"),
        get("https://a.example/3"),
    ]);
    let dispatched = spider.drain();
    assert_eq!(
        urls(&dispatched),
        vec![
            "https://a.example/3".to_string(),
            "https://a.example/2".to_string(),
            "https://a.example/1".to_string()
        ]
    );
    assert_eq!(spider.in_flight(), 3);
    assert!(!spider.is_quiescent());
}

#[test]
fn harvest_keeps_pending_units_and_sleeps_when_nothing_moved() {
    let mut spider = Spider::new(vec![get("https://worm.fandom.com/wiki/A")]);
    spider.drain();
    let control = spider.harvest(vec![Outcome::Pending], &WormRequestFilter);
    assert!(matches!(control, Control::Continue));
    assert!(spider.drain().is_empty());
    let control = spider.harvest(vec![Outcome::Pending], &WormRequestFilter);
    assert!(matches!(control, Control::Sleep));
    assert_eq!(spider.in_flight(), 1);
    assert!(spider.drain().is_empty());
    let control = spider.harvest(Vec::new(), &WormRequestFilter);
    assert!(matches!(control, Control::Sleep));
    assert_eq!(spider.in_flight(), 1);
}

#[test]
fn discoveries_are_seen_only_by_the_next_drain() {
    let mut spider = Spider::new(vec![get("https://worm.fandom.com/wiki/A")]);
    spider.drain();
    let control = spider.harvest(
        vec![Outcome::Done(vec![get("https://worm.fandom.com/wiki/B")])],
        &WormRequestFilter,
    );
    assert!(matches!(control, Control::Continue));
    assert_eq!(spider.in_flight(), 0);
    assert!(!spider.is_quiescent());
    assert_eq!(urls(&spider.drain()), vec!["https://worm.fandom.com/wiki/B".to_string()]);
}

#[test]
fn harvest_takes_units_in_dispatch_order() {
    let mut spider = Spider::new(vec![
        get("https://worm.fandom.com/wiki/A"),
        get("https://worm.fandom.com/wiki/B"),
    ]);
    // Dispatched as B, then A.
    spider.drain();
    let control = spider.harvest(
        vec![
            Outcome::Done(vec![get("https://worm.fandom.com/wiki/FromB")]),
            Outcome::Done(vec![get("https://worm.fandom.com/wiki/FromA")]),
        ],
        &WormRequestFilter,
    );
    assert!(matches!(control, Control::Continue));
    assert_eq!(
        urls(&spider.drain()),
        vec![
            "https://worm.fandom.com/wiki/FromA".to_string(),
            "https://worm.fandom.com/wiki/FromB".to_string()
        ]
    );
}

#[test]
fn transport_failure_drops_the_unit_and_the_crawl_goes_on() {
    let mut spider = Spider::new(vec![
        get("https://worm.fandom.com/wiki/A"),
        get("https://worm.fandom.com/wiki/B"),
    ]);
    spider.drain();
    let control = spider.harvest(
        vec![Outcome::Failed(Failure::Transport), Outcome::Pending],
        &WormRequestFilter,
    );
    assert!(matches!(control, Control::Continue));
    assert_eq!(spider.in_flight(), 1);
    spider.drain();
    let control = spider.harvest(vec![Outcome::Failed(Failure::Transport)], &WormRequestFilter);
    assert!(matches!(control, Control::Stop));
}

#[test]
fn classification_failure_aborts_with_the_offending_url() {
    let mut spider = Spider::new(vec![
        get("https://worm.fandom.com/wiki/A"),
        get("https://worm.fandom.com/wiki/B"),
    ]);
    spider.drain();
    let control = spider.harvest(
        vec![Outcome::Pending, Outcome::Failed(Failure::Classification)],
        &WormRequestFilter,
    );
    match control {
        Control::Abort { url, failure } => {
            assert_eq!(url, "https://worm.fandom.com/wiki/A");
            assert_eq!(failure, Failure::Classification);
        }
        other => panic!("expected an abort, got {:?}", other),
    }
}

#[test]
fn cache_failure_aborts_and_the_first_fatal_failure_is_reported() {
    let mut spider = Spider::new(vec![
        get("https://worm.fandom.com/wiki/A"),
        get("https://worm.fandom.com/wiki/B"),
        get("https://worm.fandom.com/wiki/C"),
    ]);
    spider.drain();
    let control = spider.harvest(
        vec![
            Outcome::Failed(Failure::Transport),
            Outcome::Failed(Failure::CacheIO),
            Outcome::Failed(Failure::Classification),
        ],
        &WormRequestFilter,
    );
    match control {
        Control::Abort { url, failure } => {
            assert_eq!(url, "https://worm.fandom.com/wiki/B");
            assert_eq!(failure, Failure::CacheIO);
        }
        other => panic!("expected an abort, got {:?}", other),
    }
}

#[test]
fn failure_kinds_say_whether_they_are_fatal() {
    assert!(!Failure::Transport.fatal());
    assert!(Failure::CacheIO.fatal());
    assert!(Failure::Classification.fatal());
}

#[test]
fn outcomes_beyond_the_units_in_flight_are_ignored() {
    let mut spider = Spider::new(vec![get("https://worm.fandom.com/wiki/A")]);
    spider.drain();
    let control = spider.harvest(
        vec![
            Outcome::Done(Vec::new()),
            Outcome::Done(vec![get("https://worm.fandom.com/wiki/Stray")]),
        ],
        &WormRequestFilter,
    );
    assert!(matches!(control, Control::Stop));
    assert!(!spider.has_seen("https://worm.fandom.com/wiki/Stray"));
}

#[test]
fn empty_crawl_stops_at_once() {
    let mut spider = Spider::new(Vec::new());
    assert!(spider.is_quiescent());
    assert!(spider.drain().is_empty());
    let control = spider.harvest(Vec::new(), &WormRequestFilter);
    assert!(matches!(control, Control::Stop));
}

#[test]
fn absorb_offers_only_what_the_filter_accepts() {
    let mut state = SpiderState::new(Vec::new());
    state.absorb(
        vec![
            get("https://worm.fandom.com/wiki/A"),
            get("https://example.com/B"),
            get("https://worm.fandom.com/wiki/A"),
            get("https://worm.fandom.com/wiki/C"),
        ],
        &WormRequestFilter,
    );
    assert_eq!(state.len(), 2);
    assert!(!state.has_seen("https://example.com/B"));
    assert_eq!(state.next().unwrap().url, "https://worm.fandom.com/wiki/C");
    assert_eq!(state.next().unwrap().url, "https://worm.fandom.com/wiki/A");
}

#[test]
fn crawl_of_a_finite_graph_ends_within_its_backlog() {
    // A ring of five pages of the wiki, each linking to the next and to a
    // page outside of it. Every unit finishes in the iteration after its
    // dispatch.
    let page = |i: usize| format!("https://worm.fandom.com/wiki/Page{}", i % 5);
    let mut spider = Spider::new(vec![get(&page(0))]);
    let mut running: Vec<String> = Vec::new();
    let mut busy = 0;
    let mut iterations = 0;
    loop {
        iterations += 1;
        assert!(iterations <= 100);
        let dispatched = spider.drain();
        let drained = !dispatched.is_empty();
        let outcomes: Vec<Outcome> = running
            .iter()
            .map(|url| {
                let i: usize = url[url.len() - 1..].parse().unwrap();
                Outcome::Done(vec![get(&page(i + 1)), get("https://example.com/out")])
            })
            .collect();
        let harvested = !outcomes.is_empty();
        running = urls(&dispatched);
        let control = spider.harvest(outcomes, &WormRequestFilter);
        if drained || harvested {
            busy += 1;
        }
        match control {
            Control::Stop => break,
            Control::Continue => {}
            other => panic!("unexpected {:?}", other),
        }
    }
    // Five URLs in the universe, one of them the seed: the backlog at the
    // start is two for each of the four unseen URLs and two for the seed.
    assert!(busy <= 2 * 4 + 2);
    for i in 0..5 {
        assert!(spider.has_seen(&page(i)));
    }
    assert!(!spider.has_seen("https://example.com/out"));
}
