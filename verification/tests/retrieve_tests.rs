use howto::harvest::harvest_links;
use howto::retrieve::howto;
use howto::retrieve::prefetch_howto;
use howto::retrieve::PullStep;
use howto::retrieve::Retrieval;
use howto::selectors::SelectorSet;
use howto::Answer;

fn search_page(hrefs: &[&str]) -> String {
    let mut body = String::new();
    for h in hrefs {
        body.push_str(&format!("<div class=\"r\"><a href=\"{}\">hit</a></div>", h));
    }
    format!("<html><body>{}</body></html>", body)
}

fn answer_page(title: &str, instruction: &str, text: &str) -> String {
    format!(
        "<html><body><div id=\"question-header\"><h1>{}</h1></div>\
         <div class=\"answer\"><div class=\"post-text\">\
         <p>{}</p><pre>{}</pre></div></div></body></html>",
        title, text, instruction
    )
}

/// Drives the orchestrator to exhaustion, fetching each link the moment the
/// orchestrator asks for it; `pages` gives the body fetched for each harvest
/// index (`None` models a transport failure).
fn drain(r: &mut Retrieval, sels: &SelectorSet, pages: &[Option<String>]) -> Vec<Answer> {
    let mut out = Vec::new();
    loop {
        match r.pull() {
            PullStep::Deliver(a) => out.push(a),
            PullStep::Skip => {}
            PullStep::Await(i) => r.complete_page(i, pages[i].clone(), sels),
            PullStep::Launch(i) => r.complete_page(i, pages[i].clone(), sels),
            PullStep::Done => break,
        }
    }
    out
}

#[test]
fn harvest_preserves_order_and_filters_foreign_links() {
    let sels = SelectorSet::new().unwrap();
    let markup = search_page(&[
        "https://stackoverflow.com/questions/1",
        "https://example.com/advert",
        "https://stackoverflow.com/questions/2",
    ]);
    let links = harvest_links(markup, &sels);
    assert_eq!(
        links,
        vec![
            "https://stackoverflow.com/questions/1".to_string(),
            "https://stackoverflow.com/questions/2".to_string(),
        ]
    );
}

#[test]
fn zero_links_yield_empty_sequence_not_error() {
    let sels = SelectorSet::new().unwrap();
    let mut r = howto("<html><body>no results</body></html>".to_string(), &sels);
    assert_eq!(r.link_count(), 0);
    assert!(matches!(r.pull(), PullStep::Done));
}

#[test]
fn rust_test() {
    // The query the search URL is built from; the search page is a fixture
    // standing in for the engine's response to it.
    let url = howto::url::search_url("file io rust");
    assert!(url.contains("file%20io%20rust"));
    let sels = SelectorSet::new().unwrap();
    let markup = search_page(&[
        "https://stackoverflow.com/questions/1",
        "https://stackoverflow.com/questions/2",
    ]);
    let mut r = howto(markup, &sels);
    let pages = vec![
        Some(answer_page("Read a file", "use std::fs;", "Do this.")),
        Some(answer_page("Write a file", "use std::io;", "Do that.")),
    ];
    let answers = drain(&mut r, &sels, &pages);
    assert!(!answers.is_empty());
    assert!(answers[0].link.starts_with("https://stackoverflow.com/"));
    assert!(!answers[0].instruction.as_deref().unwrap().is_empty());
}

#[test]
fn csharp_test() {
    // The sharp sign must survive the trip into the search URL.
    let url = howto::url::search_url("file io C#");
    assert_eq!(
        url,
        "https://www.google.com/search?q=site%3Astackoverflow.com%20file%20io%20C%23"
    );
    let sels = SelectorSet::new().unwrap();
    let markup = search_page(&["https://stackoverflow.com/questions/9"]);
    let mut r = howto(markup, &sels);
    let pages = vec![Some(answer_page("Read a file in C#", "File.ReadAllText", "Use the BCL."))];
    let answers = drain(&mut r, &sels, &pages);
    assert!(!answers.is_empty());
}

#[test]
fn cpp_test() {
    // Plus signs are reserved and must be escaped, not passed through.
    let url = howto::url::search_url("file io C++");
    assert_eq!(
        url,
        "https://www.google.com/search?q=site%3Astackoverflow.com%20file%20io%20C%2B%2B"
    );
    let sels = SelectorSet::new().unwrap();
    let markup = search_page(&["https://stackoverflow.com/questions/8"]);
    let mut r = howto(markup, &sels);
    let pages = vec![Some(answer_page("Read a file in C++", "std::ifstream f;", "Use a stream."))];
    let answers = drain(&mut r, &sels, &pages);
    assert!(!answers.is_empty());
}

#[test]
fn delivery_order_matches_harvest_order_whatever_completes_first() {
    let sels = SelectorSet::new().unwrap();
    let links = vec![
        "https://stackoverflow.com/q/1".to_string(),
        "https://stackoverflow.com/q/2".to_string(),
        "https://stackoverflow.com/q/3".to_string(),
    ];
    let pages = [
        answer_page("one", "first", "a"),
        answer_page("two", "second", "b"),
        answer_page("three", "third", "c"),
    ];

    // First run: completions arrive in reverse harvest order.
    let mut r1 = Retrieval::new(links.clone(), None);
    r1.complete_page(2, Some(pages[2].clone()), &sels);
    r1.complete_page(1, Some(pages[1].clone()), &sels);
    r1.complete_page(0, Some(pages[0].clone()), &sels);
    let out1: Vec<String> = collect_instructions(&mut r1);

    // Second run: completions arrive in harvest order.
    let mut r2 = Retrieval::new(links, None);
    r2.complete_page(0, Some(pages[0].clone()), &sels);
    r2.complete_page(1, Some(pages[1].clone()), &sels);
    r2.complete_page(2, Some(pages[2].clone()), &sels);
    let out2: Vec<String> = collect_instructions(&mut r2);

    assert_eq!(out1, vec!["first", "second", "third"]);
    assert_eq!(out1, out2);
}

fn collect_instructions(r: &mut Retrieval) -> Vec<String> {
    let mut out = Vec::new();
    loop {
        match r.pull() {
            PullStep::Deliver(a) => out.push(a.instruction.unwrap()),
            PullStep::Skip => {}
            PullStep::Done => break,
            _ => panic!("every link was completed; only delivery steps were expected"),
        }
    }
    out
}

#[test]
fn one_failed_link_never_aborts_the_rest() {
    let sels = SelectorSet::new().unwrap();
    let links = vec![
        "https://stackoverflow.com/q/1".to_string(),
        "https://stackoverflow.com/q/2".to_string(),
        "https://stackoverflow.com/q/3".to_string(),
    ];
    let mut r = Retrieval::new(links, None);
    let pages = vec![
        Some(answer_page("one", "first", "a")),
        None, // transport failure for the middle link
        Some(answer_page("three", "third", "c")),
    ];
    let answers = drain(&mut r, &sels, &pages);
    let got: Vec<&str> = answers.iter().map(|a| a.instruction.as_deref().unwrap()).collect();
    assert_eq!(got, vec!["first", "third"]);
}

#[test]
fn prefetch_launches_the_window_and_trickles_the_rest() {
    let sels = SelectorSet::new().unwrap();
    let links: Vec<String> =
        (1..=5).map(|i| format!("https://stackoverflow.com/q/{}", i)).collect();
    let mut r = Retrieval::new(links, Some(2));
    // Only the prefetch window is launched up front.
    assert_eq!(r.launch_count(), 2);
    // Nothing beyond the window launches before the caller consumes it.
    assert!(matches!(r.pull(), PullStep::Await(0)));
    r.complete_page(0, Some(answer_page("t", "one", "x")), &sels);
    r.complete_page(1, Some(answer_page("t", "two", "x")), &sels);
    assert!(matches!(r.pull(), PullStep::Deliver(_)));
    assert_eq!(r.launch_count(), 2);
    assert!(matches!(r.pull(), PullStep::Deliver(_)));
    // The window is consumed: the third link is launched only now.
    assert!(matches!(r.pull(), PullStep::Launch(2)));
    assert_eq!(r.launch_count(), 3);
    r.complete_page(2, Some(answer_page("t", "three", "x")), &sels);
    match r.pull() {
        PullStep::Deliver(a) => assert_eq!(a.instruction.as_deref(), Some("three")),
        _ => panic!("expected the third answer"),
    }
}

#[test]
fn prefetch_window_larger_than_harvest_launches_everything() {
    let links = vec![
        "https://stackoverflow.com/q/1".to_string(),
        "https://stackoverflow.com/q/2".to_string(),
    ];
    let r = Retrieval::new(links, Some(5));
    assert_eq!(r.launch_count(), 2);
}

#[test]
fn prefetch_howto_harvests_and_bounds_launches() {
    let sels = SelectorSet::new().unwrap();
    let markup = search_page(&[
        "https://stackoverflow.com/questions/1",
        "https://stackoverflow.com/questions/2",
        "https://stackoverflow.com/questions/3",
    ]);
    let r = prefetch_howto(markup, &sels, 1);
    assert_eq!(r.link_count(), 3);
    assert_eq!(r.launch_count(), 1);
}

#[test]
fn drop_test() {
    // Early termination: consume one answer of three, then abandon the
    // orchestrator with the other extractions still outstanding.
    let sels = SelectorSet::new().unwrap();
    let links = vec![
        "https://stackoverflow.com/q/1".to_string(),
        "https://stackoverflow.com/q/2".to_string(),
        "https://stackoverflow.com/q/3".to_string(),
    ];
    let mut r = Retrieval::new(links, None);
    r.complete_page(0, Some(answer_page("t", "one", "x")), &sels);
    match r.pull() {
        PullStep::Deliver(a) => assert_eq!(a.instruction.as_deref(), Some("one")),
        _ => panic!("expected the first answer"),
    }
    drop(r);
}
