use howto::extract::extract_answer;
use howto::selectors::SelectorSet;

fn page(title: Option<&str>, body: &str) -> String {
    let heading = match title {
        Some(t) => format!("<div id=\"question-header\"><h1>{}</h1></div>", t),
        None => String::new(),
    };
    format!("<html><body>{}{}</body></html>", heading, body)
}

#[test]
fn fixture_round_trip() {
    let markup = page(
        Some("How to read a file?"),
        "<div class=\"answer\"><div class=\"post-text\">\
         <p>Open the file.</p><p>Read it.</p>\
         <pre>use std::fs;</pre>\
         </div></div>",
    );
    let a = extract_answer(
        "https://stackoverflow.com/questions/1".to_string(),
        markup,
        &SelectorSet::new().unwrap(),
    )
    .unwrap();
    assert_eq!(a.question_title.as_deref(), Some("How to read a file?"));
    assert_eq!(a.link, "https://stackoverflow.com/questions/1");
    assert_eq!(a.instruction.as_deref(), Some("use std::fs;"));
    assert_eq!(a.full_text, "Open the file.Read it.");
}

#[test]
fn text_only_answer_keeps_full_text_without_instruction() {
    let markup = page(
        Some("Why?"),
        "<div class=\"answer\"><div class=\"post-text\">\
         <p>Because it is documented behaviour.</p>\
         </div></div>",
    );
    let a = extract_answer("https://stackoverflow.com/questions/2".to_string(), markup, &SelectorSet::new().unwrap())
        .unwrap();
    assert!(a.instruction.is_none());
    assert_eq!(a.full_text, "Because it is documented behaviour.");
}

#[test]
fn inline_code_is_the_fallback_instruction() {
    let markup = page(
        Some("How?"),
        "<div class=\"answer\"><div class=\"post-text\">\
         <p>Call <code>flush()</code> first.</p>\
         </div></div>",
    );
    let a = extract_answer("https://stackoverflow.com/questions/3".to_string(), markup, &SelectorSet::new().unwrap())
        .unwrap();
    assert_eq!(a.instruction.as_deref(), Some("flush()"));
}

#[test]
fn preformatted_code_wins_over_inline_code() {
    let markup = page(
        Some("How?"),
        "<div class=\"answer\"><div class=\"post-text\">\
         <p>Use <code>b</code>.</p><pre>a</pre>\
         </div></div>",
    );
    let a = extract_answer("https://stackoverflow.com/questions/4".to_string(), markup, &SelectorSet::new().unwrap())
        .unwrap();
    assert_eq!(a.instruction.as_deref(), Some("a"));
}

#[test]
fn page_without_answer_block_yields_nothing() {
    let markup = page(Some("Closed question"), "<p>No answers here.</p>");
    let r = extract_answer("https://stackoverflow.com/questions/5".to_string(), markup, &SelectorSet::new().unwrap());
    assert!(r.is_none());
}

#[test]
fn answer_block_without_code_or_text_yields_nothing() {
    let markup = page(Some("Empty"), "<div class=\"answer\"></div>");
    let r = extract_answer("https://stackoverflow.com/questions/6".to_string(), markup, &SelectorSet::new().unwrap());
    assert!(r.is_none());
}

#[test]
fn missing_title_is_tolerated() {
    let markup = page(
        None,
        "<div class=\"answer\"><div class=\"post-text\">\
         <p>Text.</p><pre>cmd</pre>\
         </div></div>",
    );
    let a = extract_answer("https://stackoverflow.com/questions/7".to_string(), markup, &SelectorSet::new().unwrap())
        .unwrap();
    assert!(a.question_title.is_none());
    assert_eq!(a.instruction.as_deref(), Some("cmd"));
}
