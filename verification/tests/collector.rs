use eh2telegraph::collector::nhentai::{album_url, parse_album_page, parse_gallery_path, NHCollector};
use eh2telegraph::collector::{check_status, image_pair, FetchError};
use eh2telegraph::retry::{RetryDecision, RetryOutcome, RetryPolicy};
use eh2telegraph::textscan::{find_from, replace_all_chars, to_char_vec};

fn fixture_page() -> String {
    let mut page = String::new();
    page.push_str("<html><head><title>ignored</title></head><body>");
    page.push_str("<h1><span class=\"pretty\">Sample Album</span></h1>");
    page.push_str("<div><noscript><img src=\"https://t3.nhentai.net/galleries/333678/1t.jpg\"></noscript></div>");
    page.push_str("<div><noscript><img src=\"https://t.nhentai.net/galleries/333678/2t.png\"></noscript></div>");
    page.push_str("<div><noscript><img src=\"https://t7.nhentai.net/galleries/333678/10t.webp\"></noscript></div>");
    page.push_str("</body></html>");
    page
}

#[test]
fn gallery_path_accepts_canonical_reference() {
    assert_eq!(parse_gallery_path("g/333678"), Ok("333678".to_string()));
    assert_eq!(parse_gallery_path("/g/333678/"), Ok("333678".to_string()));
    assert_eq!(parse_gallery_path("g/333678/extra/segments"), Ok("333678".to_string()));
}

#[test]
fn gallery_path_rejects_other_shapes() {
    assert_eq!(parse_gallery_path("not-a-gallery-path"), Err(FetchError::InvalidReference));
    assert_eq!(parse_gallery_path("g"), Err(FetchError::InvalidReference));
    assert_eq!(parse_gallery_path("x/333678"), Err(FetchError::InvalidReference));
    assert_eq!(parse_gallery_path(""), Err(FetchError::InvalidReference));
    assert_eq!(parse_gallery_path("////"), Err(FetchError::InvalidReference));
}

#[test]
fn album_url_is_canonical() {
    assert_eq!(album_url(&"333678".to_string()), "https://nhentai.net/g/333678");
}

#[test]
fn page_parse_extracts_title_and_items_in_order() {
    let page = fixture_page();
    let (title, urls) = parse_album_page(&page);
    assert_eq!(title, "Sample Album");
    assert_eq!(urls.len(), 3);
    assert_eq!(urls[0], "https://i3.nhentai.net/galleries/333678/1.jpg");
    assert_eq!(urls[1], "https://i.nhentai.net/galleries/333678/2.png");
    assert_eq!(urls[2], "https://i7.nhentai.net/galleries/333678/10.webp");
}

#[test]
fn title_span_broken_by_a_line_break_does_not_match() {
    // the first titled span runs across a line break, so the later
    // single-line span is the one extracted
    let mut page = String::new();
    page.push_str("<span class=\"pretty\">Broken\nTitle</span>");
    page.push_str("<span class=\"pretty\">Clean Title</span>");
    let (title, _) = parse_album_page(&page);
    assert_eq!(title, "Clean Title");
    // with no single-line span at all, the placeholder stands
    let (title2, _) = parse_album_page("<span class=\"pretty\">Only\nBroken</span>");
    assert_eq!(title2, "No Title");
}

#[test]
fn capture_ends_with_the_extension() {
    // the link pattern does not demand anything after the extension's
    // word characters, so a capture at the end of the body still matches
    let page = "<span class=\"pretty\">T</span><noscript><img src=\"https://t2.nhentai.net/galleries/9/4t.gif";
    let (_, urls) = parse_album_page(page);
    assert_eq!(urls, vec!["https://i2.nhentai.net/galleries/9/4.gif".to_string()]);
}

#[test]
fn missing_title_degrades_to_placeholder() {
    let (title, urls) = parse_album_page("<html><body>nothing here</body></html>");
    assert_eq!(title, "No Title");
    assert!(urls.is_empty());
}

#[test]
fn zero_items_is_an_empty_stream_not_an_error() {
    let page = "<span class=\"pretty\">Only A Title</span>";
    let (title, urls) = parse_album_page(page);
    assert_eq!(title, "Only A Title");
    assert_eq!(urls.len(), 0);
}

#[test]
fn malformed_thumbnail_links_are_skipped() {
    let mut page = String::from("<span class=\"pretty\">T</span>");
    // wrong host shape: not captured
    page.push_str("<noscript><img src=\"https://x.example/galleries/1/1t.jpg\">");
    // well formed
    page.push_str("<noscript><img src=\"https://t2.nhentai.net/galleries/9/4t.gif\">");
    let (_, urls) = parse_album_page(&page);
    assert_eq!(urls, vec!["https://i2.nhentai.net/galleries/9/4.gif".to_string()]);
}

#[test]
fn fetch_plan_validates_before_any_network_work() {
    let collector = NHCollector::new(None).expect("collector");
    let err = collector.fetch_plan("not-a-gallery-path").err();
    assert_eq!(err, Some(FetchError::InvalidReference));
    let (url, _client) = collector.fetch_plan("g/333678").expect("plan");
    assert_eq!(url, "https://nhentai.net/g/333678");
}

#[test]
fn stream_yields_three_items_in_page_order() {
    let collector = NHCollector::new(None).expect("collector");
    let (url, client) = collector.fetch_plan("g/333678").expect("plan");
    let page = fixture_page();
    let (meta, mut stream) = NHCollector::assemble(url, &page, client);
    assert_eq!(meta.link, "https://nhentai.net/g/333678");
    assert_eq!(meta.name, "Sample Album");
    assert!(meta.class.is_none() && meta.description.is_none());
    assert_eq!(stream.size_hint(), (3, Some(3)));
    let mut seen = Vec::new();
    while let Some((link, _item_client)) = stream.next().expect("next") {
        seen.push(link);
    }
    assert_eq!(
        seen,
        vec![
            "https://i3.nhentai.net/galleries/333678/1.jpg".to_string(),
            "https://i.nhentai.net/galleries/333678/2.png".to_string(),
            "https://i7.nhentai.net/galleries/333678/10.webp".to_string(),
        ]
    );
    assert_eq!(stream.size_hint(), (0, Some(0)));
}

#[test]
fn failing_item_does_not_abort_siblings() {
    let collector = NHCollector::new(None).expect("collector");
    let (url, client) = collector.fetch_plan("g/333678").expect("plan");
    let page = fixture_page();
    let (_, mut stream) = NHCollector::assemble(url, &page, client);
    let mut results: Vec<Result<String, FetchError>> = Vec::new();
    let mut index = 0;
    while let Some((link, _item_client)) = stream.next().expect("next") {
        // item 2 of 3 always fails to download; its siblings still flow
        if index == 1 {
            results.push(Err(FetchError::UpstreamError(500)));
        } else {
            results.push(Ok(link));
        }
        index += 1;
    }
    assert_eq!(results.len(), 3);
    assert_eq!(
        results[0],
        Ok("https://i3.nhentai.net/galleries/333678/1.jpg".to_string())
    );
    assert_eq!(results[1], Err(FetchError::UpstreamError(500)));
    assert_eq!(
        results[2],
        Ok("https://i7.nhentai.net/galleries/333678/10.webp".to_string())
    );
}

#[test]
fn status_decision_is_2xx() {
    assert_eq!(check_status(200), Ok(()));
    assert_eq!(check_status(299), Ok(()));
    assert_eq!(check_status(302), Err(FetchError::UpstreamError(302)));
    assert_eq!(check_status(404), Err(FetchError::UpstreamError(404)));
    assert_eq!(check_status(500), Err(FetchError::UpstreamError(500)));
}

#[test]
fn image_pair_derives_identity_from_link() {
    let (meta, data) = image_pair("https://i.nhentai.net/galleries/1/1.jpg".to_string(), vec![1, 2, 3]);
    assert_eq!(meta.id, "https://i.nhentai.net/galleries/1/1.jpg");
    assert_eq!(meta.url, meta.id);
    assert!(meta.description.is_none());
    assert_eq!(data.bytes, vec![1, 2, 3]);
}

#[test]
fn collector_name_is_stable() {
    assert_eq!(NHCollector::name(), "nhentai");
}

#[test]
fn retry_returns_first_success() {
    let policy = RetryPolicy::standard();
    assert_eq!(policy.delay_ms, 200);
    assert_eq!(policy.max_retries, 5);
    assert!(policy.jitter);
    // fails twice, then succeeds: the success is returned after 3 attempts
    let outcomes = vec![false, false, true, false, false, false];
    let jitters = vec![7, 11, 13, 17, 19];
    let (outcome, waited) = eh2telegraph::retry::run_retry(&policy, &outcomes, &jitters);
    assert_eq!(outcome, RetryOutcome::Succeeded { attempts: 3 });
    // jitter only adds: at least 2 fixed delays were scheduled
    assert!(waited >= 400);
    assert_eq!(waited, (200 + 7) + (200 + 11));
}

#[test]
fn retry_exhaustion_returns_last_failure() {
    let policy = RetryPolicy::standard();
    let outcomes = vec![false; 6];
    let jitters = vec![0; 5];
    let (outcome, waited) = eh2telegraph::retry::run_retry(&policy, &outcomes, &jitters);
    assert_eq!(outcome, RetryOutcome::Exhausted { attempts: 6 });
    assert_eq!(waited, 5 * 200);
}

#[test]
fn retry_decision_is_bounded() {
    let policy = RetryPolicy { delay_ms: 200, max_retries: 5, jitter: true };
    assert_eq!(policy.on_failure(1, 50), RetryDecision::RetryAfter(250));
    assert_eq!(policy.on_failure(5, 0), RetryDecision::RetryAfter(200));
    assert_eq!(policy.on_failure(6, 0), RetryDecision::GiveUp);
    let plain = RetryPolicy { delay_ms: 100, max_retries: 2, jitter: false };
    assert_eq!(plain.on_failure(1, 999), RetryDecision::RetryAfter(100));
}

#[test]
fn replacement_is_left_to_right_without_overlap() {
    let s = to_char_vec("t.t.x");
    let pat = to_char_vec("t.");
    let to = to_char_vec(".");
    let r = replace_all_chars(&s, &pat, &to);
    let out: String = r.iter().collect();
    assert_eq!(out, "..x");
    let s2 = to_char_vec("https://t7.nhentai.net/galleries/333678/10t.webp");
    let r2 = replace_all_chars(&s2, &to_char_vec("https://t"), &to_char_vec("https://i"));
    let out2: String = r2.iter().collect();
    assert_eq!(out2, "https://i7.nhentai.net/galleries/333678/10t.webp");
}

#[test]
fn find_from_returns_first_occurrence() {
    let s = to_char_vec("abcabc");
    let pat = to_char_vec("bc");
    assert_eq!(find_from(&s, &pat, 0), Some(1));
    assert_eq!(find_from(&s, &pat, 2), Some(4));
    assert_eq!(find_from(&s, &pat, 5), None);
}
