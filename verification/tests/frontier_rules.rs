//! The frontier: deduplication, priority order, and its two limits.

use ratcrawler::frontier::Frontier;

#[test]
fn a_url_enters_at_most_once() {
    let mut f = Frontier::new(3, 10);
    f.push("http://a.test/".to_string(), 0, 10);
    f.push("http://a.test/".to_string(), 1, 5);
    assert_eq!(f.remaining(), 1);
    assert_eq!(f.visited_size(), 1);
    let e = f.pop().unwrap();
    assert_eq!(e.url, "http://a.test/");
    assert_eq!(e.depth, 0);
    // popped URLs never come back, even if offered again
    f.push("http://a.test/".to_string(), 0, 10);
    assert_eq!(f.remaining(), 0);
    assert!(f.pop().is_none());
}

#[test]
fn pops_prefer_priority_then_depth_then_arrival() {
    let mut f = Frontier::new(5, 10);
    f.push("http://a.test/low".to_string(), 0, 5);
    f.push("http://a.test/high".to_string(), 2, 9);
    f.push("http://a.test/high-shallow".to_string(), 1, 9);
    f.push("http://a.test/high-shallow-later".to_string(), 1, 9);
    assert_eq!(f.pop().unwrap().url, "http://a.test/high-shallow");
    assert_eq!(f.pop().unwrap().url, "http://a.test/high-shallow-later");
    assert_eq!(f.pop().unwrap().url, "http://a.test/high");
    assert_eq!(f.pop().unwrap().url, "http://a.test/low");
    assert!(f.pop().is_none());
}

#[test]
fn depth_limit_rejects_deep_entries() {
    let mut f = Frontier::new(2, 10);
    f.push("http://a.test/deep".to_string(), 3, 10);
    assert_eq!(f.remaining(), 0);
    assert_eq!(f.visited_size(), 0);
    f.push("http://a.test/ok".to_string(), 2, 10);
    assert_eq!(f.remaining(), 1);
}

#[test]
fn page_limit_caps_what_comes_out() {
    let mut f = Frontier::new(3, 2);
    f.push("http://a.test/1".to_string(), 0, 5);
    f.push("http://a.test/2".to_string(), 0, 5);
    f.push("http://a.test/3".to_string(), 0, 5);
    assert!(f.pop().is_some());
    assert!(f.pop().is_some());
    // the budget of two pages is spent
    assert!(f.pop().is_none());
    // and a spent frontier accepts nothing new
    f.push("http://a.test/4".to_string(), 0, 5);
    assert_eq!(f.visited_size(), 3);
}

#[test]
fn no_url_is_returned_twice() {
    let mut f = Frontier::new(3, 100);
    for i in 0..20 {
        f.push(format!("http://a.test/{}", i), 0, (i % 7) as i32);
    }
    let mut seen: Vec<String> = Vec::new();
    while let Some(e) = f.pop() {
        assert!(!seen.contains(&e.url));
        seen.push(e.url);
    }
    assert_eq!(seen.len(), 20);
}
