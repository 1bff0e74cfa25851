use issuefer::github::{next_page_url, parse_link_header};

#[test]
fn link_header_yields_next_and_last() {
    let header = "<https://api.github.com/repos/o/r/issues?state=all&page=2>; rel=\"next\", \
                  <https://api.github.com/repos/o/r/issues?state=all&page=4>; rel=\"last\"";
    let (next, last) = parse_link_header(header);
    assert_eq!(next, "https://api.github.com/repos/o/r/issues?state=all&page=2");
    assert_eq!(last, "https://api.github.com/repos/o/r/issues?state=all&page=4");
}

#[test]
fn link_header_without_links_yields_empty() {
    let (next, last) = parse_link_header("");
    assert_eq!(next, "");
    assert_eq!(last, "");
    let (next2, last2) = parse_link_header("<https://x/y>; rel=\"prev\"");
    assert_eq!(next2, "");
    assert_eq!(last2, "");
}

#[test]
fn next_page_follows_next_link() {
    let header = "<https://h/p?page=2>; rel=\"next\", <https://h/p?page=4>; rel=\"last\"";
    let next = next_page_url("https://h/p?page=1", header).unwrap();
    assert_eq!(next, "https://h/p?page=2");
}

#[test]
fn next_page_stops_without_next_link() {
    assert!(next_page_url("https://h/p?page=4", "").is_none());
    assert!(next_page_url("https://h/p?page=4", "<https://h/p?page=1>; rel=\"first\"").is_none());
}

#[test]
fn pagination_terminates_on_self_pointing_next() {
    // A synthetic header sequence page1 -> page2 -> page2: on the last
    // page the server still advertises a next link pointing at the page
    // itself, which is also the rel="last" URL. The loop must fetch page2
    // exactly once more and then stop.
    let page1 = "https://h/p?page=1";
    let page2 = "https://h/p?page=2";
    let header = "<https://h/p?page=2>; rel=\"next\", <https://h/p?page=2>; rel=\"last\"";

    let mut fetched_page2 = 0;
    let mut current = page1.to_string();
    let mut hops = 0;
    loop {
        // Each page of the synthetic listing answers with the same header.
        if current == page2 {
            fetched_page2 += 1;
        }
        match next_page_url(&current, header) {
            Some(next) => {
                current = next;
            }
            None => break,
        }
        hops += 1;
        assert!(hops < 10, "pagination loop failed to terminate");
    }
    assert_eq!(fetched_page2, 1);
}
