use mod_info::{page_url, select_source, NameSource, PageError, Paginator, PortalPage, Step};

fn page(page: usize, page_count: usize, names: &[&str]) -> PortalPage {
    PortalPage { page, page_count, names: names.iter().map(|s| s.to_string()).collect() }
}

/// Drives a walk against `api`, recording the pages requested.
fn walk(
    cache: bool,
    api: impl Fn(usize) -> PortalPage,
) -> (Vec<usize>, Result<(Vec<String>, bool), PageError>) {
    let mut p = Paginator::new(cache);
    let mut requested = Vec::new();
    loop {
        assert!(!p.is_finished());
        requested.push(p.current);
        match p.receive(api(p.current)) {
            Ok(Step::Fetch(next)) => assert_eq!(next, p.current),
            Ok(Step::Finished { write_cache }) => return (requested, Ok((p.names, write_cache))),
            Err(e) => return (requested, Err(e)),
        }
    }
}

#[test]
fn walk_requests_each_page_once_in_order() {
    let (requested, result) = walk(false, |n| page(n, 3, &[&format!("mod{n}a"), &format!("mod{n}b")]));
    assert_eq!(requested, vec![1, 2, 3]);
    let (names, write_cache) = result.unwrap();
    assert_eq!(names, vec!["mod1a", "mod1b", "mod2a", "mod2b", "mod3a", "mod3b"]);
    assert!(!write_cache);
}

#[test]
fn walk_keeps_the_first_page_count() {
    let (requested, result) = walk(true, |n| page(n, if n == 1 { 2 } else { 9 }, &["dup"]));
    assert_eq!(requested, vec![1, 2]);
    let (names, write_cache) = result.unwrap();
    assert_eq!(names, vec!["dup", "dup"]);
    assert!(write_cache);
}

#[test]
fn walk_stops_on_page_mismatch() {
    let (requested, result) = walk(false, |n| page(if n == 2 { 5 } else { n }, 3, &["m"]));
    assert_eq!(requested, vec![1, 2]);
    assert_eq!(result, Err(PageError::Inconsistent { requested: 2, returned: 5 }));
}

#[test]
fn mismatch_leaves_the_walk_unchanged() {
    let mut p = Paginator::new(false);
    assert_eq!(p.receive(page(1, 4, &["a"])), Ok(Step::Fetch(2)));
    assert_eq!(p.receive(page(3, 4, &["b"])), Err(PageError::Inconsistent { requested: 2, returned: 3 }));
    assert_eq!(p.current, 2);
    assert_eq!(p.total, Some(4));
    assert_eq!(p.names, vec!["a"]);
}

#[test]
fn single_page_walk() {
    let (requested, result) = walk(true, |n| page(n, 1, &[]));
    assert_eq!(requested, vec![1]);
    assert_eq!(result, Ok((Vec::new(), true)));
}

#[test]
fn page_addresses() {
    assert_eq!(page_url(1), "https://mods.factorio.com/api/mods?page=1");
    assert_eq!(page_url(407), "https://mods.factorio.com/api/mods?page=407");
}

#[test]
fn source_selection() {
    assert_eq!(select_source(true, true), NameSource::CachedRead);
    assert_eq!(select_source(true, false), NameSource::CachedRead);
    assert_eq!(select_source(false, true), NameSource::RemoteFetch { cache_on_success: true });
    assert_eq!(select_source(false, false), NameSource::RemoteFetch { cache_on_success: false });
}

#[test]
fn page_number_overflow_is_refused() {
    let mut p = Paginator {
        current: usize::MAX,
        total: None,
        names: Vec::new(),
        cache_on_success: false,
        done: false,
    };
    assert_eq!(p.receive(page(usize::MAX, 1, &["a"])), Err(PageError::TooManyPages));
    assert!(p.names.is_empty());
    assert!(!p.is_finished());
    assert_eq!(p.receive(page(usize::MAX, usize::MAX, &["a"])), Ok(Step::Finished { write_cache: false }));
    assert!(p.is_finished());
}
