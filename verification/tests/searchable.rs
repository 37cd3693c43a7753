use hostlist::host::Host;
use hostlist::searchable::{text_contains, AcceptAll, Searchable, TextContains};

fn h(name: &str) -> Host {
    Host::new(name.to_string(), format!("{}.example.org", name))
}

fn names(v: &Vec<Host>) -> Vec<String> {
    v.iter().map(|x| x.name.clone()).collect()
}

#[test]
fn empty_query_shows_all_in_canonical_order() {
    let hosts = vec![h("a"), h("b"), h("c")];
    let s: Searchable<Host, TextContains> = Searchable::new(true, hosts, "", TextContains);
    assert_eq!(names(s.iter()), vec!["a", "b", "c"]);
    assert_eq!(s.len(), 3);
    assert!(!s.is_empty());
}

#[test]
fn empty_query_ignores_filter_and_ranking() {
    let hosts = vec![h("gamma"), h("beta"), h("alpha")];
    let s: Searchable<Host, AcceptAll> = Searchable::new(false, hosts, "", AcceptAll);
    assert_eq!(names(s.iter()), vec!["gamma", "beta", "alpha"]);
}

#[test]
fn substring_filter_keeps_only_matching_names() {
    let hosts = vec![h("alpha"), h("beta"), h("gamma")];
    let mut s: Searchable<Host, TextContains> = Searchable::new(true, hosts, "", TextContains);
    s.search("ph");
    assert_eq!(names(s.iter()), vec!["alpha"]);
    assert_eq!(s.len(), 1);
}

#[test]
fn filtered_len_counts_accepted_items() {
    let hosts = vec![h("web-1"), h("web-2"), h("db-1")];
    let mut s: Searchable<Host, TextContains> = Searchable::new(false, hosts, "", TextContains);
    s.search("web");
    assert_eq!(s.len(), 2);
    s.search("db");
    assert_eq!(s.len(), 1);
    s.search("mail");
    assert_eq!(s.len(), 0);
    assert!(s.is_empty());
}

#[test]
fn rank_sort_puts_matches_before_non_matches() {
    // "zzz" gets no fuzzy match for "web" (score zero), while the exact
    // matches score high; with ranking on they come first.
    let hosts = vec![h("zzz"), h("web"), h("alpha")];
    let s: Searchable<Host, AcceptAll> = Searchable::new(true, hosts, "web", AcceptAll);
    assert_eq!(s.len(), 3);
    assert_eq!(s.index(0).name, "web");
}

#[test]
fn rank_sort_is_stable_for_equal_scores() {
    // Two identical names score identically; the stable sort must keep their
    // canonical order, told apart here by their addresses.
    let mut one = h("web");
    one.address = "first".to_string();
    let mut two = h("web");
    two.address = "second".to_string();
    let hosts = vec![h("zzz"), one, two];
    let s: Searchable<Host, AcceptAll> = Searchable::new(true, hosts, "web", AcceptAll);
    assert_eq!(s.index(0).address, "first");
    assert_eq!(s.index(1).address, "second");
    assert_eq!(s.index(2).name, "zzz");
}

#[test]
fn unranked_search_keeps_canonical_order() {
    let hosts = vec![h("web-2"), h("zzz"), h("web-1")];
    let mut s: Searchable<Host, TextContains> = Searchable::new(false, hosts, "", TextContains);
    s.search("web");
    assert_eq!(names(s.iter()), vec!["web-2", "web-1"]);
}

#[test]
fn canonical_collection_is_unaffected_by_searching() {
    let hosts = vec![h("alpha"), h("beta"), h("gamma")];
    let mut s: Searchable<Host, TextContains> = Searchable::new(true, hosts, "", TextContains);
    s.search("alp");
    assert_eq!(names(s.iter()), vec!["alpha"]);
    assert_eq!(names(s.non_filtered_iter()), vec!["alpha", "beta", "gamma"]);
    assert_eq!(names(&s.items()), vec!["alpha", "beta", "gamma"]);
    s.search("");
    assert_eq!(names(s.iter()), vec!["alpha", "beta", "gamma"]);
}

#[test]
fn search_on_empty_collection() {
    let mut s: Searchable<Host, TextContains> = Searchable::new(true, Vec::new(), "", TextContains);
    assert!(s.is_empty());
    s.search("anything");
    assert_eq!(s.len(), 0);
}

#[test]
fn index_returns_filtered_elements() {
    let hosts = vec![h("alpha"), h("beta")];
    let s: Searchable<Host, TextContains> = Searchable::new(false, hosts, "bet", TextContains);
    assert_eq!(s.index(0).name, "beta");
}

#[test]
fn text_contains_finds_contiguous_substrings() {
    assert!(text_contains("alpha", "ph"));
    assert!(text_contains("alpha", "alpha"));
    assert!(text_contains("alpha", ""));
    assert!(text_contains("", ""));
    assert!(!text_contains("", "a"));
    assert!(!text_contains("alpha", "alphas"));
    assert!(!text_contains("alpha", "pa"));
    assert!(!text_contains("beta", "ph"));
}
