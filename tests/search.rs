use stellar_format::search::{DecimalSearch, SearchStep};

#[test]
fn search_tries_candidates_in_order() {
    let mut search = DecimalSearch::new(0, 3);
    assert_eq!(search.step(), SearchStep::Candidate(0));
    search.reject();
    assert_eq!(search.step(), SearchStep::Candidate(1));
    search.reject();
    assert_eq!(search.step(), SearchStep::Candidate(2));
    search.reject();
    assert_eq!(search.step(), SearchStep::Final(3));
}

#[test]
fn search_clamps_its_range() {
    let search = DecimalSearch::new(5, 50);
    assert_eq!(search.max_decimals, 16);
    assert_eq!(search.min_decimals, 5);
    let search = DecimalSearch::new(20, 30);
    assert_eq!(search.max_decimals, 16);
    assert_eq!(search.min_decimals, 16);
    assert_eq!(search.step(), SearchStep::Final(16));
}

#[test]
fn search_with_equal_bounds_is_final_at_once() {
    let search = DecimalSearch::new(4, 4);
    assert_eq!(search.step(), SearchStep::Final(4));
}
