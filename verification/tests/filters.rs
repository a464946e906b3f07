use hikaru::filters::Filters;

fn policy(accept: &[&str], exclude: &[&str], min: u32, max: u32) -> Filters {
    Filters::new(
        accept.iter().map(|s| s.to_string()).collect(),
        exclude.iter().map(|s| s.to_string()).collect(),
        min,
        max,
    )
}

#[test]
fn matching_accept_pattern_matches() {
    let f = policy(&["*1080p*"], &[], 100, 1000);
    assert!(f.is_match("Show.S01E01.1080p", 500));
}

#[test]
fn non_matching_accept_pattern_does_not_match() {
    let f = policy(&["*720p*"], &[], 100, 1000);
    assert!(!f.is_match("Show.S01E01.1080p", 500));
}

#[test]
fn size_below_minimum_never_matches() {
    let f = policy(&["*1080p*"], &[], 100, 1000);
    assert!(!f.is_match("Show.S01E01.1080p", 50));
    let open = policy(&[], &[], 100, 1000);
    assert!(!open.is_match("Show.S01E01.1080p", 50));
}

#[test]
fn size_above_maximum_never_matches() {
    let f = policy(&["*1080p*"], &[], 100, 1000);
    assert!(!f.is_match("Show.S01E01.1080p", 1001));
}

#[test]
fn size_bounds_are_inclusive() {
    let f = policy(&[], &[], 100, 1000);
    assert!(f.is_match("anything", 100));
    assert!(f.is_match("anything", 1000));
}

#[test]
fn empty_accept_list_passes_vacuously() {
    let f = policy(&[], &[], 0, 1000);
    assert!(f.is_match("whatever", 500));
}

#[test]
fn exclude_pattern_blocks_a_match() {
    let f = policy(&["*1080p*"], &["*CAM*"], 100, 1000);
    assert!(f.is_match("Show.1080p.WEB", 500));
    assert!(!f.is_match("Show.1080p.CAM", 500));
}

#[test]
fn question_mark_matches_one_character() {
    let f = policy(&["S??E??"], &[], 0, 10);
    assert!(f.is_match("S01E02", 5));
    assert!(!f.is_match("S1E2", 5));
}

#[test]
fn any_of_several_accept_patterns_suffices() {
    let f = policy(&["*720p*", "*1080p*"], &[], 0, 1000);
    assert!(f.is_match("Show.1080p", 500));
    assert!(f.is_match("Show.720p", 500));
    assert!(!f.is_match("Show.480p", 500));
}
