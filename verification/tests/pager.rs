use frontend::pagination::{build_page_numbers, next_page, previous_page, shows_pager, PageNumber};
use PageNumber::{Ellipsis, Page};

#[test]
fn few_pages_all_shown() {
    assert_eq!(build_page_numbers(1, 1), vec![Page(1)]);
    assert_eq!(
        build_page_numbers(3, 7),
        vec![Page(1), Page(2), Page(3), Page(4), Page(5), Page(6), Page(7)]
    );
    assert_eq!(build_page_numbers(1, 0), vec![]);
}

#[test]
fn near_the_start() {
    assert_eq!(build_page_numbers(1, 10), vec![Page(1), Page(2), Ellipsis, Page(10)]);
    assert_eq!(build_page_numbers(3, 10), vec![Page(1), Page(2), Page(3), Page(4), Ellipsis, Page(10)]);
}

#[test]
fn in_the_middle() {
    assert_eq!(
        build_page_numbers(5, 10),
        vec![Page(1), Ellipsis, Page(4), Page(5), Page(6), Ellipsis, Page(10)]
    );
}

#[test]
fn near_the_end() {
    assert_eq!(build_page_numbers(8, 10), vec![Page(1), Ellipsis, Page(7), Page(8), Page(9), Page(10)]);
    assert_eq!(build_page_numbers(10, 10), vec![Page(1), Ellipsis, Page(9), Page(10)]);
}

#[test]
fn pager_never_exceeds_seven_entries() {
    for total in 0..40 {
        for current in 1..=total.max(1) {
            let pages = build_page_numbers(current, total);
            assert!(pages.len() <= 7);
            if total > 0 {
                assert_eq!(pages.first(), Some(&Page(1)));
                assert_eq!(pages.last(), Some(&Page(total)));
                assert!(pages.contains(&Page(current)));
            }
        }
    }
}

#[test]
fn pager_shown_for_more_than_one_page() {
    assert!(!shows_pager(0));
    assert!(!shows_pager(1));
    assert!(shows_pager(2));
}

#[test]
fn previous_and_next() {
    assert_eq!(previous_page(1), None);
    assert_eq!(previous_page(4), Some(3));
    assert_eq!(next_page(4, 4), None);
    assert_eq!(next_page(3, 4), Some(4));
}
