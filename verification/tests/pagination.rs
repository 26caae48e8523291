use spirean::extensions::pagination::{check_page, PageInfo, Pagination};

fn pages(info: &PageInfo) -> Vec<Option<u64>> {
    info.pages.clone()
}

#[test]
fn default_pagination_is_first_page_of_fifteen() {
    let p = Pagination::default();
    assert_eq!(p.page, 1);
    assert_eq!(p.per_page, 15);
}

#[test]
fn pagination_new_keeps_its_arguments() {
    let p = Pagination::new(4, 30);
    assert_eq!(p.page, 4);
    assert_eq!(p.per_page, 30);
}

#[test]
fn listing_near_start_marks_gap_before_end() {
    let info = PageInfo::new(1, 10, 2, 2, 2, 2);
    assert_eq!(pages(&info), vec![Some(1), Some(2), None, Some(9), Some(10)]);
    assert_eq!(info.prev, None);
    assert_eq!(info.next, Some(2));
}

#[test]
fn listing_in_the_middle() {
    let info = PageInfo::new(5, 10, 1, 2, 2, 1);
    // The last page follows 6 without a gap marker.
    assert_eq!(pages(&info), vec![Some(1), None, Some(5), Some(6), Some(10)]);
    assert_eq!(info.prev, Some(4));
    assert_eq!(info.next, Some(6));
}

#[test]
fn listing_at_the_end() {
    let info = PageInfo::new(10, 10, 3, 3, 3, 3);
    assert_eq!(
        pages(&info),
        vec![Some(1), Some(2), Some(3), None, Some(8), Some(9), Some(10)]
    );
    assert_eq!(info.prev, Some(9));
    assert_eq!(info.next, None);
}

#[test]
fn single_page_listing() {
    let info = PageInfo::new(0, 1, 2, 2, 2, 2);
    assert_eq!(pages(&info), vec![Some(1)]);
    assert_eq!(info.prev, None);
    assert_eq!(info.next, None);
}

#[test]
fn two_page_listing() {
    let info = PageInfo::new(1, 2, 0, 0, 0, 0);
    assert_eq!(pages(&info), vec![Some(1), Some(2)]);
    assert_eq!(info.next, Some(2));
}

#[test]
fn empty_listing_still_names_page_zero() {
    let info = PageInfo::new(3, 0, 2, 2, 2, 2);
    assert_eq!(pages(&info), vec![Some(1), Some(0)]);
    assert_eq!(info.prev, Some(2));
    assert_eq!(info.next, None);
}

#[test]
fn page_zero_counts_as_first_page() {
    let info = PageInfo::new(0, 5, 0, 1, 1, 0);
    assert_eq!(info.prev, None);
    assert_eq!(info.next, Some(2));
}

#[test]
fn huge_window_lists_every_page() {
    let info = PageInfo::new(u64::MAX - 1, 6, u64::MAX, u64::MAX, u64::MAX, u64::MAX);
    assert_eq!(
        pages(&info),
        vec![Some(1), Some(2), Some(3), Some(4), Some(5), Some(6)]
    );
    assert_eq!(info.prev, Some(u64::MAX - 2));
    assert_eq!(info.next, None);
}

#[test]
fn listing_pages_increase_and_gaps_are_marked() {
    for page in 0..12u64 {
        for max in 1..12u64 {
            let info = PageInfo::new(page, max, 1, 2, 1, 1);
            let p = pages(&info);
            assert_eq!(p[0], Some(1));
            if max != 1 {
                assert_eq!(*p.last().unwrap(), Some(max));
            }
            let nums: Vec<u64> = p.iter().flatten().copied().collect();
            for w in nums.windows(2) {
                assert!(w[0] < w[1]);
            }
            for i in 0..p.len() {
                if p[i].is_none() {
                    assert!(i > 0 && i + 1 < p.len());
                    assert!(p[i + 1].unwrap() > p[i - 1].unwrap() + 1);
                }
            }
        }
    }
}

#[test]
fn check_page_compares() {
    assert!(check_page(&3, &3));
    assert!(!check_page(&3, &4));
}

#[test]
fn current_page_is_listed_when_the_window_reaches_it() {
    let info = PageInfo::new(5, 10, 1, 2, 1, 1);
    assert_eq!(pages(&info), vec![Some(1), None, Some(5), Some(10)]);
    let narrow = PageInfo::new(5, 10, 1, 1, 2, 1);
    assert_eq!(pages(&narrow), vec![Some(1), None, Some(6), Some(10)]);
}
