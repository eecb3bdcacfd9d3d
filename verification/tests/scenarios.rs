use memory_pager::{Page, Pager};

#[test]
fn sparse_alloc_scenario() {
    let mut pager = Pager::new(10);
    pager.get_mut_or_alloc(8);
    pager.get_mut_or_alloc(24);

    assert_eq!(pager.len(), 25);
    assert!(pager.get(8).is_some());
    assert!(pager.get(24).is_some());
    for i in 9..24 {
        assert!(pager.get(i).is_none(), "index {} must stay absent", i);
    }
}

#[test]
fn write_then_read_first_bytes() {
    let mut pager = Pager::new(1024);
    let page = pager.get_mut_or_alloc(0);
    page.set_byte(0, 1);
    assert_eq!(page.get_byte(0), 1);
    assert_eq!(page.get_byte(1), 0);
}

#[test]
fn fresh_page_is_zeroed() {
    let mut pager = Pager::new(10);
    let page = pager.get_mut_or_alloc(3);
    assert_eq!(page.len(), 10);
    for i in 0..10 {
        assert_eq!(page.get_byte(i), 0);
    }
    assert_eq!(page.offset(), 30);
}

#[test]
fn reads_never_advance_length() {
    let mut pager = Pager::new(10);
    assert!(pager.get(0).is_none());
    assert!(pager.get(1_000_000).is_none());
    assert!(pager.get_mut(1_000_000).is_none());
    assert_eq!(pager.len(), 0);
}

#[test]
fn length_is_monotonic_maximum() {
    let mut pager = Pager::new(10);
    pager.get_mut_or_alloc(5);
    assert_eq!(pager.len(), 6);
    pager.get_mut_or_alloc(2);
    assert_eq!(pager.len(), 6);
    pager.get_mut_or_alloc(5);
    assert_eq!(pager.len(), 6);
}

#[test]
fn growth_preserves_written_data() {
    let mut pager = Pager::new(10);
    pager.get_mut_or_alloc(8).set_byte(7, 42);
    // Allocating past the initial capacity forces a doubling grow.
    pager.get_mut_or_alloc(24);
    assert_eq!(pager.get(8).unwrap().get_byte(7), 42);
    assert!(pager.get(25).is_none());
}

#[test]
fn get_mut_writes_persist() {
    let mut pager = Pager::new(10);
    pager.get_mut_or_alloc(0);
    pager.get_mut(0).unwrap().set_byte(2, 5);
    assert_eq!(pager.get(0).unwrap().get_byte(2), 5);
    assert!(pager.get_mut(99).is_none());
}

#[test]
fn with_pages_counts_every_slot() {
    let page = Page::new(1, vec![0, 0, 7]);
    let pager = Pager::with_pages(3, vec![None, Some(page)]);
    assert_eq!(pager.len(), 2);
    assert_eq!(pager.page_size(), 3);
    assert!(pager.get(0).is_none());
    assert_eq!(pager.get(1).unwrap().get_byte(2), 7);
}

#[test]
fn with_pages_empty_then_grow() {
    let mut pager = Pager::with_pages(4, Vec::new());
    assert!(pager.is_empty());
    // The backing capacity starts at zero here; growth must still work.
    pager.get_mut_or_alloc(0);
    assert_eq!(pager.len(), 1);
    assert!(!pager.is_empty());
}

#[test]
fn zero_page_size_is_degenerate_but_safe() {
    let mut pager = Pager::new(0);
    let page = pager.get_mut_or_alloc(5);
    assert_eq!(page.len(), 0);
    assert_eq!(page.offset(), 0);
    assert_eq!(pager.len(), 6);
    assert!(pager.get(3).is_none());
}

#[test]
fn page_size_accessor() {
    let pager = Pager::new(42);
    assert_eq!(pager.page_size(), 42);
}

#[test]
fn page_offset_formula() {
    let page = Page::new(3, vec![1, 2, 3, 4, 5, 6, 7]);
    assert_eq!(page.offset(), 21);
    assert_eq!(page.len(), 7);
    assert_eq!(page.as_slice(), &[1, 2, 3, 4, 5, 6, 7]);
}

#[test]
fn page_set_byte_in_place() {
    let mut page = Page::new(0, vec![0; 4]);
    page.set_byte(3, 9);
    assert_eq!(page.get_byte(3), 9);
    assert_eq!(page.get_byte(0), 0);
    assert_eq!(page.len(), 4);
    assert_eq!(page.offset(), 0);
}

#[test]
fn iterator_stops_at_length() {
    let mut pager = Pager::new(10);
    pager.get_mut_or_alloc(1);
    let mut iter = pager.iter();
    let mut count: usize = 0;
    while let Some(_) = iter.next() {
        count += 1;
    }
    assert_eq!(count, 2);
    assert!(iter.next().is_none());

    // A new call starts a fresh traversal.
    let mut again = pager.iter();
    assert!(again.next().is_some());
}
