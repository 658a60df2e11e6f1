use gitlab_migrator::paging::{Paginator, PAGE_SIZE};

/// Drives a paginator against a fake source whose page `n` has `sizes[n - 1]`
/// items (or a full page past the end), returning the pages requested and the
/// items gathered.
fn drive(sizes: &[usize]) -> (Vec<u32>, Vec<u32>) {
    let mut requested = vec![];
    let mut p: Paginator<u32> = Paginator::new();
    while let Some(page) = p.next_page() {
        requested.push(page);
        let n = sizes.get(page as usize - 1).copied().unwrap_or(PAGE_SIZE);
        let items: Vec<u32> = (0..n as u32).map(|i| page * 1000 + i).collect();
        p.accept(items);
    }
    (requested, p.into_items())
}

#[test]
fn stops_after_first_short_page() {
    let (requested, items) = drive(&[100, 100, 37, 100]);
    assert_eq!(requested, vec![1, 2, 3]);
    assert_eq!(items.len(), 237);
    assert_eq!(items[0], 1000);
    assert_eq!(items[100], 2000);
    assert_eq!(items[236], 3036);
}

#[test]
fn empty_first_page_is_still_requested() {
    let (requested, items) = drive(&[0, 100]);
    assert_eq!(requested, vec![1]);
    assert!(items.is_empty());
}

#[test]
fn new_paginator_asks_for_page_one() {
    let p: Paginator<u8> = Paginator::new();
    assert_eq!(p.next_page(), Some(1));
    assert!(!p.is_finished());
}

#[test]
fn full_page_asks_for_next() {
    let mut p: Paginator<u8> = Paginator::new();
    p.accept(vec![0u8; PAGE_SIZE]);
    assert_eq!(p.next_page(), Some(2));
    p.accept(vec![1u8; 99]);
    assert_eq!(p.next_page(), None);
    assert!(p.is_finished());
    assert_eq!(p.into_items().len(), PAGE_SIZE + 99);
}

#[test]
fn failed_page_leaves_no_partial_list() {
    let mut p: Paginator<u8> = Paginator::new();
    p.accept(vec![0u8; PAGE_SIZE]);
    let fetch = |page: u32| -> Result<Vec<u8>, String> { Err(format!("page {} failed", page)) };
    let mut outcome: Result<Vec<u8>, String> = Ok(vec![]);
    while let Some(page) = p.next_page() {
        match fetch(page) {
            Ok(items) => p.accept(items),
            Err(e) => {
                outcome = Err(e);
                break;
            }
        }
    }
    assert_eq!(outcome, Err("page 2 failed".to_string()));
}
