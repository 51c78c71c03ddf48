use img2pdf::scheduler::{assign_lpt, PageLoad};

fn page(index: usize, pixels: u32) -> PageLoad {
    PageLoad { index, crop_width: pixels, crop_height: 1 }
}

#[test]
fn lpt_balances_large_pages_first() {
    let pages = vec![page(0, 10), page(1, 9), page(2, 8), page(3, 7)];
    let assignments = assign_lpt(&pages, 2);
    let loads = assignments
        .iter()
        .map(|indices| indices.iter().map(|&i| pages[i].crop_pixels()).sum::<u64>())
        .collect::<Vec<_>>();
    assert_eq!(loads, vec![17, 17]);
}

#[test]
fn lpt_keeps_book_order_within_a_worker() {
    let pages = vec![page(0, 1), page(1, 50), page(2, 3), page(3, 40), page(4, 2)];
    let assignments = assign_lpt(&pages, 2);
    let mut seen: Vec<usize> = assignments.iter().flatten().copied().collect();
    for indices in &assignments {
        assert!(indices.windows(2).all(|w| w[0] < w[1]));
    }
    seen.sort();
    assert_eq!(seen, vec![0, 1, 2, 3, 4]);
    assert_eq!(assignments, vec![vec![1], vec![0, 2, 3, 4]]);
}

#[test]
fn lpt_with_zero_workers_uses_one() {
    let pages = vec![page(0, 5), page(1, 6)];
    let assignments = assign_lpt(&pages, 0);
    assert_eq!(assignments, vec![vec![0, 1]]);
}
