use keyboardio::{sort_keycodes, xor_swap};

#[test]
fn test_sort_keycodes() {
    // so (0x00)(0x01)(0x00)(0x03)(0x02)(0x00) becomes
    //    (0x02)(0x01)(0x03)(0x00)(0x00)(0x00)
    let mut unsorted = [0x00, 0x01, 0x00, 0x03, 0x02, 0x00];
    let expected = [0x02, 0x01, 0x03, 0x00, 0x00, 0x00];

    sort_keycodes(&mut unsorted);

    assert_eq!(unsorted, expected);

    let mut unsorted = [0x01, 0x00, 0x00, 0x03, 0x00, 0x02];
    let expected = [0x01, 0x02, 0x03, 0x00, 0x00, 0x00];

    sort_keycodes(&mut unsorted);

    assert_eq!(unsorted, expected);

    let mut unsorted = [0x00, 0x00, 0x00, 0x03, 0x01, 0x02];
    let expected = [0x02, 0x01, 0x03, 0x00, 0x00, 0x00];

    sort_keycodes(&mut unsorted);

    assert_eq!(unsorted, expected);
}

fn sorted_nonzero(keys: &[u8]) -> Vec<u8> {
    let mut v: Vec<u8> = keys.iter().copied().filter(|k| *k != 0).collect();
    v.sort();
    v
}

#[test]
fn sort_keycodes_keeps_values_and_moves_zeros_last() {
    let cases: [[u8; 6]; 5] = [
        [0, 0, 0, 0, 0, 0],
        [9, 8, 7, 6, 5, 4],
        [0, 0, 0, 0, 0, 7],
        [5, 0, 5, 0, 5, 0],
        [0, 4, 0, 4, 0, 9],
    ];
    for case in cases.iter() {
        let mut keys = *case;
        sort_keycodes(&mut keys);
        assert_eq!(sorted_nonzero(&keys), sorted_nonzero(case));
        let zeros = keys.iter().filter(|k| **k == 0).count();
        assert_eq!(zeros, case.iter().filter(|k| **k == 0).count());
        assert!(keys[..6 - zeros].iter().all(|k| *k != 0));
        assert!(keys[6 - zeros..].iter().all(|k| *k == 0));
    }
}

#[test]
fn sort_keycodes_leaves_compact_arrays_alone() {
    let mut keys = [3u8, 1, 2, 0, 0, 0];
    sort_keycodes(&mut keys);
    assert_eq!(keys, [3, 1, 2, 0, 0, 0]);
}

#[test]
fn sort_keycodes_on_empty_and_single_slices() {
    let mut empty: [u8; 0] = [];
    sort_keycodes(&mut empty);
    let mut one = [0u8];
    sort_keycodes(&mut one);
    assert_eq!(one, [0]);
}

#[test]
fn xor_swap_exchanges_distinct_values() {
    let mut s = [1u8, 2, 3];
    xor_swap(&mut s, 0, 2);
    assert_eq!(s, [3, 2, 1]);
}

#[test]
fn xor_swap_keeps_equal_values() {
    let mut s = [7u8, 7, 1];
    xor_swap(&mut s, 0, 1);
    assert_eq!(s, [7, 7, 1]);
    xor_swap(&mut s, 2, 2);
    assert_eq!(s, [7, 7, 1]);
}

#[test]
fn xor_swap_ignores_out_of_bounds() {
    let mut s = [1u8, 2];
    xor_swap(&mut s, 0, 2);
    assert_eq!(s, [1, 2]);
}
