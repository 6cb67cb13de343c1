use amd::utils::lines::line_end;
use amd::utils::storage::{get_excluded_members, save_excluded_members, toggle_store, ExcludedMembers};

#[test]
fn reads_one_identifier_per_line() {
    let excluded = get_excluded_members(b"12\n7\n");
    assert_eq!(excluded.to_vec(), vec![7, 12]);
    assert_eq!(excluded.len(), 2);
    assert!(excluded.contains(7));
    assert!(excluded.contains(12));
    assert!(!excluded.contains(8));
}

#[test]
fn passes_over_lines_that_are_no_identifier() {
    let excluded = get_excluded_members(b"12\nnot a number\n\n-3\n 4\n5 \n7\n");
    assert_eq!(excluded.to_vec(), vec![7, 12]);
}

#[test]
fn counts_a_repeated_identifier_once() {
    let excluded = get_excluded_members(b"5\n5\n+5\n005\n");
    assert_eq!(excluded.to_vec(), vec![5]);
}

#[test]
fn reads_the_empty_store() {
    assert_eq!(get_excluded_members(b"").to_vec(), Vec::<u64>::new());
    assert_eq!(get_excluded_members(b"\n\n").to_vec(), Vec::<u64>::new());
}

#[test]
fn reads_a_last_line_without_line_feed() {
    assert_eq!(get_excluded_members(b"1\n2").to_vec(), vec![1, 2]);
}

#[test]
fn drops_a_carriage_return_before_a_line_feed_only() {
    assert_eq!(get_excluded_members(b"1\r\n2\r\n").to_vec(), vec![1, 2]);
    assert_eq!(get_excluded_members(b"1\r\n2\r").to_vec(), vec![1]);
    assert_eq!(get_excluded_members(b"1\r\r\n").to_vec(), Vec::<u64>::new());
    assert_eq!(get_excluded_members(b"\r\n3\n").to_vec(), vec![3]);
}

#[test]
fn passes_over_lines_that_are_no_text() {
    assert_eq!(get_excluded_members(&[0x31, 0x0A, 0xFF, 0xFE, 0x0A, 0x32, 0x0A]).to_vec(), vec![1, 2]);
}

#[test]
fn read_agrees_with_line_wise_parsing_of_std() {
    let samples: Vec<&[u8]> = vec![
        b"", b"1", b"1\n", b"\n1", b"3\n2\n1\n", b"1\r\n\r\n2", b"a\nb\n18446744073709551615\n",
        b"18446744073709551616\n0\n", b"+1\n-1\n1 \n", b"9\r", b"\r", b"\r\n",
    ];
    for sample in samples {
        let mut expected: Vec<u64> = Vec::new();
        for line in std::io::BufRead::lines(sample) {
            if let Some(id) = line.ok().and_then(|l| l.parse::<u64>().ok()) {
                if !expected.contains(&id) {
                    expected.push(id);
                }
            }
        }
        expected.sort();
        assert_eq!(get_excluded_members(sample).to_vec(), expected);
    }
}

#[test]
fn writes_ascending_lines() {
    let mut excluded = ExcludedMembers::new();
    assert_eq!(save_excluded_members(&excluded), Vec::<u8>::new());
    assert!(excluded.insert(30));
    assert!(excluded.insert(4));
    assert!(excluded.insert(1208457364274028574));
    assert!(!excluded.insert(4));
    assert_eq!(save_excluded_members(&excluded), b"4\n30\n1208457364274028574\n".to_vec());
}

#[test]
fn written_store_reads_back() {
    let mut excluded = ExcludedMembers::new();
    for id in [9u64, 0, u64::MAX, 10, 100] {
        excluded.insert(id);
    }
    let store = save_excluded_members(&excluded);
    assert_eq!(store, b"0\n9\n10\n100\n18446744073709551615\n".to_vec());
    assert_eq!(get_excluded_members(&store).to_vec(), excluded.to_vec());
}

#[test]
fn insert_and_remove() {
    let mut excluded = ExcludedMembers::new();
    assert!(!excluded.remove(1));
    assert!(excluded.insert(2));
    assert!(excluded.insert(1));
    assert!(excluded.insert(3));
    assert_eq!(excluded.to_vec(), vec![1, 2, 3]);
    assert!(excluded.remove(2));
    assert!(!excluded.remove(2));
    assert_eq!(excluded.to_vec(), vec![1, 3]);
}

#[test]
fn toggle_puts_on_and_takes_off() {
    let mut excluded = ExcludedMembers::new();
    assert!(excluded.toggle(5));
    assert!(excluded.contains(5));
    assert!(!excluded.toggle(5));
    assert!(!excluded.contains(5));
    assert_eq!(excluded.len(), 0);
}

#[test]
fn toggling_twice_restores_the_store_byte_for_byte() {
    let before = b"3\n17\n40\n".to_vec();
    let (between, now_excluded) = toggle_store(&before, 20);
    assert!(now_excluded);
    assert_eq!(between, b"3\n17\n20\n40\n".to_vec());
    let (after, still_excluded) = toggle_store(&between, 20);
    assert!(!still_excluded);
    assert_eq!(after, before);
}

#[test]
fn toggling_a_listed_member_twice_restores_the_store_too() {
    let before = b"3\n17\n40\n".to_vec();
    let (between, now_excluded) = toggle_store(&before, 17);
    assert!(!now_excluded);
    assert_eq!(between, b"3\n40\n".to_vec());
    let (after, back) = toggle_store(&between, 17);
    assert!(back);
    assert_eq!(after, before);
}

#[test]
fn toggling_twice_on_an_untidy_store_leaves_its_tidy_form() {
    let before = b"40\njunk\n3\n3\n".to_vec();
    let (between, _) = toggle_store(&before, 8);
    let (after, _) = toggle_store(&between, 8);
    assert_eq!(after, b"3\n40\n".to_vec());
    assert_eq!(after, save_excluded_members(&get_excluded_members(&before)));
}

#[test]
fn finds_the_end_of_a_line() {
    assert_eq!(line_end(b"ab\ncd", 0), 2);
    assert_eq!(line_end(b"ab\ncd", 2), 2);
    assert_eq!(line_end(b"ab\ncd", 3), 5);
    assert_eq!(line_end(b"ab\ncd", 5), 5);
}
