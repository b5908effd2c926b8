use file_transfer::paths::{final_file_name, find_last_dot, format_u64, join, temp_file_name};

#[test]
fn format_u64_exact_digits() {
    assert_eq!(format_u64(0), b"0".to_vec());
    assert_eq!(format_u64(7), b"7".to_vec());
    assert_eq!(format_u64(10), b"10".to_vec());
    assert_eq!(format_u64(1234567890), b"1234567890".to_vec());
    assert_eq!(format_u64(u64::MAX), b"18446744073709551615".to_vec());
}

#[test]
fn join_directory_and_name() {
    assert_eq!(join(&b"/tmp/out".to_vec(), &b"a.txt".to_vec()), b"/tmp/out/a.txt".to_vec());
    assert_eq!(join(&b"".to_vec(), &b"x".to_vec()), b"/x".to_vec());
}

#[test]
fn temp_name_plain_candidate() {
    assert_eq!(temp_file_name(&b"report.pdf".to_vec(), false, 0), b"report.pdf.dat".to_vec());
}

#[test]
fn temp_name_collided_candidate() {
    assert_eq!(
        temp_file_name(&b"report.pdf".to_vec(), true, 1700000000),
        b"report.pdf_1700000000.dat".to_vec()
    );
}

#[test]
fn final_name_untaken_keeps_name() {
    assert_eq!(final_file_name(&b"report.pdf".to_vec(), false, 5), b"report.pdf".to_vec());
}

#[test]
fn final_name_taken_inserts_timestamp_before_extension() {
    assert_eq!(final_file_name(&b"report.pdf".to_vec(), true, 42), b"report_42.pdf".to_vec());
}

#[test]
fn final_name_taken_without_extension_appends_timestamp() {
    assert_eq!(final_file_name(&b"README".to_vec(), true, 42), b"README_42".to_vec());
}

#[test]
fn final_name_uses_last_extension_only() {
    assert_eq!(
        final_file_name(&b"archive.tar.gz".to_vec(), true, 42),
        b"archive.tar_42.gz".to_vec()
    );
}

#[test]
fn final_name_hidden_file_has_no_extension() {
    assert_eq!(final_file_name(&b".bashrc".to_vec(), true, 42), b".bashrc_42".to_vec());
}

#[test]
fn final_name_trailing_dot_keeps_empty_extension() {
    assert_eq!(final_file_name(&b"name.".to_vec(), true, 42), b"name_42.".to_vec());
}

#[test]
fn find_last_dot_cases() {
    assert_eq!(find_last_dot(&b"a.b".to_vec()), Some(1));
    assert_eq!(find_last_dot(&b"archive.tar.gz".to_vec()), Some(11));
    assert_eq!(find_last_dot(&b"abc".to_vec()), None);
    assert_eq!(find_last_dot(&b".a".to_vec()), None);
    assert_eq!(find_last_dot(&b"a.".to_vec()), Some(1));
    assert_eq!(find_last_dot(&b"".to_vec()), None);
}

#[test]
fn collision_avoidance_gives_distinct_files() {
    let name = b"data.bin".to_vec();
    let first = final_file_name(&name, true, 100);
    let second = final_file_name(&name, true, 101);
    assert_ne!(first, second);
    assert_ne!(first, name);
    assert_ne!(second, name);
    assert_eq!(second, b"data_101.bin".to_vec());
}

#[test]
fn temp_names_always_end_in_dat() {
    for (taken, ts) in [(false, 0u64), (true, 9), (true, 1234567)] {
        let t = temp_file_name(&b"x.y".to_vec(), taken, ts);
        assert!(t.len() >= 4);
        assert_eq!(&t[t.len() - 4..], b".dat");
    }
}

#[test]
fn temp_collision_name_differs_from_plain() {
    let plain = temp_file_name(&b"x".to_vec(), false, 7);
    let avoided = temp_file_name(&b"x".to_vec(), true, 7);
    assert_ne!(plain, avoided);
}
