use ld::{byte_conv, clean_styling, date_string, enrich, enrich_with_system_time, is_file_hidden,
    mode_to_rwx, system_time_to_local_date, visual_len, width_or_default, Date, DirectoryItem,
    Filter, MetadataError};

#[test]
fn test_enrich_with_system_time() {
    let now = std::time::SystemTime::now();
    let item =
        enrich_with_system_time(Some(String::from("subdir")), true, 0o755, 64, Some(now)).unwrap();
    assert!(item.is_dir);
    assert!(!item.is_hidden);
    assert_eq!(item.file_permissions, "rwxr-xr-x");
    assert!(1 <= item.created_at.month && item.created_at.month <= 12);
    assert!(1 <= item.created_at.day && item.created_at.day <= 31);
    let r = enrich_with_system_time(None, false, 0, 0, Some(now));
    assert_eq!(r.unwrap_err(), MetadataError::InvalidName);
    let r = enrich_with_system_time(Some(String::from("a")), false, 0, 0, None);
    assert_eq!(r.unwrap_err(), MetadataError::MissingCreationTime);
}

#[test]
fn test_date_string() {
    assert_eq!(date_string(&Date { year: 2024, month: 6, day: 5 }), "2024-06-05");
    assert_eq!(date_string(&Date { year: 987, month: 12, day: 31 }), "0987-12-31");
    assert_eq!(date_string(&Date { year: 12345, month: 1, day: 1 }), "12345-01-01");
}

#[test]
fn test_mode_to_rwx_examples() {
    assert_eq!(mode_to_rwx(0o755), "rwxr-xr-x");
    assert_eq!(mode_to_rwx(0o000), "---------");
    assert_eq!(mode_to_rwx(0o641), "rw-r----x");
    assert_eq!(mode_to_rwx(0o777), "rwxrwxrwx");
}

#[test]
fn test_mode_to_rwx_all_nine_bit_values() {
    for mode in 0u32..512u32 {
        let s = mode_to_rwx(mode);
        assert_eq!(s.chars().count(), 9);
        for c in s.chars() {
            assert!(c == 'r' || c == 'w' || c == 'x' || c == '-');
        }
    }
}

#[test]
fn test_is_file_hidden() {
    assert!(!is_file_hidden(&String::from("file.txt")));
    assert!(is_file_hidden(&String::from(".env")));
    assert!(is_file_hidden(&String::from(".")));
    assert!(!is_file_hidden(&String::from("")));
}

#[test]
fn test_filter_laws() {
    let visible = DirectoryItem {
        name: String::from("file.txt"),
        is_dir: false,
        is_hidden: false,
        file_permissions: String::from("rw-r--r--"),
        created_at: Date { year: 2024, month: 6, day: 15 },
        size: 10,
    };
    let hidden = DirectoryItem {
        name: String::from(".env"),
        is_dir: false,
        is_hidden: true,
        file_permissions: String::from("rw-r--r--"),
        created_at: Date { year: 2024, month: 6, day: 15 },
        size: 10,
    };
    assert!(Filter::ShowAll.selects(&visible));
    assert!(Filter::ShowAll.selects(&hidden));
    assert!(Filter::HideHidden.selects(&visible));
    assert!(!Filter::HideHidden.selects(&hidden));
}

#[test]
fn test_byte_conv_small_values() {
    assert_eq!(byte_conv(0), "0b");
    assert_eq!(byte_conv(1), "1b");
    assert_eq!(byte_conv(64), "64b");
    assert_eq!(byte_conv(1024), "1024b");
}

#[test]
fn test_byte_conv_kilobytes() {
    assert_eq!(byte_conv(1025), "1.0kb");
    assert_eq!(byte_conv(1500), "1.5kb");
    assert_eq!(byte_conv(2047), "2.0kb");
    assert_eq!(byte_conv(2048), "2.0kb");
    assert_eq!(byte_conv(10 * 1024 * 1024), "10240.0kb");
    // the largest size: 2^64 - 1 bytes is 18014398509481983kb + 1023b,
    // whose tenths round up and carry into the whole part
    assert_eq!(byte_conv(u64::MAX), "18014398509481984.0kb");
}

#[test]
fn test_date_new_bounds() {
    assert_eq!(Date::new(2024, 6, 15), Some(Date { year: 2024, month: 6, day: 15 }));
    assert_eq!(Date::new(2024, 0, 15), None);
    assert_eq!(Date::new(2024, 13, 15), None);
    assert_eq!(Date::new(2024, 6, 0), None);
    assert_eq!(Date::new(2024, 6, 32), None);
}

#[test]
fn test_enrich_ok() {
    let item = enrich(
        Some(String::from(".config")),
        true,
        0o755,
        64,
        Some(Date { year: 2023, month: 1, day: 2 }),
    )
    .unwrap();
    assert_eq!(item.name, ".config");
    assert!(item.is_dir);
    assert!(item.is_hidden);
    assert_eq!(item.file_permissions, "rwxr-xr-x");
    assert_eq!(item.created_at, Date { year: 2023, month: 1, day: 2 });
    assert_eq!(item.size, 64);
}

#[test]
fn test_enrich_invalid_name() {
    let r = enrich(None, false, 0o644, 0, Some(Date { year: 2023, month: 1, day: 2 }));
    assert_eq!(r.unwrap_err(), MetadataError::InvalidName);
    let r = enrich(
        Some(String::from("")),
        false,
        0o644,
        0,
        Some(Date { year: 2023, month: 1, day: 2 }),
    );
    assert_eq!(r.unwrap_err(), MetadataError::InvalidName);
}

#[test]
fn test_enrich_missing_creation_time() {
    let r = enrich(Some(String::from("file.txt")), false, 0o644, 0, None);
    assert_eq!(r.unwrap_err(), MetadataError::MissingCreationTime);
}

#[test]
fn test_clean_styling() {
    assert_eq!(clean_styling(&String::from("plain name")), "plain name");
    let styled = String::from("\u{1b}[1m\u{1b}[95msubdir\u{1b}[0m\u{1b}[39m");
    assert_eq!(clean_styling(&styled), "subdir");
    let mixed = String::from("a \u{1b}[1mb\u{1b}[0m c");
    assert_eq!(clean_styling(&mixed), "a b c");
}

#[test]
fn test_visual_len() {
    assert_eq!(visual_len(&String::from("abc")), 3);
    let styled = String::from("\u{1b}[1m\u{1b}[95msubdir\u{1b}[0m\u{1b}[39m");
    assert_eq!(visual_len(&styled), 6);
}

#[test]
fn test_width_or_default() {
    assert_eq!(width_or_default(Some(120)), 120);
    assert_eq!(width_or_default(None), 80);
}

#[test]
fn test_get_terminal_width_bound() {
    match ld::get_terminal_width() {
        Some(w) => assert!(w <= u16::MAX as usize),
        None => (),
    }
}

#[test]
fn test_system_time_to_local_date_now() {
    let d = system_time_to_local_date(std::time::SystemTime::now()).unwrap();
    assert!(1 <= d.month && d.month <= 12);
    assert!(1 <= d.day && d.day <= 31);
    assert!(d.year >= 2024);
}

#[test]
fn test_system_time_to_local_date_far_future() {
    // far beyond any representable year: missing, not a crash
    let t = std::time::UNIX_EPOCH + std::time::Duration::from_secs(10_000_000_000_000);
    assert_eq!(system_time_to_local_date(t), None);
    let t = std::time::UNIX_EPOCH + std::time::Duration::from_secs(3_000_000_000_000_000);
    assert_eq!(system_time_to_local_date(t), None);
}

#[test]
fn test_system_time_to_local_date_before_epoch() {
    let t = std::time::UNIX_EPOCH - std::time::Duration::from_secs(10 * 31_556_952);
    let d = system_time_to_local_date(t).unwrap();
    assert!(d.year == 1959 || d.year == 1960);
    // a fractional second before the epoch exercises the carry into the
    // preceding whole second
    let t = std::time::UNIX_EPOCH - std::time::Duration::new(1, 500_000_000);
    let d = system_time_to_local_date(t).unwrap();
    assert!(d.year == 1969 || d.year == 1970);
    // a time before year zero has no representable date
    let t = std::time::UNIX_EPOCH - std::time::Duration::from_secs(80_000_000_000);
    assert_eq!(system_time_to_local_date(t), None);
}
