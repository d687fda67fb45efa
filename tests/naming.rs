use mq_backuper::archive::{check_destination, DestinationFacts};
use mq_backuper::error::Error;
use mq_backuper::naming::{archive_file_name, decimal_text, get_zip_path, join_path, padded_text, stamp_string, year_string, zip_path_at, Timestamp};

fn at(year: i32, month: u32, day: u32, hour: u32, minute: u32, second: u32) -> Timestamp {
    Timestamp { year, month, day, hour, minute, second }
}

#[test]
fn archive_name_carries_time_to_the_second() {
    let t = at(2021, 3, 7, 9, 5, 1);
    assert_eq!(stamp_string(&t), "2021_03_07__09_05_01");
    assert_eq!(archive_file_name("My Mq80", &t), "My Mq80_backup_2021_03_07__09_05_01.zip");
}

#[test]
fn archive_path_joins_destination_directory() {
    let t = at(1999, 12, 31, 23, 59, 59);
    assert_eq!(zip_path_at("pc", "/backups", &t), "/backups/pc_backup_1999_12_31__23_59_59.zip");
    assert_eq!(zip_path_at("pc", "/backups/", &t), "/backups/pc_backup_1999_12_31__23_59_59.zip");
    assert_eq!(zip_path_at("pc", "C:\\Drive\\", &t), "C:\\Drive\\pc_backup_1999_12_31__23_59_59.zip");
    assert_eq!(zip_path_at("pc", "", &t), "pc_backup_1999_12_31__23_59_59.zip");
    assert_eq!(join_path("a", "b"), "a/b");
}

#[test]
fn same_second_gives_same_archive_and_the_second_run_is_refused() {
    let first = zip_path_at("Capture", "/backups", &at(2024, 1, 2, 3, 4, 5));
    let second = zip_path_at("Capture", "/backups", &at(2024, 1, 2, 3, 4, 5));
    assert_eq!(first, second);
    let facts = DestinationFacts { dest_exists: true, source_exists: true, has_parent: true };
    assert!(matches!(check_destination(&second, "/src", &facts), Err(Error::DestinationConflict(_))));
    let next = zip_path_at("Capture", "/backups", &at(2024, 1, 2, 3, 4, 6));
    assert_ne!(first, next);
}

#[test]
fn years_are_padded_or_signed() {
    assert_eq!(year_string(2024), "2024");
    assert_eq!(year_string(987), "0987");
    assert_eq!(year_string(0), "0000");
    assert_eq!(year_string(-5), "-0005");
    assert_eq!(year_string(12345), "+12345");
}

#[test]
fn decimal_digits() {
    assert_eq!(decimal_text(0), "0");
    assert_eq!(decimal_text(907), "907");
    assert_eq!(decimal_text(u64::MAX), "18446744073709551615");
    assert_eq!(padded_text(7, 2), "07");
    assert_eq!(padded_text(123, 2), "123");
}

#[test]
fn present_time_archive_path_has_the_expected_shape() {
    let p = get_zip_path("sys", "/b");
    assert!(p.starts_with("/b/sys_backup_"));
    assert!(p.ends_with(".zip"));
    let stamp = &p["/b/sys_backup_".len()..p.len() - 4];
    assert_eq!(stamp.len(), 20);
    let shape: String = stamp.chars().map(|c| if c.is_ascii_digit() { '9' } else { c }).collect();
    assert_eq!(shape, "9999_99_99__99_99_99");
}
