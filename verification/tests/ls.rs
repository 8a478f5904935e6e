use textkit::ls::{format_mode, format_output, is_hidden, is_listed, list_in, Entry};

#[test]
fn test_format_mode() {
    assert_eq!(format_mode(0o755), "rwxr-xr-x");
    assert_eq!(format_mode(0o421), "r---w---x");
}

#[test]
fn format_mode_reads_the_three_low_octal_digits() {
    assert_eq!(format_mode(0), "---------");
    assert_eq!(format_mode(0o777), "rwxrwxrwx");
    assert_eq!(format_mode(0o124), "--x-w-r--");
    assert_eq!(format_mode(0o356), "-wxr-xrw-");
    assert_eq!(format_mode(0o100644), "rw-r--r--");
    assert_eq!(format_mode(0o40755), "rwxr-xr-x");
    assert_eq!(format_mode(u32::MAX), "rwxrwxrwx");
}

// Checks one line of the long listing
fn long_match(
    line: &str,
    expected_name: &str,
    expected_perms: &str,
    expected_size: Option<&str>,
) {
    let parts: Vec<_> = line.split_whitespace().collect();
    assert!(parts.len() > 0 && parts.len() <= 10);

    let perms = parts.get(0).unwrap();
    assert_eq!(perms, &expected_perms);

    if let Some(size) = expected_size {
        let file_size = parts.get(4).unwrap();
        assert_eq!(file_size, &size);
    }

    let display_name = parts.last().unwrap();
    assert_eq!(display_name, &expected_name);
}

fn file(path: &str, mode: u32, size: u64) -> Entry {
    Entry {
        is_dir: false,
        is_file: true,
        mode,
        nlink: 1,
        uid: 1000,
        gid: 100,
        size,
        modified: "2021-03-04".to_string(),
        path: path.to_string(),
    }
}

fn dir(path: &str, mode: u32) -> Entry {
    Entry {
        is_dir: true,
        is_file: false,
        mode,
        nlink: 9,
        uid: 0,
        gid: 0,
        size: 4096,
        modified: "2021-03-04".to_string(),
        path: path.to_string(),
    }
}

#[test]
fn test_format_output_one() {
    let bustle_path = "tests/inputs/bustle.txt";
    let bustle = file(bustle_path, 0o100644, 193);

    let res = format_output(&[bustle]);
    assert!(res.is_some());

    let out = res.unwrap();
    let lines: Vec<&str> = out.split("\n").filter(|s| !s.is_empty()).collect();
    assert_eq!(lines.len(), 1);

    let line1 = lines.first().unwrap();
    long_match(&line1, bustle_path, "-rw-r--r--", Some("193"));
}

#[test]
fn test_format_output_two() {
    let res = format_output(&[
        dir("tests/inputs/dir", 0o40755),
        file("tests/inputs/empty.txt", 0o100644, 0),
    ]);
    assert!(res.is_some());

    let out = res.unwrap();
    let mut lines: Vec<&str> = out.split("\n").filter(|s| !s.is_empty()).collect();
    lines.sort();
    assert_eq!(lines.len(), 2);

    let empty_line = lines.remove(0);
    long_match(
        &empty_line,
        "tests/inputs/empty.txt",
        "-rw-r--r--",
        Some("0"),
    );

    let dir_line = lines.remove(0);
    long_match(&dir_line, "tests/inputs/dir", "drwxr-xr-x", None);
}

#[test]
fn format_output_aligns_the_columns() {
    let other = Entry {
        is_dir: false,
        is_file: false,
        mode: 0o777,
        nlink: 64,
        uid: 7,
        gid: 12345,
        size: 5,
        modified: "2000-01-01".to_string(),
        path: "dev/x".to_string(),
    };
    let out = format_output(&[dir("d", 0o40755), file("f.txt", 0o100600, 1234567), other]).unwrap();
    assert_eq!(
        out,
        "drwxr-xr-x   11  0     0      4096     2021-03-04  d\n\
         -rw-------    1  1000  100    1234567  2021-03-04  f.txt\n\
         ?rwxrwxrwx  100  7     12345  5        2000-01-01  dev/x\n"
    );
    assert_eq!(format_output(&[]).unwrap(), "");
}

#[test]
fn hidden_names_begin_with_a_dot() {
    assert!(is_hidden(".hidden"));
    assert!(is_hidden("."));
    assert!(!is_hidden("a.b"));
    assert!(!is_hidden(""));
    assert!(is_listed(".hidden", true));
    assert!(!is_listed(".hidden", false));
    assert!(is_listed("shown", false));
    assert!(is_listed("", false));
}

#[test]
fn format_output_always_has_a_listing() {
    assert_eq!(format_output(&[]), Some(String::new()));
    let many: Vec<Entry> = (0..100).map(|i| file(&format!("f{}", i), 0o644, i)).collect();
    let out = format_output(&many).unwrap();
    assert_eq!(out.lines().count(), 100);
}

#[test]
fn list_in_takes_a_row_format_of_eight_columns() {
    let entries = [file("f", 0o644, 1)];
    assert_eq!(
        list_in("{:<}{:<}  {:>}  {:<}  {:<}  {:<}  {:<}  {:<}", &entries),
        format_output(&entries)
    );
    // Two braces of a kind are one brace that is shown, and no column
    assert_eq!(
        list_in("{{{:<}}}{:^}{:>}{:<}{:<}|{:<}{:<}{:<}}}{{", &entries),
        Some("{-}rw-r--r--11000100|12021-03-04f}{\n".to_string())
    );
    assert_eq!(
        list_in("{:<}{:<}{:<}{:<}{:<}{:<}{:<}{:<}", &[]),
        Some(String::new())
    );
    // Row formats of another number of columns
    for format in [
        "",
        "no column",
        "{{:<}}",
        "{:<}",
        "{:<}{:<}{:<}{:<}{:<}{:<}{:<}",
        "{:<}{:<}{:<}{:<}{:<}{:<}{:<}{{}}",
        "{:<}{:<}{:<}{:<}{:<}{:<}{:<}{:<}{:<}",
    ] {
        assert_eq!(list_in(format, &entries), None, "{:?}", format);
    }
    // Texts that are no row format, each with eight columns beside the fault
    let eight = "{:<}{:<}{:<}{:<}{:<}{:<}{:<}{:<}";
    let faults = ["{", "}", "{:", "{:<", "{}", "{:}", "{:x}", "{:<>", "{: <}", "{a}", "{{}", "}}{"];
    for fault in faults {
        for format in [format!("{}{}", eight, fault), format!("{}{}", fault, eight)] {
            assert!(tabular::Table::new_safe(&format).is_err(), "{:?}", format);
            assert_eq!(list_in(&format, &entries), None, "{:?}", format);
        }
    }
}

#[test]
fn list_in_lays_out_as_a_fresh_table_does() {
    let entries = [dir("d", 0o40755), file("f.txt", 0o100600, 1234567)];
    let format = "{:>}|{:^}|{:<}|{:<}|{:<}|{:>}|{:<}|{:<}";
    let mut table = tabular::Table::new(format);
    table.add_row(tabular::Row::from_cells(
        ["d", "rwxr-xr-x", "11", "0", "0", "4096", "2021-03-04", "d"].iter().cloned(),
    ));
    table.add_row(tabular::Row::from_cells(
        ["-", "rw-------", "1", "1000", "100", "1234567", "2021-03-04", "f.txt"].iter().cloned(),
    ));
    assert_eq!(list_in(format, &entries), Some(table.to_string()));
}
