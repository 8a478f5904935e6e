use textkit::head::{
    configure, header, parse_count, parse_positive_int, read_file_with_bytes, read_lines,
};

fn check_parse_positive_int() {
    let res = parse_positive_int("3");
    assert!(res.is_ok());
    assert_eq!(res.unwrap(), 3);

    let res = parse_positive_int("foo");
    assert!(res.is_err());
    assert_eq!(res.unwrap_err().to_string(), "foo".to_string());

    let res = parse_positive_int("0");
    assert!(res.is_err());
    assert_eq!(res.unwrap_err().to_string(), "0".to_string());
}

#[test]
fn lib_test_parse_positive_int() {
    check_parse_positive_int();
}

#[test]
fn lib_my_code_test_parse_positive_int() {
    check_parse_positive_int();
}

#[test]
fn read_lines_takes_the_first_lines_as_they_are() {
    let text = "one\r\ntwo\n\nfour";
    assert_eq!(read_lines(text, 0), "");
    assert_eq!(read_lines(text, 1), "one\r\n");
    assert_eq!(read_lines(text, 3), "one\r\ntwo\n\n");
    assert_eq!(read_lines(text, 4), text);
    assert_eq!(read_lines(text, 10), text);
    assert_eq!(read_lines("", 2), "");
}

#[test]
fn read_file_with_bytes_decodes_what_it_cuts() {
    let input = "ábc".as_bytes();
    assert_eq!(read_file_with_bytes(input, 0), "");
    assert_eq!(read_file_with_bytes(input, 1), "\u{fffd}");
    assert_eq!(read_file_with_bytes(input, 2), "á");
    assert_eq!(read_file_with_bytes(input, 4), "ábc");
    assert_eq!(read_file_with_bytes(input, 100), "ábc");
}

#[test]
fn header_sets_files_apart() {
    assert_eq!(header("a.txt", 0), "==> a.txt <==\n");
    assert_eq!(header("b.txt", 1), "\n==> b.txt <==\n");
    assert_eq!(header("c.txt", 7), "\n==> c.txt <==\n");
}

#[test]
fn head_configure_reads_lines_before_bytes() {
    let files = vec!["a".to_string(), "b".to_string()];
    let config = configure(files.clone(), "10", None).unwrap();
    assert_eq!((config.files, config.lines, config.bytes), (files.clone(), 10, None));
    let config = configure(files.clone(), "+3", Some("7")).unwrap();
    assert_eq!((config.lines, config.bytes), (3, Some(7)));
    assert_eq!(
        configure(files.clone(), "x", Some("y")).unwrap_err(),
        "error: invalid value 'x' for '--lines <LINES>': invalid digit found in string"
    );
    assert_eq!(
        configure(files.clone(), "1", Some("0")).unwrap_err(),
        "error: invalid value '0' for '--bytes <BYTES>': invalid digit found in string"
    );
    assert_eq!(
        parse_count("-1", "--lines <LINES>").unwrap_err(),
        "error: invalid value '-1' for '--lines <LINES>': invalid digit found in string"
    );
    assert_eq!(parse_count("12", "--lines <LINES>"), Ok(12));
}
