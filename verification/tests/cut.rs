use csv::StringRecord;
use textkit::cut::configure;
use textkit::extract::{
    extract_bytes, extract_chars, extract_fields, join_fields, select_bytes, Extract,
};
use textkit::ranges::{
    convert_to_list, is_number, is_one_byte, parse_index, parse_pos, parse_token,
    validate_element,
};

fn check_parse_pos() {
    // The empty string is an error
    assert!(parse_pos("").is_err());

    // Zero is an error
    let res = parse_pos("0");
    assert!(res.is_err());
    assert_eq!(res.unwrap_err().to_string(), "illegal list value: \"0\"",);

    let res = parse_pos("0-1");
    assert!(res.is_err());
    assert_eq!(res.unwrap_err().to_string(), "illegal list value: \"0\"",);

    // A leading "+" is an error
    let res = parse_pos("+1");
    assert!(res.is_err());
    assert_eq!(res.unwrap_err().to_string(), "illegal list value: \"+1\"",);

    let res = parse_pos("+1-2");
    assert!(res.is_err());
    assert_eq!(res.unwrap_err().to_string(), "illegal list value: \"+1-2\"",);

    let res = parse_pos("1-+2");
    assert!(res.is_err());
    assert_eq!(res.unwrap_err().to_string(), "illegal list value: \"1-+2\"",);

    // Any non-number is an error
    let res = parse_pos("a");
    assert!(res.is_err());
    assert_eq!(res.unwrap_err().to_string(), "illegal list value: \"a\"",);

    let res = parse_pos("1,a");
    assert!(res.is_err());
    assert_eq!(res.unwrap_err().to_string(), "illegal list value: \"a\"",);

    let res = parse_pos("1-a");
    assert!(res.is_err());
    assert_eq!(res.unwrap_err().to_string(), "illegal list value: \"1-a\"",);

    let res = parse_pos("a-1");
    assert!(res.is_err());
    assert_eq!(res.unwrap_err().to_string(), "illegal list value: \"a-1\"",);

    // Wonky ranges
    let res = parse_pos("-");
    assert!(res.is_err());

    let res = parse_pos(",");
    assert!(res.is_err());

    let res = parse_pos("1,");
    assert!(res.is_err());

    let res = parse_pos("1-");
    assert!(res.is_err());

    let res = parse_pos("1-1-1");
    assert!(res.is_err());

    let res = parse_pos("1-1-a");
    assert!(res.is_err());

    // The first number must be lower than the second
    let res = parse_pos("1-1");
    assert!(res.is_err());
    assert_eq!(
        res.unwrap_err().to_string(),
        "First number in range (1) must be lower than second number (1)"
    );

    let res = parse_pos("2-1");
    assert!(res.is_err());
    assert_eq!(
        res.unwrap_err().to_string(),
        "First number in range (2) must be lower than second number (1)"
    );

    // All the following are acceptable
    let res = parse_pos("1");
    assert!(res.is_ok());
    assert_eq!(res.unwrap(), vec![0..1]);

    let res = parse_pos("01");
    assert!(res.is_ok());
    assert_eq!(res.unwrap(), vec![0..1]);

    let res = parse_pos("1,3");
    assert!(res.is_ok());
    assert_eq!(res.unwrap(), vec![0..1, 2..3]);

    let res = parse_pos("001,0003");
    assert!(res.is_ok());
    assert_eq!(res.unwrap(), vec![0..1, 2..3]);

    let res = parse_pos("1-3");
    assert!(res.is_ok());
    assert_eq!(res.unwrap(), vec![0..3]);

    let res = parse_pos("0001-03");
    assert!(res.is_ok());
    assert_eq!(res.unwrap(), vec![0..3]);

    let res = parse_pos("1,7,3-5");
    assert!(res.is_ok());
    assert_eq!(res.unwrap(), vec![0..1, 6..7, 2..5]);

    let res = parse_pos("15,19-20");
    assert!(res.is_ok());
    assert_eq!(res.unwrap(), vec![14..15, 18..20]);
}

#[test]
fn mylib_test_parse_pos() {
    check_parse_pos();
}

#[test]
fn mylib_2_test_parse_pos() {
    check_parse_pos();
}

#[test]
fn test_extract_chars() {
    assert_eq!(extract_chars("", &[0..1]), "".to_string());
    assert_eq!(extract_chars("ábc", &[0..1]), "á".to_string());
    assert_eq!(extract_chars("ábc", &[0..1, 2..3]), "ác".to_string());
    assert_eq!(extract_chars("ábc", &[0..3]), "ábc".to_string());
    assert_eq!(extract_chars("ábc", &[2..3, 1..2]), "cb".to_string());
    assert_eq!(extract_chars("ábc", &[0..1, 1..2, 4..5]), "áb".to_string());
}

#[test]
fn test_extract_bytes() {
    assert_eq!(extract_bytes("ábc", &[0..1]), "�".to_string());
    assert_eq!(extract_bytes("ábc", &[0..2]), "á".to_string());
    assert_eq!(extract_bytes("ábc", &[0..3]), "áb".to_string());
    assert_eq!(extract_bytes("ábc", &[0..4]), "ábc".to_string());
    assert_eq!(extract_bytes("ábc", &[3..4, 2..3]), "cb".to_string());
    assert_eq!(extract_bytes("ábc", &[0..2, 5..6]), "á".to_string());
}

#[test]
fn test_extract_fields() {
    let rec = StringRecord::from(vec!["Captain", "Sham", "12345"]);
    let rec: Vec<String> = rec.iter().map(String::from).collect();
    assert_eq!(extract_fields(&rec, &[0..1]), &["Captain"]);
    assert_eq!(extract_fields(&rec, &[1..2]), &["Sham"]);
    assert_eq!(extract_fields(&rec, &[0..1, 2..3]), &["Captain", "12345"]);
    assert_eq!(extract_fields(&rec, &[0..1, 3..4]), &["Captain"]);
    assert_eq!(extract_fields(&rec, &[1..2, 0..1]), &["Sham", "Captain"]);
}

#[test]
fn parse_pos_of_nothing_says_so() {
    assert_eq!(parse_pos("").unwrap_err().to_string(), "Range cannot be empty!");
}

#[test]
fn parse_pos_quotes_the_part_at_fault() {
    assert_eq!(parse_pos("3-0").unwrap_err().to_string(), "illegal list value: \"0\"");
    assert_eq!(parse_pos("0-0").unwrap_err().to_string(), "illegal list value: \"0\"");
    assert_eq!(parse_pos("00").unwrap_err().to_string(), "illegal list value: \"00\"");
    assert_eq!(parse_pos("2-00").unwrap_err().to_string(), "illegal list value: \"00\"");
    assert_eq!(parse_pos(",").unwrap_err().to_string(), "illegal list value: \"\"");
    assert_eq!(parse_pos("1,").unwrap_err().to_string(), "illegal list value: \"\"");
    assert_eq!(parse_pos(",1").unwrap_err().to_string(), "illegal list value: \"\"");
    assert_eq!(parse_pos("-").unwrap_err().to_string(), "illegal list value: \"-\"");
    assert_eq!(parse_pos("1-").unwrap_err().to_string(), "illegal list value: \"1-\"");
    assert_eq!(parse_pos("-1").unwrap_err().to_string(), "illegal list value: \"-1\"");
    assert_eq!(parse_pos("1-1-1").unwrap_err().to_string(), "illegal list value: \"1-1-1\"");
    assert_eq!(parse_pos("1-1-a").unwrap_err().to_string(), "illegal list value: \"1-1-a\"");
    assert_eq!(parse_pos("1 ").unwrap_err().to_string(), "illegal list value: \"1 \"");
    assert_eq!(parse_pos("1, 2").unwrap_err().to_string(), "illegal list value: \" 2\"");
    assert_eq!(parse_pos("١").unwrap_err().to_string(), "illegal list value: \"١\"");
    assert_eq!(parse_pos("1-١").unwrap_err().to_string(), "illegal list value: \"1-١\"");
    assert_eq!(parse_pos("2,a,0").unwrap_err().to_string(), "illegal list value: \"a\"");
    assert_eq!(parse_pos("2,0,a").unwrap_err().to_string(), "illegal list value: \"0\"");
    assert_eq!(
        parse_pos("5,9-3,a").unwrap_err().to_string(),
        "First number in range (9) must be lower than second number (3)"
    );
    assert_eq!(
        parse_pos("010-0010").unwrap_err().to_string(),
        "First number in range (10) must be lower than second number (10)"
    );
}

#[test]
fn parse_pos_knows_the_limit_of_the_machine() {
    let max = usize::MAX.to_string();
    assert_eq!(parse_pos(&max).unwrap(), vec![usize::MAX - 1..usize::MAX]);
    assert_eq!(parse_pos(&format!("1-{}", max)).unwrap(), vec![0..usize::MAX]);
    let above = format!("{}0", max);
    assert_eq!(
        parse_pos(&above).unwrap_err().to_string(),
        format!("illegal list value: \"{}\"", above)
    );
    assert_eq!(
        parse_pos(&format!("7-{}", above)).unwrap_err().to_string(),
        format!("illegal list value: \"{}\"", above)
    );
    assert_eq!(
        parse_pos(&format!("{}-{}", above, max)).unwrap_err().to_string(),
        format!("illegal list value: \"{}\"", above)
    );
    assert_eq!(
        parse_pos(&format!("{}-{}", max, max)).unwrap_err().to_string(),
        format!("First number in range ({}) must be lower than second number ({})", max, max)
    );
}

#[test]
fn parse_pos_of_every_number_is_its_position() {
    for n in (1..2000usize).chain([65535, 65536, 4294967295, usize::MAX]) {
        assert_eq!(parse_pos(&n.to_string()).unwrap(), vec![n - 1..n]);
    }
}

#[test]
fn parse_pos_of_every_pair_is_its_interval() {
    for n1 in 1..40usize {
        for n2 in 1..40usize {
            let res = parse_pos(&format!("{}-{}", n1, n2));
            if n1 < n2 {
                assert_eq!(res.unwrap(), vec![n1 - 1..n2]);
            } else {
                assert_eq!(
                    res.unwrap_err().to_string(),
                    format!(
                        "First number in range ({}) must be lower than second number ({})",
                        n1, n2
                    )
                );
            }
        }
    }
}

#[test]
fn parse_pos_keeps_the_order_of_the_tokens() {
    assert_eq!(parse_pos("3,1,3").unwrap(), vec![2..3, 0..1, 2..3]);
    assert_eq!(parse_pos("5-7,1-9,5-7,2").unwrap(), vec![4..7, 0..9, 4..7, 1..2]);
}

#[test]
fn parse_pos_passes_over_leading_zeros() {
    assert_eq!(parse_pos("001,0003").unwrap(), parse_pos("1,3").unwrap());
    assert_eq!(parse_pos("0001-03,007").unwrap(), parse_pos("1-3,7").unwrap());
    let long = format!("{}1", "0".repeat(500));
    assert_eq!(parse_pos(&long).unwrap(), vec![0..1]);
}

#[test]
fn parse_index_counts_from_zero() {
    assert_eq!(parse_index("1"), Ok(0));
    assert_eq!(parse_index("0012"), Ok(11));
    assert_eq!(parse_index("0"), Err("illegal list value: \"0\"".to_string()));
    assert_eq!(parse_index("+1"), Err("illegal list value: \"+1\"".to_string()));
    assert_eq!(parse_index("-1"), Err("illegal list value: \"-1\"".to_string()));
    assert_eq!(parse_index(""), Err("illegal list value: \"\"".to_string()));
    assert_eq!(parse_index("1a"), Err("illegal list value: \"1a\"".to_string()));
}

#[test]
fn validate_element_takes_zero() {
    assert_eq!(validate_element("0").unwrap(), 0);
    assert_eq!(validate_element("042").unwrap(), 42);
    assert_eq!(validate_element(&usize::MAX.to_string()).unwrap(), usize::MAX);
    assert_eq!(
        validate_element("+42").unwrap_err().to_string(),
        "illegal list value: \"+42\""
    );
    assert_eq!(validate_element("4 2").unwrap_err().to_string(), "illegal list value: \"4 2\"");
    assert_eq!(validate_element("").unwrap_err().to_string(), "illegal list value: \"\"");
}

#[test]
fn convert_to_list_reads_a_pair() {
    assert_eq!(convert_to_list("2-5").unwrap(), 1..5);
    assert_eq!(convert_to_list("1-2").unwrap(), 0..2);
    assert_eq!(convert_to_list("7").unwrap_err().to_string(), "illegal list value: \"7\"");
    assert_eq!(convert_to_list("2--5").unwrap_err().to_string(), "illegal list value: \"2--5\"");
    assert_eq!(
        convert_to_list("5-2").unwrap_err().to_string(),
        "First number in range (5) must be lower than second number (2)"
    );
    assert_eq!(parse_token("7").unwrap(), 6..7);
    assert_eq!(parse_token("2-5").unwrap(), 1..5);
    assert_eq!(parse_token("2,5").unwrap_err().to_string(), "illegal list value: \"2,5\"");
}

#[test]
fn is_one_byte_takes_a_single_byte() {
    assert_eq!(is_one_byte("\t".to_string()), Ok(()));
    assert_eq!(is_one_byte(",".to_string()), Ok(()));
    assert_eq!(is_one_byte("\u{7f}".to_string()), Ok(()));
    assert_eq!(
        is_one_byte(",,".to_string()),
        Err("--delim \",,\" must be a single byte".to_string())
    );
    assert_eq!(
        is_one_byte("".to_string()),
        Err("--delim \"\" must be a single byte".to_string())
    );
    assert_eq!(
        is_one_byte("é".to_string()),
        Err("--delim \"é\" must be a single byte".to_string())
    );
}

#[test]
fn is_number_takes_what_fits_32_bits() {
    assert_eq!(is_number("0".to_string()), Ok(()));
    assert_eq!(is_number("+17".to_string()), Ok(()));
    assert_eq!(is_number("4294967295".to_string()), Ok(()));
    assert_eq!(
        is_number("4294967296".to_string()),
        Err("illegal list value: \"4294967296\"".to_string())
    );
    assert_eq!(is_number("-1".to_string()), Err("illegal list value: \"-1\"".to_string()));
    assert_eq!(is_number("a".to_string()), Err("illegal list value: \"a\"".to_string()));
    assert_eq!(is_number("".to_string()), Err("illegal list value: \"\"".to_string()));
}

#[test]
fn extract_clips_and_repeats() {
    assert_eq!(extract_chars("ábc", &[0..1, 4..5]), "á");
    assert_eq!(extract_chars("ábc", &[1..9]), "bc");
    assert_eq!(extract_chars("ábc", &[3..4]), "");
    assert_eq!(extract_chars("ábc", &[1..2, 1..2, 0..3, 1..2]), "bbábcb");
    assert_eq!(extract_chars("ábc", &[]), "");
    assert_eq!(extract_bytes("ábc", &[2..9]), "bc");
    assert_eq!(extract_bytes("ábc", &[1..9]), "\u{fffd}bc");
    assert_eq!(extract_bytes("ábc", &[4..5]), "");
    assert_eq!(extract_bytes("ábc", &[2..3, 2..3, 0..2]), "bbá");
    assert_eq!(extract_bytes("ábc", &[0..1, 1..2]), "á");
    assert_eq!(select_bytes("ábc".as_bytes(), &[1..2, 0..1, 3..9]), vec![0xa1, 0xc3, b'c']);
    let rec = vec!["Captain".to_string(), "Sham".to_string(), "12345".to_string()];
    assert_eq!(extract_fields(&rec, &[1..9]), &["Sham", "12345"]);
    assert_eq!(extract_fields(&rec, &[2..3, 2..3, 0..2]), &["12345", "12345", "Captain", "Sham"]);
    assert!(extract_fields(&rec, &[3..4]).is_empty());
    assert!(extract_fields(&[], &[0..4]).is_empty());
}

#[test]
#[allow(clippy::reversed_empty_ranges)]
fn extract_passes_over_an_interval_that_holds_nothing() {
    let backwards = std::ops::Range { start: 2, end: 1 };
    let empty = std::ops::Range { start: 1, end: 1 };
    assert_eq!(extract_chars("abc", &[backwards.clone(), 0..1, empty.clone()]), "a");
    assert_eq!(extract_bytes("abc", &[backwards.clone(), 0..1, empty.clone()]), "a");
    let rec = vec!["x".to_string(), "y".to_string()];
    assert_eq!(extract_fields(&rec, &[backwards, 0..1, empty]), &["x"]);
}

#[test]
fn extraction_gives_the_same_again() {
    let positions = parse_pos("3,1-2,9,2").unwrap();
    let line = "añb\u{10348}c";
    let first = (extract_chars(line, &positions), extract_bytes(line, &positions));
    for _ in 0..3 {
        assert_eq!((extract_chars(line, &positions), extract_bytes(line, &positions)), first);
    }
    assert_eq!(first.0, "baññ");
    assert_eq!(first.1, "\u{fffd}a\u{fffd}c\u{fffd}");
    let rec = vec!["x".to_string(), "y".to_string(), "z".to_string()];
    assert_eq!(extract_fields(&rec, &positions), extract_fields(&rec, &positions));
    assert_eq!(extract_fields(&rec, &positions), &["z", "x", "y", "y"]);
}

#[test]
fn bytes_and_chars_agree_on_ascii() {
    let positions = parse_pos("2-4,1,9-20,3").unwrap();
    let line = "The quick brown fox\n";
    assert_eq!(extract_bytes(line, &positions), extract_chars(line, &positions));
    assert_eq!(extract_bytes(line, &positions), "he Tk brown fox\ne");
    assert_eq!(extract_bytes("ábc", &[0..4]), "ábc");
    assert_eq!(extract_bytes("ábc", &[0..400]), "ábc");
}

#[test]
fn join_fields_sets_the_delimiter_between() {
    let fields = vec!["a".to_string(), "".to_string(), "c".to_string()];
    assert_eq!(join_fields(&fields, ","), "a,,c");
    assert_eq!(join_fields(&fields[..1], ","), "a");
    assert_eq!(join_fields(&[], ","), "");
    assert_eq!(join_fields(&fields, ""), "ac");
    assert_eq!(join_fields(&fields, "<>"), "a<><>c");
}

#[test]
fn extract_selects_by_its_mode() {
    let list = parse_pos("2,1").unwrap();
    let rec = vec!["Captain".to_string(), "Sham".to_string(), "12345".to_string()];
    let fields = Extract::Fields(list.clone());
    assert_eq!(fields.select_from_record(&rec, "\t"), Some("Sham\tCaptain".to_string()));
    assert_eq!(fields.select_from_line("ábc"), None);
    let bytes = Extract::Bytes(list.clone());
    assert_eq!(bytes.select_from_line("ábc"), Some("\u{fffd}\u{fffd}".to_string()));
    assert_eq!(bytes.select_from_record(&rec, "\t"), None);
    let chars = Extract::Chars(list);
    assert_eq!(*chars.position_list(), vec![1..2, 0..1]);
    assert_eq!(chars.select_from_line("ábc"), Some("bá".to_string()));
    assert_eq!(chars.select_from_record(&rec, "\t"), None);
}

#[test]
fn configure_chooses_the_mode() {
    let files = vec!["a.txt".to_string()];
    let config = configure(files.clone(), ",", Some("1,3"), None, None).unwrap();
    assert_eq!(config.files, files);
    assert_eq!(config.delimiter, b',');
    assert!(matches!(config.extract, Extract::Fields(ref list) if *list == vec![0..1, 2..3]));
    let config = configure(files.clone(), "\t", None, Some("2-4"), None).unwrap();
    assert!(matches!(config.extract, Extract::Bytes(ref list) if *list == vec![1..4]));
    let config = configure(files.clone(), "\t", None, None, Some("7")).unwrap();
    assert!(matches!(config.extract, Extract::Chars(ref list) if *list == vec![6..7]));
    let config = configure(files.clone(), "\t", Some("1"), Some("2"), Some("3")).unwrap();
    assert!(matches!(config.extract, Extract::Fields(ref list) if *list == vec![0..1]));
}

#[test]
fn configure_reports_the_first_fault() {
    assert_eq!(
        configure(vec![], ",,", Some("a"), None, None).unwrap_err(),
        "--delim \",,\" must be a single byte"
    );
    assert_eq!(
        configure(vec![], "é", Some("1"), None, None).unwrap_err(),
        "--delim \"é\" must be a single byte"
    );
    assert_eq!(
        configure(vec![], ",", Some("1"), Some("0"), Some("a")).unwrap_err(),
        "illegal list value: \"0\""
    );
    assert_eq!(
        configure(vec![], ",", None, None, Some("")).unwrap_err(),
        "Range cannot be empty!"
    );
    assert_eq!(
        configure(vec![], ",", None, None, None).unwrap_err(),
        "the following required arguments were not provided:\n  \
        <--fields <FIELDS>|--bytes <BYTES>|--chars <CHARS>>"
    );
}
