use colops::text::{chars_of, decimal_of, numeral_of, parse_i32, range_matches, to_lower};
use colops::{resolve, StringOrNumber, Table};

fn cells(row: &[&str]) -> Vec<String> {
    row.iter().map(|c| c.to_string()).collect()
}

fn three_columns() -> Table {
    Table::new(
        cells(&["col1", "col2", "col3"]),
        vec![cells(&["a", "b", "c"]), cells(&["d", "e", "f"])],
    )
    .unwrap()
}

#[test]
fn resolve_finds_a_column_by_name() {
    let table = three_columns();
    let id = StringOrNumber::String("col2".to_string());
    assert_eq!(resolve(&table, &id), Some(1));
}

#[test]
fn resolve_reports_a_missing_column() {
    let table = three_columns();
    let id = StringOrNumber::String("missing".to_string());
    assert_eq!(resolve(&table, &id), None);
}

#[test]
fn resolve_takes_a_number_for_a_position() {
    let table = three_columns();
    assert_eq!(resolve(&table, &StringOrNumber::Number(0)), Some(0));
    assert_eq!(resolve(&table, &StringOrNumber::Number(2)), Some(2));
    assert_eq!(resolve(&table, &StringOrNumber::Number(3)), None);
    assert_eq!(resolve(&table, &StringOrNumber::Number(-1)), None);
    assert_eq!(resolve(&table, &StringOrNumber::Number(i32::MAX)), None);
}

#[test]
fn a_number_is_never_a_name() {
    let table = Table::new(cells(&["x", "0", "7"]), vec![cells(&["a", "b", "c"])]).unwrap();
    assert_eq!(resolve(&table, &StringOrNumber::Number(0)), Some(0));
    assert_eq!(resolve(&table, &StringOrNumber::Number(7)), None);
    assert_eq!(
        resolve(&table, &StringOrNumber::String("7".to_string())),
        Some(2)
    );
}

#[test]
fn the_first_of_two_equal_names_wins() {
    let table = Table::new(cells(&["a", "b", "a", "b"]), vec![cells(&["1", "2", "3", "4"])])
        .unwrap();
    assert_eq!(
        resolve(&table, &StringOrNumber::String("b".to_string())),
        Some(1)
    );
    assert_eq!(
        resolve(&table, &StringOrNumber::String("a".to_string())),
        Some(0)
    );
}

#[test]
fn names_are_matched_exactly() {
    let table = three_columns();
    assert_eq!(
        resolve(&table, &StringOrNumber::String("COL2".to_string())),
        None
    );
    assert_eq!(
        resolve(&table, &StringOrNumber::String("col2 ".to_string())),
        None
    );
    assert_eq!(
        resolve(&table, &StringOrNumber::String("".to_string())),
        None
    );
}

#[test]
fn input_that_reads_as_a_number_is_a_number() {
    assert_eq!(StringOrNumber::from_str("12"), Ok(StringOrNumber::Number(12)));
    assert_eq!(StringOrNumber::from_str("-3"), Ok(StringOrNumber::Number(-3)));
    assert_eq!(StringOrNumber::from_str("+4"), Ok(StringOrNumber::Number(4)));
    assert_eq!(StringOrNumber::from_str("007"), Ok(StringOrNumber::Number(7)));
    assert_eq!(
        StringOrNumber::from_str("2147483647"),
        Ok(StringOrNumber::Number(i32::MAX))
    );
    assert_eq!(
        StringOrNumber::from_str("-2147483648"),
        Ok(StringOrNumber::Number(i32::MIN))
    );
}

#[test]
fn other_input_is_a_name() {
    for input in [
        "name",
        "",
        "-",
        "+",
        "1.5",
        "1e3",
        " 1",
        "1 ",
        "12a",
        "--1",
        "2147483648",
        "-2147483649",
        "99999999999999999999999999",
        "\u{664}\u{662}",
    ] {
        assert_eq!(
            StringOrNumber::from_str(input),
            Ok(StringOrNumber::String(input.to_string()))
        );
    }
}

#[test]
fn reading_agrees_with_the_standard_library() {
    for input in [
        "0", "-0", "+0", "00", "1", "-1", "42", "+42", "2147483647", "2147483648", "-2147483648",
        "-2147483649", "4294967296", "abc", "", "+", "-", "1_000", "0x10", "٣",
    ] {
        assert_eq!(parse_i32(input), input.parse::<i32>().ok(), "{input:?}");
    }
}

#[test]
fn identifiers_as_text() {
    assert_eq!(StringOrNumber::String("age".to_string()).as_str(), "age");
    assert_eq!(StringOrNumber::Number(0).as_str(), "0");
    assert_eq!(StringOrNumber::Number(30).as_str(), "30");
    assert_eq!(StringOrNumber::Number(-30).as_str(), "-30");
    assert_eq!(StringOrNumber::Number(i32::MAX).as_str(), "2147483647");
    assert_eq!(StringOrNumber::Number(i32::MIN).as_str(), "-2147483648");
}

#[test]
fn identifiers_as_numbers() {
    assert_eq!(StringOrNumber::String("3".to_string()).as_number(), None);
    assert_eq!(StringOrNumber::Number(3).as_number(), Some(3));
    assert_eq!(StringOrNumber::Number(0).as_number(), Some(0));
    assert_eq!(StringOrNumber::Number(-1).as_number(), None);
    assert_eq!(
        StringOrNumber::Number(i32::MAX).as_number(),
        Some(2147483647)
    );
}

#[test]
fn a_number_written_and_read_again_is_the_same() {
    for n in [0, 1, -1, 9, 10, -10, 99, 100, 12345, -98765, i32::MAX, i32::MIN] {
        let text = StringOrNumber::Number(n).as_str();
        assert_eq!(StringOrNumber::from_str(&text), Ok(StringOrNumber::Number(n)));
    }
}

#[test]
fn numerals() {
    assert_eq!(numeral_of(0), "0");
    assert_eq!(numeral_of(7), "7");
    assert_eq!(numeral_of(10), "10");
    assert_eq!(numeral_of(1905), "1905");
    assert_eq!(numeral_of(u64::MAX), "18446744073709551615");
    assert_eq!(decimal_of(-5), "-5");
    assert_eq!(decimal_of(5), "5");
}

#[test]
fn characters_and_case() {
    assert_eq!(chars_of("aé字"), vec!['a', 'é', '字']);
    assert_eq!(chars_of(""), Vec::<char>::new());
    assert_eq!(to_lower('A'), 'a');
    assert_eq!(to_lower('Z'), 'z');
    assert_eq!(to_lower('m'), 'm');
    assert_eq!(to_lower('@'), '@');
    assert_eq!(to_lower('['), '[');
    assert_eq!(to_lower('É'), 'É');
    let word: Vec<char> = "a.CsV".chars().collect();
    assert!(range_matches(&word, 2, 5, "csv"));
    assert!(!range_matches(&word, 1, 5, "csv"));
    assert!(!range_matches(&word, 3, 5, "csv"));
    assert!(!range_matches(&word, 2, 4, "csv"));
    assert!(range_matches(&word, 2, 4, "CS"));
    assert!(range_matches(&word, 5, 5, ""));
    assert!(range_matches(&word, 0, 0, ""));
}

#[test]
fn a_column_is_read_top_down() {
    let table = three_columns();
    assert_eq!(table.column(0), cells(&["a", "d"]));
    assert_eq!(table.column(2), cells(&["c", "f"]));
    assert_eq!(table.row_count(), 2);
    assert_eq!(table.column_count(), 3);
    assert_eq!(table.header(), &cells(&["col1", "col2", "col3"]));
    assert_eq!(table.rows().len(), 2);
}
