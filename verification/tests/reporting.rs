use colops::report::{echo_lines, report};
use colops::{get_args, process_file, run, Colops, LoadError, Output, StringOrNumber};

fn lines(text: &[&str]) -> Vec<String> {
    text.iter().map(|l| l.to_string()).collect()
}

fn words(args: &[&str]) -> Vec<String> {
    args.iter().map(|a| a.to_string()).collect()
}

#[test]
fn cli_test_valid_arguments() {
    let args = words(&["colops", "-f", "input.csv", "-c", "name", "-o", "distinct"]);
    let colops = get_args(&args).unwrap();
    let out = run(&colops, b"name,age\nAlice,30\n");
    assert_eq!(out.exit_code, 0);
    assert!(out.stdout.contains(&"Input file: input.csv".to_string()));
    assert!(out.stdout.contains(&"Column: name".to_string()));
    assert!(out.stdout.contains(&"Operation: distinct".to_string()));
}

#[test]
fn a_column_that_is_there_is_printed() {
    let column = StringOrNumber::String("name".to_string());
    let out = process_file("input.csv", b"name,age\nAlice,30\n", &column);
    assert_eq!(
        out,
        Output {
            stdout: lines(&[
                "File type: CSV",
                "Number of records: 1",
                "Values in column \"name\":",
                "Alice",
            ]),
            stderr: Vec::new(),
            exit_code: 0,
        }
    );
    assert!(out.stdout.contains(&"Alice".to_string()));
}

#[test]
fn a_column_that_is_not_there_is_reported() {
    let column = StringOrNumber::String("missing".to_string());
    let out = process_file("input.csv", b"name,age\nAlice,30\n", &column);
    assert_eq!(
        out,
        Output {
            stdout: lines(&["File type: CSV", "Number of records: 1"]),
            stderr: lines(&["Column \"missing\" not found in file"]),
            exit_code: 0,
        }
    );
    assert!(out.stderr[0].contains("not found"));
    assert!(!out.stdout.contains(&"Alice".to_string()));
    assert!(!out.stdout.contains(&"30".to_string()));
}

#[test]
fn a_column_by_position() {
    let out = process_file(
        "people.JSON",
        b"name,age\nAlice,30\nBob,25\n",
        &StringOrNumber::Number(1),
    );
    assert_eq!(
        out.stdout,
        lines(&[
            "File type: JSON",
            "Number of records: 2",
            "Values in column \"1\":",
            "30",
            "25",
        ])
    );
    assert_eq!(out.stderr, Vec::<String>::new());
    assert_eq!(out.exit_code, 0);
}

#[test]
fn a_position_past_the_header_is_reported() {
    let out = process_file("p.csv", b"name,age\nAlice,30\n", &StringOrNumber::Number(2));
    assert_eq!(out.stdout, lines(&["File type: CSV", "Number of records: 1"]));
    assert_eq!(out.stderr, lines(&["Column \"2\" not found in file"]));
    assert_eq!(out.exit_code, 0);
}

#[test]
fn a_failed_load_ends_the_run() {
    let column = StringOrNumber::String("name".to_string());
    let out = process_file("input.txt", b"name,age\nAlice,30\n", &column);
    assert_eq!(
        out,
        Output {
            stdout: Vec::new(),
            stderr: lines(&[
                "Unsupported file type: input.txt. Only CSV and JSON files are supported."
            ]),
            exit_code: 1,
        }
    );
    let out = process_file("input.csv", b"name,age\n", &column);
    assert_eq!(out.stderr, lines(&["File has no records"]));
    assert_eq!(out.exit_code, 1);
}

#[test]
fn a_file_that_cannot_be_read_ends_the_run() {
    let column = StringOrNumber::String("name".to_string());
    let out = report(Err(LoadError::IoError("permission denied".to_string())), &column);
    assert_eq!(
        out,
        Output {
            stdout: Vec::new(),
            stderr: lines(&["permission denied"]),
            exit_code: 1,
        }
    );
}

#[test]
fn the_request_is_echoed_first() {
    let colops = Colops {
        input_file: "input.csv".to_string(),
        column: StringOrNumber::Number(0),
        operation: "distinct".to_string(),
    };
    assert_eq!(
        echo_lines(&colops),
        lines(&["Input file: input.csv", "Column: 0", "Operation: distinct"])
    );
    let out = run(&colops, b"name,age\nAlice,30\nBob,25\n");
    assert_eq!(
        out,
        Output {
            stdout: lines(&[
                "Input file: input.csv",
                "Column: 0",
                "Operation: distinct",
                "File type: CSV",
                "Number of records: 2",
                "Values in column \"0\":",
                "Alice",
                "Bob",
            ]),
            stderr: Vec::new(),
            exit_code: 0,
        }
    );
}

#[test]
fn the_request_is_echoed_even_if_the_load_fails() {
    let colops = Colops {
        input_file: "input".to_string(),
        column: StringOrNumber::String("name".to_string()),
        operation: "count".to_string(),
    };
    let out = run(&colops, b"");
    assert_eq!(
        out,
        Output {
            stdout: lines(&["Input file: input", "Column: name", "Operation: count"]),
            stderr: lines(&["Invalid file extension: input"]),
            exit_code: 1,
        }
    );
}

#[test]
fn end_to_end_from_the_command_line() {
    let args = words(&["colops", "-f", "input.csv", "-c", "name", "-o", "print"]);
    let out = run(&get_args(&args).unwrap(), b"name,age\nAlice,30\n");
    assert!(out.stdout.contains(&"Alice".to_string()));
    let args = words(&["colops", "-f", "input.csv", "-c", "missing", "-o", "print"]);
    let out = run(&get_args(&args).unwrap(), b"name,age\nAlice,30\n");
    assert!(out.stderr.iter().any(|l| l.contains("not found")));
    assert!(!out.stdout.contains(&"Alice".to_string()));
}
