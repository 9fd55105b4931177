//! What a run prints: the request as it was understood, then the values of
//! the chosen column, or why there are none.

use crate::args::{Colops, ColopsView};
use crate::column::{position_of, resolve, ColumnId, StringOrNumber};
use crate::file_handling::{failure_message, load, loaded_view, read_input_file, FileType, LoadError, LoadFailure, Table, TableView};
use crate::reader::records_in;
use crate::text::{numeral, numeral_of};
use vstd::prelude::*;
use vstd::string::*;

verus! {

/// What a run leaves behind: the lines for the output stream, the lines for
/// the error stream, and the exit code.
#[derive(Debug, PartialEq, Eq, Clone)]
pub struct Output {
    pub stdout: Vec<String>,
    pub stderr: Vec<String>,
    pub exit_code: u8,
}

/// An `Output` as contracts speak of it.
pub struct OutputView {
    pub stdout: Seq<Seq<char>>,
    pub stderr: Seq<Seq<char>>,
    pub exit_code: int,
}

impl View for Output {
    type V = OutputView;

    open spec fn view(&self) -> OutputView {
        OutputView {
            stdout: self.stdout.deep_view(),
            stderr: self.stderr.deep_view(),
            exit_code: self.exit_code as int,
        }
    }
}

/// The name under which a kind of file is printed.
pub open spec fn kind_name(kind: FileType) -> Seq<char> {
    match kind {
        FileType::CSV => "CSV"@,
        FileType::JSON => "JSON"@,
    }
}

/// The two lines that sum up a loaded file.
pub open spec fn summary(kind: FileType, table: TableView) -> Seq<Seq<char>> {
    seq!["File type: "@ + kind_name(kind), "Number of records: "@ + numeral(table.rows.len())]
}

/// What is printed for a file once loading has ended. A failed load leaves
/// its message on the error stream and the exit code 1. A loaded file is
/// summed up; then come the values of the column, one to a line, or, on the
/// error stream, the word that the column was not found.
pub open spec fn processed(loaded: Result<(FileType, TableView), LoadFailure>, id: ColumnId)
    -> OutputView {
    match loaded {
        Err(e) => OutputView { stdout: seq![], stderr: seq![failure_message(e)], exit_code: 1 },
        Ok((kind, table)) => match position_of(table.header, id) {
            Some(at) => OutputView {
                stdout: summary(kind, table) + seq!["Values in column \""@ + id.text() + "\":"@]
                    + table.column(at),
                stderr: seq![],
                exit_code: 0,
            },
            None => OutputView {
                stdout: summary(kind, table),
                stderr: seq!["Column \""@ + id.text() + "\" not found in file"@],
                exit_code: 0,
            },
        },
    }
}

/// The three lines that say how the request was understood.
pub open spec fn echo(request: ColopsView) -> Seq<Seq<char>> {
    seq![
        "Input file: "@ + request.input_file,
        "Column: "@ + request.column.text(),
        "Operation: "@ + request.operation,
    ]
}

/// What a whole run prints, given how loading ended: the request, then what
/// came of the file.
pub open spec fn concluded(
    request: ColopsView,
    loaded: Result<(FileType, TableView), LoadFailure>,
) -> OutputView {
    let rest = processed(loaded, request.column);
    OutputView { stdout: echo(request) + rest.stdout, ..rest }
}

/// What a whole run prints for a request and the records found in the file
/// that it names.
pub open spec fn ran(request: ColopsView, stream: Seq<Option<Seq<Seq<char>>>>) -> OutputView {
    concluded(request, load(request.input_file, stream))
}

/// Lines put one behind the other read as the first lines followed by the
/// second.
proof fn lemma_lines_joined(head: Vec<String>, tail: Vec<String>, whole: Vec<String>)
    requires
        whole@ == head@ + tail@,
    ensures
        whole.deep_view() == head.deep_view() + tail.deep_view(),
{
    assert forall|i: int| 0 <= i < whole.len() implies #[trigger] whole.deep_view()[i] == (
    head.deep_view() + tail.deep_view())[i] by {
        if i < head.len() {
            assert(whole[i] == head[i]);
        } else {
            assert(whole[i] == tail[i - head.len()]);
        }
    }
    assert(whole.deep_view() =~= head.deep_view() + tail.deep_view());
}

fn labelled(label: &str, value: &str) -> (r: String)
    ensures
        r@ == label@ + value@,
{
    let mut r: String = String::from_str(label);
    r.append(value);
    r
}

fn kind_text(kind: FileType) -> (r: &'static str)
    ensures
        r@ == kind_name(kind),
{
    match kind {
        FileType::CSV => "CSV",
        FileType::JSON => "JSON",
    }
}

/// What is printed for a file, given how loading it ended.
pub fn report(loaded: Result<(FileType, Table), LoadError>, column: &StringOrNumber) -> (out:
    Output)
    ensures
        out@ == processed(loaded_view(loaded), column@),
{
    match loaded {
        Err(e) => {
            let mut stderr: Vec<String> = Vec::new();
            stderr.push(e.message());
            let out = Output { stdout: Vec::new(), stderr, exit_code: 1 };
            proof {
                assert(out.stdout.deep_view() =~= Seq::<Seq<char>>::empty());
                assert(out.stderr.deep_view() =~= seq![failure_message(e@)]);
            }
            out
        },
        Ok((kind, table)) => {
            let name: String = column.as_str();
            let count: String = numeral_of(table.row_count() as u64);
            let mut stdout: Vec<String> = Vec::new();
            stdout.push(labelled("File type: ", kind_text(kind)));
            stdout.push(labelled("Number of records: ", count.as_str()));
            assert(stdout.deep_view() =~= summary(kind, table@));
            match resolve(&table, column) {
                Some(at) => {
                    let mut title: String = labelled("Values in column \"", name.as_str());
                    title.append("\":");
                    stdout.push(title);
                    let mut cells: Vec<String> = table.column(at);
                    let ghost head = stdout;
                    let ghost tail = cells;
                    stdout.append(&mut cells);
                    let out = Output { stdout, stderr: Vec::new(), exit_code: 0 };
                    proof {
                        assert(head.deep_view() =~= summary(kind, table@) + seq![
                            "Values in column \""@ + column@.text() + "\":"@,
                        ]);
                        lemma_lines_joined(head, tail, out.stdout);
                        assert(out.stderr.deep_view() =~= Seq::<Seq<char>>::empty());
                    }
                    out
                },
                None => {
                    let mut line: String = labelled("Column \"", name.as_str());
                    line.append("\" not found in file");
                    let mut stderr: Vec<String> = Vec::new();
                    stderr.push(line);
                    let out = Output { stdout, stderr, exit_code: 0 };
                    proof {
                        assert(out.stderr.deep_view() =~= seq![
                            "Column \""@ + column@.text() + "\" not found in file"@,
                        ]);
                    }
                    out
                },
            }
        },
    }
}

/// Loads the file at `path`, whose content is `data`, and reports on the
/// column that `column` names.
pub fn process_file(path: &str, data: &[u8], column: &StringOrNumber) -> (out: Output)
    ensures
        out@ == processed(load(path@, records_in(data@)), column@),
{
    report(read_input_file(path, data), column)
}

/// The lines that say how the request was understood.
pub fn echo_lines(colops: &Colops) -> (lines: Vec<String>)
    ensures
        lines.deep_view() == echo(colops@),
{
    let column: String = colops.column.as_str();
    let mut lines: Vec<String> = Vec::new();
    lines.push(labelled("Input file: ", colops.input_file.as_str()));
    lines.push(labelled("Column: ", column.as_str()));
    lines.push(labelled("Operation: ", colops.operation.as_str()));
    assert(lines.deep_view() =~= echo(colops@));
    lines
}

/// A whole run, given how loading the file ended. This is for a caller that
/// loads the file itself, or could not read it.
pub fn conclude(colops: &Colops, loaded: Result<(FileType, Table), LoadError>) -> (out: Output)
    ensures
        out@ == concluded(colops@, loaded_view(loaded)),
{
    let rest: Output = report(loaded, &colops.column);
    let Output { stdout: mut rest_stdout, stderr, exit_code } = rest;
    let mut stdout: Vec<String> = echo_lines(colops);
    let ghost head = stdout;
    let ghost tail = rest_stdout;
    stdout.append(&mut rest_stdout);
    let out = Output { stdout, stderr, exit_code };
    proof {
        lemma_lines_joined(head, tail, out.stdout);
    }
    out
}

/// A whole run on a request and the content of the file that it names.
pub fn run(colops: &Colops, data: &[u8]) -> (out: Output)
    ensures
        out@ == ran(colops@, records_in(data@)),
{
    conclude(colops, read_input_file(colops.input_file.as_str(), data))
}

} // verus!
