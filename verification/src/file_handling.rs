//! Loading a table: the kind of file that a path names, the records that its
//! bytes hold, and the checks that make a table of them.

use crate::reader::{all_readable, first_unreadable, lemma_first_unreadable_unique, parse_records, records_in, rows_of};
use crate::text::{chars_of, numeral, numeral_of, range_matches, same_ignoring_case};
use vstd::prelude::*;
use vstd::string::*;

verus! {

/// The kinds of file that can be loaded, told apart by extension alone.
#[derive(Debug, Clone, Copy, PartialEq, Eq, Structural)]
pub enum FileType {
    CSV,
    JSON,
}

/// Why a file could not be loaded.
#[derive(Debug, Clone, PartialEq, Eq)]
pub enum LoadError {
    /// The path, which has no extension.
    InvalidExtension(String),
    /// The path, whose extension is neither `csv` nor `json`.
    UnsupportedFileType(String),
    /// The file could not be read; the cause, in words.
    IoError(String),
    /// The record at this position, counted from 0 with the header, is
    /// malformed.
    ParseError(usize),
    /// There is no data row.
    NoRecords,
    /// A data row does not have as many cells as the header.
    HeaderMismatch,
}

/// A `LoadError` as contracts speak of it.
pub enum LoadFailure {
    InvalidExtension(Seq<char>),
    UnsupportedFileType(Seq<char>),
    IoError(Seq<char>),
    ParseError(nat),
    NoRecords,
    HeaderMismatch,
}

impl View for LoadError {
    type V = LoadFailure;

    open spec fn view(&self) -> LoadFailure {
        match self {
            LoadError::InvalidExtension(path) => LoadFailure::InvalidExtension(path@),
            LoadError::UnsupportedFileType(path) => LoadFailure::UnsupportedFileType(path@),
            LoadError::IoError(cause) => LoadFailure::IoError(cause@),
            LoadError::ParseError(at) => LoadFailure::ParseError(*at as nat),
            LoadError::NoRecords => LoadFailure::NoRecords,
            LoadError::HeaderMismatch => LoadFailure::HeaderMismatch,
        }
    }
}

/// What to tell the user about a failure.
pub open spec fn failure_message(failure: LoadFailure) -> Seq<char> {
    match failure {
        LoadFailure::InvalidExtension(path) => "Invalid file extension: "@ + path,
        LoadFailure::UnsupportedFileType(path) => "Unsupported file type: "@ + path
            + ". Only CSV and JSON files are supported."@,
        LoadFailure::IoError(cause) => cause,
        LoadFailure::ParseError(at) => "Malformed record at position "@ + numeral(at),
        LoadFailure::NoRecords => "File has no records"@,
        LoadFailure::HeaderMismatch => "Header count does not match column count"@,
    }
}

impl LoadError {
    /// What to tell the user about this failure.
    pub fn message(&self) -> (r: String)
        ensures
            r@ == failure_message(self@),
    {
        match self {
            LoadError::InvalidExtension(path) => {
                let mut r: String = String::from_str("Invalid file extension: ");
                r.append(path.as_str());
                r
            },
            LoadError::UnsupportedFileType(path) => {
                let mut r: String = String::from_str("Unsupported file type: ");
                r.append(path.as_str());
                r.append(". Only CSV and JSON files are supported.");
                r
            },
            LoadError::IoError(cause) => cause.clone(),
            LoadError::ParseError(at) => {
                let mut r: String = String::from_str("Malformed record at position ");
                let position: String = numeral_of(*at as u64);
                r.append(position.as_str());
                r
            },
            LoadError::NoRecords => String::from_str("File has no records"),
            LoadError::HeaderMismatch => String::from_str(
                "Header count does not match column count",
            ),
        }
    }
}

/// The character at `at` belongs to what is passed over at the end of a
/// path: a `/`, or a `.` that is a whole component behind a `/`.
pub open spec fn passed_over(path: Seq<char>, at: int) -> bool {
    ||| path[at] == '/'
    ||| (path[at] == '.' && at > 0 && path[at - 1] == '/' && (at + 1 == path.len() || path[at + 1]
        == '/'))
}

/// The file name of `path` ends before position `end`. The file name is the
/// last component of the path, components being what stands between `/`, that
/// is neither empty nor `.`: separators and `.` components behind it are
/// passed over.
pub open spec fn file_name_ends_at(path: Seq<char>, end: int) -> bool {
    &&& 0 < end <= path.len()
    &&& path[end - 1] != '/'
    &&& !(path[end - 1] == '.' && (end == 1 || path[end - 2] == '/'))
    &&& forall|j: int| end <= j < path.len() ==> passed_over(path, j)
}

/// The extension of `path` stands between `dot` and `end`: `end` is where the
/// file name ends, and the character at `dot` is the last dot of the file
/// name. A dot that begins the file name starts no extension, and the file
/// name `..` has none.
pub open spec fn extension_between(path: Seq<char>, dot: int, end: int) -> bool {
    &&& file_name_ends_at(path, end)
    &&& 0 < dot < end
    &&& path[dot] == '.'
    &&& path[dot - 1] != '/'
    &&& forall|j: int| dot < j < end ==> path[j] != '.' && path[j] != '/'
    &&& !(dot == end - 1 && path[dot - 1] == '.' && (dot == 1 || path[dot - 2] == '/'))
}

/// Whether `path` has an extension.
pub open spec fn has_extension(path: Seq<char>) -> bool {
    exists|dot: int, end: int| extension_between(path, dot, end)
}

/// The extension of a path that has one: the text of its file name after the
/// last dot.
pub open spec fn extension(path: Seq<char>) -> Seq<char> {
    let (dot, end) = choose|dot: int, end: int| extension_between(path, dot, end);
    path.subrange(dot + 1, end)
}

/// The kind of file that an extension stands for, whatever the case of its
/// letters.
pub open spec fn kind_of_extension(ext: Seq<char>) -> Option<FileType> {
    if same_ignoring_case(ext, seq!['c', 's', 'v']) {
        Some(FileType::CSV)
    } else if same_ignoring_case(ext, seq!['j', 's', 'o', 'n']) {
        Some(FileType::JSON)
    } else {
        None
    }
}

/// The kind of file that `path` names, or why it names none.
pub open spec fn detect(path: Seq<char>) -> Result<FileType, LoadFailure> {
    if !has_extension(path) {
        Err(LoadFailure::InvalidExtension(path))
    } else {
        match kind_of_extension(extension(path)) {
            Some(kind) => Ok(kind),
            None => Err(LoadFailure::UnsupportedFileType(path)),
        }
    }
}

/// A path has at most one place where its file name ends.
pub proof fn lemma_file_name_end_unique(path: Seq<char>, a: int, b: int)
    requires
        file_name_ends_at(path, a),
        file_name_ends_at(path, b),
    ensures
        a == b,
{
    if a < b {
        assert(passed_over(path, b - 1));
    } else if b < a {
        assert(passed_over(path, a - 1));
    }
}

/// A path has at most one extension.
pub proof fn lemma_extension_unique(path: Seq<char>, dot: int, end: int, dot2: int, end2: int)
    requires
        extension_between(path, dot, end),
        extension_between(path, dot2, end2),
    ensures
        dot == dot2,
        end == end2,
{
    lemma_file_name_end_unique(path, end, end2);
}

/// Where the file name of `chars` ends, if it has one.
pub fn find_file_name_end(chars: &Vec<char>) -> (r: Option<usize>)
    ensures
        match r {
            Some(end) => file_name_ends_at(chars@, end as int),
            None => forall|end: int| !file_name_ends_at(chars@, end),
        },
{
    let len: usize = chars.len();
    let mut end: usize = len;
    while end > 0 && (chars[end - 1] == '/' || (chars[end - 1] == '.' && end >= 2 && chars[end
        - 2] == '/'))
        invariant
            end <= len,
            len == chars.len(),
            end == len || chars@[end as int] == '/',
            forall|j: int| end <= j < len ==> passed_over(chars@, j),
        decreases end,
    {
        if chars[end - 1] == '/' {
            end = end - 1;
        } else {
            end = end - 2;
        }
    }
    if end == 0 || (chars[end - 1] == '.' && end == 1) {
        assert forall|other: int| !file_name_ends_at(chars@, other) by {
            if file_name_ends_at(chars@, other) {
                if other > end {
                    assert(passed_over(chars@, other - 1));
                } else if other < end {
                    assert(passed_over(chars@, 0));
                }
            }
        }
        return None;
    }
    Some(end)
}

/// Where the extension of `chars` stands, if it has one: the position of its
/// dot, and the position where the file name ends.
pub fn find_extension(chars: &Vec<char>) -> (r: Option<(usize, usize)>)
    ensures
        match r {
            Some((dot, end)) => extension_between(chars@, dot as int, end as int),
            None => !has_extension(chars@),
        },
{
    let end: usize = match find_file_name_end(chars) {
        Some(end) => end,
        None => {
            return None;
        },
    };
    let mut i: usize = end;
    while i > 0
        invariant
            i <= end <= chars.len(),
            file_name_ends_at(chars@, end as int),
            forall|j: int| i <= j < end ==> chars@[j] != '.' && chars@[j] != '/',
        decreases i,
    {
        let c: char = chars[i - 1];
        if c == '/' {
            assert forall|dot: int, other: int| !extension_between(chars@, dot, other) by {
                if extension_between(chars@, dot, other) {
                    lemma_file_name_end_unique(chars@, other, end as int);
                    if dot < i - 1 {
                        assert(chars@[i - 1] != '/');
                    }
                }
            }
            return None;
        }
        if c == '.' {
            let dot: usize = i - 1;
            let starts_name: bool = dot == 0 || chars[dot - 1] == '/';
            let is_parent: bool = dot + 1 == end && dot > 0 && chars[dot - 1] == '.' && (dot == 1
                || chars[dot - 2] == '/');
            if starts_name || is_parent {
                assert forall|other: int, other_end: int| !extension_between(
                    chars@,
                    other,
                    other_end,
                ) by {
                    if extension_between(chars@, other, other_end) {
                        lemma_file_name_end_unique(chars@, other_end, end as int);
                        if other < dot {
                            assert(chars@[dot as int] != '.');
                        }
                    }
                }
                return None;
            }
            return Some((dot, end));
        }
        i = i - 1;
    }
    assert forall|dot: int, other: int| !extension_between(chars@, dot, other) by {
        if extension_between(chars@, dot, other) {
            lemma_file_name_end_unique(chars@, other, end as int);
        }
    }
    None
}

/// The kind of file that `path` names. A path without an extension is
/// refused as `InvalidExtension`, one with another extension than `csv` or
/// `json` as `UnsupportedFileType`; both name the path.
pub fn file_type_of(path: &str) -> (r: Result<FileType, LoadError>)
    ensures
        match r {
            Ok(kind) => detect(path@) == Ok::<FileType, LoadFailure>(kind),
            Err(e) => detect(path@) == Err::<FileType, LoadFailure>(e@),
        },
{
    let chars: Vec<char> = chars_of(path);
    match find_extension(&chars) {
        None => Err(LoadError::InvalidExtension(String::from_str(path))),
        Some((dot, end)) => {
            proof {
                reveal_strlit("csv");
                reveal_strlit("json");
                let (dot2, end2) = choose|dot2: int, end2: int|
                    extension_between(path@, dot2, end2);
                lemma_extension_unique(path@, dot as int, end as int, dot2, end2);
                assert("csv"@ =~= seq!['c', 's', 'v']);
                assert("json"@ =~= seq!['j', 's', 'o', 'n']);
            }
            if range_matches(&chars, dot + 1, end, "csv") {
                Ok(FileType::CSV)
            } else if range_matches(&chars, dot + 1, end, "json") {
                Ok(FileType::JSON)
            } else {
                Err(LoadError::UnsupportedFileType(String::from_str(path)))
            }
        },
    }
}

/// A table as contracts speak of it: the header's cells, and the data rows
/// below it, each as its cells.
pub struct TableView {
    pub header: Seq<Seq<char>>,
    pub rows: Seq<Seq<Seq<char>>>,
}

impl TableView {
    /// There is a data row, and every data row has as many cells as the
    /// header.
    pub open spec fn well_formed(self) -> bool {
        &&& self.rows.len() >= 1
        &&& forall|i: int| 0 <= i < self.rows.len() ==> (#[trigger] self.rows[i]).len()
            == self.header.len()
    }

    /// The cells at position `index`, one of each data row, from the top.
    pub open spec fn column(self, index: int) -> Seq<Seq<char>> {
        Seq::new(self.rows.len(), |i: int| self.rows[i][index])
    }
}

/// A header and its data rows, all cells kept as text. A table always has a
/// data row, and each of its data rows has as many cells as its header.
#[derive(Debug, PartialEq, Eq)]
pub struct Table {
    header: Vec<String>,
    rows: Vec<Vec<String>>,
}

impl View for Table {
    type V = TableView;

    closed spec fn view(&self) -> TableView {
        TableView { header: self.header.deep_view(), rows: self.rows.deep_view() }
    }
}

/// The table that a header and data rows make, or what is wrong with them:
/// `NoRecords` where there is no data row, else `HeaderMismatch` where some
/// row has another number of cells than the header.
pub open spec fn shape(header: Seq<Seq<char>>, rows: Seq<Seq<Seq<char>>>) -> Result<
    TableView,
    LoadFailure,
> {
    let table = TableView { header, rows };
    if rows.len() == 0 {
        Err(LoadFailure::NoRecords)
    } else if !table.well_formed() {
        Err(LoadFailure::HeaderMismatch)
    } else {
        Ok(table)
    }
}

/// The table that the records of a file make: the first record is the header,
/// the others are the data rows.
pub open spec fn table_of_records(records: Seq<Seq<Seq<char>>>) -> Result<TableView, LoadFailure> {
    if records.len() == 0 {
        Err(LoadFailure::NoRecords)
    } else {
        shape(records[0], records.subrange(1, records.len() as int))
    }
}

/// The table that a stream of records makes: unreadable records come first
/// among the reasons to fail.
pub open spec fn table_of_stream(stream: Seq<Option<Seq<Seq<char>>>>) -> Result<
    TableView,
    LoadFailure,
> {
    if all_readable(stream) {
        table_of_records(rows_of(stream))
    } else {
        Err(LoadFailure::ParseError((choose|at: int| first_unreadable(stream, at)) as nat))
    }
}

/// What loading gives for a path and the records found in the file: the path
/// is judged first, the records after it.
pub open spec fn load(path: Seq<char>, stream: Seq<Option<Seq<Seq<char>>>>) -> Result<
    (FileType, TableView),
    LoadFailure,
> {
    match detect(path) {
        Err(e) => Err(e),
        Ok(kind) => match table_of_stream(stream) {
            Err(e) => Err(e),
            Ok(table) => Ok((kind, table)),
        },
    }
}

impl Clone for Table {
    fn clone(&self) -> (copy: Table)
        ensures
            copy@ == self@,
    {
        proof {
            use_type_invariant(self);
        }
        let header: Vec<String> = self.header.clone();
        let rows: Vec<Vec<String>> = self.rows.clone();
        proof {
            assert(header.deep_view() == self.header.deep_view());
            assert(rows.deep_view() == self.rows.deep_view());
            assert forall|i: int| 0 <= i < rows.len() implies (#[trigger] rows[i]).len()
                == header.len() by {
                assert(rows.deep_view()[i].len() == self.rows.deep_view()[i].len());
            }
        }
        Table { header, rows }
    }
}

impl Table {
    #[verifier::type_invariant]
    spec fn consistent(&self) -> bool {
        &&& self.rows.len() >= 1
        &&& forall|i: int| 0 <= i < self.rows.len() ==> (#[trigger] self.rows[i]).len()
            == self.header.len()
    }

    /// Makes a table of a header and data rows, if they fit together.
    pub fn new(header: Vec<String>, rows: Vec<Vec<String>>) -> (r: Result<Table, LoadError>)
        ensures
            match r {
                Ok(table) => shape(header.deep_view(), rows.deep_view()) == Ok::<
                    TableView,
                    LoadFailure,
                >(table@),
                Err(e) => shape(header.deep_view(), rows.deep_view()) == Err::<
                    TableView,
                    LoadFailure,
                >(e@),
            },
    {
        let ghost spec_table = TableView { header: header.deep_view(), rows: rows.deep_view() };
        if rows.len() == 0 {
            return Err(LoadError::NoRecords);
        }
        let width: usize = header.len();
        let mut i: usize = 0;
        while i < rows.len()
            invariant
                i <= rows.len(),
                width == header.len(),
                spec_table == (TableView { header: header.deep_view(), rows: rows.deep_view() }),
                forall|j: int| 0 <= j < i ==> (#[trigger] rows[j]).len() == width,
            decreases rows.len() - i,
        {
            if rows[i].len() != width {
                proof {
                    assert(spec_table.rows[i as int].len() != spec_table.header.len());
                }
                return Err(LoadError::HeaderMismatch);
            }
            i = i + 1;
        }
        proof {
            assert forall|j: int| 0 <= j < spec_table.rows.len() implies (
            #[trigger] spec_table.rows[j]).len() == spec_table.header.len() by {
                assert(rows[j].len() == width);
            }
        }
        Ok(Table { header, rows })
    }

    /// The header's cells.
    pub fn header(&self) -> (h: &Vec<String>)
        ensures
            h.deep_view() == self@.header,
    {
        &self.header
    }

    /// The data rows.
    pub fn rows(&self) -> (rows: &Vec<Vec<String>>)
        ensures
            rows.deep_view() == self@.rows,
            self@.well_formed(),
    {
        proof {
            use_type_invariant(self);
            let view = self@;
            assert forall|i: int| 0 <= i < view.rows.len() implies (#[trigger] view.rows[i]).len()
                == view.header.len() by {
                assert(self.rows[i].len() == self.header.len());
            }
        }
        &self.rows
    }

    /// The number of data rows, which is at least one.
    pub fn row_count(&self) -> (n: usize)
        ensures
            n == self@.rows.len(),
            n >= 1,
    {
        proof {
            use_type_invariant(self);
        }
        self.rows.len()
    }

    /// The number of columns.
    pub fn column_count(&self) -> (n: usize)
        ensures
            n == self@.header.len(),
    {
        self.header.len()
    }

    /// The cells of the column at `index`, from the first data row to the
    /// last.
    pub fn column(&self, index: usize) -> (cells: Vec<String>)
        requires
            index < self@.header.len(),
        ensures
            cells.deep_view() == self@.column(index as int),
    {
        proof {
            use_type_invariant(self);
        }
        let mut cells: Vec<String> = Vec::new();
        let mut i: usize = 0;
        while i < self.rows.len()
            invariant
                i <= self.rows.len(),
                index < self.header.len(),
                forall|j: int| 0 <= j < self.rows.len() ==> (#[trigger] self.rows[j]).len()
                    == self.header.len(),
                cells.len() == i,
                forall|j: int| 0 <= j < i ==> (#[trigger] cells[j])@ == self.rows[j][index as int]@,
            decreases self.rows.len() - i,
        {
            cells.push(self.rows[i][index].clone());
            i = i + 1;
        }
        proof {
            assert(cells.deep_view() =~= self@.column(index as int));
        }
        cells
    }
}

/// Makes a table of the records of a file, header first. Fails with
/// `NoRecords` where no record follows the header (or there is not even a
/// header), with `HeaderMismatch` where a data row has another number of
/// cells than the header.
pub fn table_from_records(records: Vec<Vec<String>>) -> (r: Result<Table, LoadError>)
    ensures
        match r {
            Ok(table) => table_of_records(records.deep_view()) == Ok::<TableView, LoadFailure>(
                table@,
            ),
            Err(e) => table_of_records(records.deep_view()) == Err::<TableView, LoadFailure>(e@),
        },
{
    let mut rows: Vec<Vec<String>> = records;
    if rows.len() == 0 {
        return Err(LoadError::NoRecords);
    }
    let ghost all = rows.deep_view();
    let ghost before = rows@;
    let header: Vec<String> = rows.remove(0);
    proof {
        assert(header.deep_view() == all[0]);
        assert(rows.deep_view() =~= all.subrange(1, all.len() as int)) by {
            assert forall|i: int| 0 <= i < rows.len() implies #[trigger] rows.deep_view()[i]
                == all.subrange(1, all.len() as int)[i] by {
                assert(rows[i] == before[i + 1]);
            }
        }
    }
    Table::new(header, rows)
}

/// The result of loading as contracts speak of it.
pub open spec fn loaded_view(loaded: Result<(FileType, Table), LoadError>) -> Result<
    (FileType, TableView),
    LoadFailure,
> {
    match loaded {
        Ok((kind, table)) => Ok((kind, table@)),
        Err(e) => Err(e@),
    }
}

/// Loads the file at `path`, whose content is `data`: the kind of file that
/// the path names, and the table that the content holds.
///
/// The path is judged before the content is looked at. The content is read
/// as delimited text for either kind of file.
pub fn read_input_file(path: &str, data: &[u8]) -> (r: Result<(FileType, Table), LoadError>)
    ensures
        loaded_view(r) == load(path@, records_in(data@)),
        r matches Ok((_, table)) ==> table@.well_formed(),
{
    let kind: FileType = match file_type_of(path) {
        Ok(kind) => kind,
        Err(e) => {
            return Err(e);
        },
    };
    let records: Vec<Vec<String>> = match parse_records(data) {
        Ok(records) => records,
        Err(e) => {
            proof {
                let stream = records_in(data@);
                let at = choose|at: int| first_unreadable(stream, at);
                lemma_first_unreadable_unique(stream, at, e->ParseError_0 as int);
            }
            return Err(e);
        },
    };
    match table_from_records(records) {
        Ok(table) => Ok((kind, table)),
        Err(e) => Err(e),
    }
}

/// A file whose path names a kind of file, whose records are all readable,
/// which has a data row, and whose rows all have as many cells as its first
/// one, loads: the header is the first record as it stands, and the data rows
/// are the records after it, as many and in the same order.
pub proof fn lemma_regular_file_loads(path: Seq<char>, stream: Seq<Option<Seq<Seq<char>>>>)
    requires
        detect(path) is Ok,
        all_readable(stream),
        stream.len() >= 2,
        forall|i: int| 0 <= i < stream.len() ==> (#[trigger] stream[i]).unwrap().len()
            == stream[0].unwrap().len(),
    ensures
        load(path, stream) matches Ok((kind, table)) && {
            &&& detect(path) == Ok::<FileType, LoadFailure>(kind)
            &&& table.header == stream[0].unwrap()
            &&& table.rows.len() == stream.len() - 1
            &&& forall|i: int| 0 <= i < table.rows.len() ==> #[trigger] table.rows[i] == stream[i
                + 1].unwrap()
        },
{
    let records = rows_of(stream);
    let rows = records.subrange(1, records.len() as int);
    let table = TableView { header: records[0], rows };
    assert forall|i: int| 0 <= i < rows.len() implies (#[trigger] rows[i]).len()
        == table.header.len() by {
        assert(rows[i] == stream[i + 1].unwrap());
    }
    assert(table.well_formed());
}

/// A path without an extension is refused as such, whatever the file holds.
pub proof fn lemma_no_extension_is_refused(path: Seq<char>, stream: Seq<Option<Seq<Seq<char>>>>)
    requires
        !has_extension(path),
    ensures
        load(path, stream) == Err::<(FileType, TableView), LoadFailure>(
            LoadFailure::InvalidExtension(path),
        ),
{
}

/// A path whose extension is neither `csv` nor `json`, in whatever case, is
/// refused as an unsupported kind of file, whatever the file holds.
pub proof fn lemma_other_extension_is_refused(
    path: Seq<char>,
    stream: Seq<Option<Seq<Seq<char>>>>,
)
    requires
        has_extension(path),
        !same_ignoring_case(extension(path), seq!['c', 's', 'v']),
        !same_ignoring_case(extension(path), seq!['j', 's', 'o', 'n']),
    ensures
        load(path, stream) == Err::<(FileType, TableView), LoadFailure>(
            LoadFailure::UnsupportedFileType(path),
        ),
{
}

/// A file that holds a header and nothing below it has no records.
pub proof fn lemma_header_alone_has_no_records(
    path: Seq<char>,
    stream: Seq<Option<Seq<Seq<char>>>>,
)
    requires
        detect(path) is Ok,
        all_readable(stream),
        stream.len() == 1,
    ensures
        load(path, stream) == Err::<(FileType, TableView), LoadFailure>(LoadFailure::NoRecords),
{
}

/// A file whose first data row has another number of cells than its header
/// is refused for that.
pub proof fn lemma_uneven_first_row_is_refused(
    path: Seq<char>,
    stream: Seq<Option<Seq<Seq<char>>>>,
)
    requires
        detect(path) is Ok,
        all_readable(stream),
        stream.len() >= 2,
        stream[1].unwrap().len() != stream[0].unwrap().len(),
    ensures
        load(path, stream) == Err::<(FileType, TableView), LoadFailure>(
            LoadFailure::HeaderMismatch,
        ),
{
    let records = rows_of(stream);
    let rows = records.subrange(1, records.len() as int);
    assert(rows[0] == stream[1].unwrap());
}

/// Whatever loads is a table with a data row, each of whose data rows has as
/// many cells as its header.
pub proof fn lemma_loaded_table_is_well_formed(
    path: Seq<char>,
    stream: Seq<Option<Seq<Seq<char>>>>,
)
    ensures
        load(path, stream) matches Ok((_, table)) ==> table.well_formed(),
{
}

/// Loading is a function of the path and the content: two loads of the same
/// file end alike, with equal tables or with the same failure.
pub proof fn lemma_load_is_repeatable(
    path: Seq<char>,
    data: Seq<u8>,
    first: Result<(FileType, Table), LoadError>,
    second: Result<(FileType, Table), LoadError>,
)
    requires
        loaded_view(first) == load(path, records_in(data)),
        loaded_view(second) == load(path, records_in(data)),
    ensures
        loaded_view(first) == loaded_view(second),
{
}

} // verus!
