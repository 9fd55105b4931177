//! Column selection over delimited text files: which kind of file a path
//! names, how its bytes become a table, and where a column sits in it.

pub mod args;
pub mod column;
pub mod file_handling;
pub mod reader;
pub mod report;
pub mod text;

pub use crate::args::{get_args, ArgsError, Colops};
pub use crate::column::{resolve, StringOrNumber};
pub use crate::file_handling::{read_input_file, FileType, LoadError, Table};
pub use crate::report::{process_file, run, Output};
