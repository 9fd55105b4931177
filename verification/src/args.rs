//! The command line: three options, each with one value, each given once.

use crate::column::{identify, ColumnId, StringOrNumber};
use vstd::prelude::*;
use vstd::string::*;

verus! {

/// What a command line asks for.
#[derive(Debug, PartialEq, Eq, Clone)]
pub struct Colops {
    /// The path of the input file.
    pub input_file: String,
    /// The column to work on.
    pub column: StringOrNumber,
    /// The operation to perform; any text is taken.
    pub operation: String,
}

/// A `Colops` as contracts speak of it.
pub struct ColopsView {
    pub input_file: Seq<char>,
    pub column: ColumnId,
    pub operation: Seq<char>,
}

impl View for Colops {
    type V = ColopsView;

    open spec fn view(&self) -> ColopsView {
        ColopsView {
            input_file: self.input_file@,
            column: self.column@,
            operation: self.operation@,
        }
    }
}

/// Why a command line was refused.
#[derive(Debug, PartialEq, Eq, Clone)]
pub enum ArgsError {
    /// An option was left out.
    MissingArguments,
    /// This argument stands where an option should, and is none.
    UnexpectedArgument(String),
    /// This option is the last argument, so it has no value.
    MissingValue(String),
    /// This option was given before.
    RepeatedArgument(String),
}

/// An `ArgsError` as contracts speak of it.
pub enum ArgsFailure {
    MissingArguments,
    UnexpectedArgument(Seq<char>),
    MissingValue(Seq<char>),
    RepeatedArgument(Seq<char>),
}

impl View for ArgsError {
    type V = ArgsFailure;

    open spec fn view(&self) -> ArgsFailure {
        match self {
            ArgsError::MissingArguments => ArgsFailure::MissingArguments,
            ArgsError::UnexpectedArgument(arg) => ArgsFailure::UnexpectedArgument(arg@),
            ArgsError::MissingValue(arg) => ArgsFailure::MissingValue(arg@),
            ArgsError::RepeatedArgument(arg) => ArgsFailure::RepeatedArgument(arg@),
        }
    }
}

/// What to tell the user about a refused command line.
pub open spec fn refusal_message(failure: ArgsFailure) -> Seq<char> {
    match failure {
        ArgsFailure::MissingArguments =>
            "error: the following required arguments were not provided"@,
        ArgsFailure::UnexpectedArgument(arg) => "error: unexpected argument '"@ + arg + "' found"@,
        ArgsFailure::MissingValue(arg) => "error: a value is required for '"@ + arg
            + "' but none was supplied"@,
        ArgsFailure::RepeatedArgument(arg) => "error: the argument '"@ + arg
            + "' cannot be used multiple times"@,
    }
}

impl ArgsError {
    /// What to tell the user about this refusal.
    pub fn message(&self) -> (r: String)
        ensures
            r@ == refusal_message(self@),
    {
        match self {
            ArgsError::MissingArguments => String::from_str(
                "error: the following required arguments were not provided",
            ),
            ArgsError::UnexpectedArgument(arg) => {
                let mut r: String = String::from_str("error: unexpected argument '");
                r.append(arg.as_str());
                r.append("' found");
                r
            },
            ArgsError::MissingValue(arg) => {
                let mut r: String = String::from_str("error: a value is required for '");
                r.append(arg.as_str());
                r.append("' but none was supplied");
                r
            },
            ArgsError::RepeatedArgument(arg) => {
                let mut r: String = String::from_str("error: the argument '");
                r.append(arg.as_str());
                r.append("' cannot be used multiple times");
                r
            },
        }
    }
}

/// The three options.
#[derive(Debug, Clone, Copy, PartialEq, Eq, Structural)]
pub enum Flag {
    InputFile,
    Column,
    Operation,
}

/// The option that an argument names, in its short or its long form.
pub open spec fn flag_of(arg: Seq<char>) -> Option<Flag> {
    if arg == "-f"@ || arg == "--input-file"@ {
        Some(Flag::InputFile)
    } else if arg == "-c"@ || arg == "--column"@ {
        Some(Flag::Column)
    } else if arg == "-o"@ || arg == "--operation"@ {
        Some(Flag::Operation)
    } else {
        None
    }
}

/// The values found so far, one place for each option.
pub struct Found {
    pub input_file: Option<Seq<char>>,
    pub column: Option<Seq<char>>,
    pub operation: Option<Seq<char>>,
}

impl Found {
    /// No value found yet.
    pub open spec fn nothing() -> Found {
        Found { input_file: None, column: None, operation: None }
    }

    /// Whether the option `flag` has its value already.
    pub open spec fn has(self, flag: Flag) -> bool {
        match flag {
            Flag::InputFile => self.input_file is Some,
            Flag::Column => self.column is Some,
            Flag::Operation => self.operation is Some,
        }
    }

    /// How many of the three options have their value.
    pub open spec fn count(self) -> int {
        (if self.input_file is Some {
            1int
        } else {
            0int
        }) + (if self.column is Some {
            1int
        } else {
            0int
        }) + (if self.operation is Some {
            1int
        } else {
            0int
        })
    }

    /// The same, with `value` for the option `flag`.
    pub open spec fn with(self, flag: Flag, value: Seq<char>) -> Found {
        match flag {
            Flag::InputFile => Found { input_file: Some(value), ..self },
            Flag::Column => Found { column: Some(value), ..self },
            Flag::Operation => Found { operation: Some(value), ..self },
        }
    }
}

/// Reads the arguments from position `from` on, two at a time: an option,
/// then its value, which is taken as it stands. Stops at the first argument
/// that is out of place.
pub open spec fn scan(args: Seq<Seq<char>>, from: int, found: Found) -> Result<Found, ArgsFailure>
    decreases args.len() - from,
{
    if from < 0 || from >= args.len() {
        Ok(found)
    } else {
        match flag_of(args[from]) {
            None => Err(ArgsFailure::UnexpectedArgument(args[from])),
            Some(flag) => if found.has(flag) {
                Err(ArgsFailure::RepeatedArgument(args[from]))
            } else if from + 1 >= args.len() {
                Err(ArgsFailure::MissingValue(args[from]))
            } else {
                scan(args, from + 2, found.with(flag, args[from + 1]))
            },
        }
    }
}

/// What a command line asks for. The first argument is the program's name
/// and is passed over. All three options must be there.
pub open spec fn parse(args: Seq<Seq<char>>) -> Result<ColopsView, ArgsFailure> {
    match scan(args, 1, Found::nothing()) {
        Err(e) => Err(e),
        Ok(found) => if found.input_file is Some && found.column is Some && found.operation
            is Some {
            Ok(
                ColopsView {
                    input_file: found.input_file.unwrap(),
                    column: identify(found.column.unwrap()),
                    operation: found.operation.unwrap(),
                },
            )
        } else {
            Err(ArgsFailure::MissingArguments)
        },
    }
}

/// A scan that ends well has read its arguments in pairs, and has found one
/// more value with each pair.
proof fn lemma_scan_counts(args: Seq<Seq<char>>, from: int, found: Found)
    requires
        1 <= from <= args.len(),
        scan(args, from, found) is Ok,
    ensures
        (args.len() - from) % 2 == 0,
        scan(args, from, found)->Ok_0.count() == found.count() + (args.len() - from) / 2,
    decreases args.len() - from,
{
    if from < args.len() {
        let flag = flag_of(args[from]).unwrap();
        lemma_scan_counts(args, from + 2, found.with(flag, args[from + 1]));
    }
}

/// The command lines that are accepted are those that hold, after the
/// program's name, three pairs of an option and a value, with three different
/// options. Each option then has the value that stands behind it.
pub proof fn lemma_accepted_command_lines(args: Seq<Seq<char>>)
    ensures
        parse(args) is Ok <==> {
            &&& args.len() == 7
            &&& flag_of(args[1]) is Some
            &&& flag_of(args[3]) is Some
            &&& flag_of(args[5]) is Some
            &&& flag_of(args[1]) != flag_of(args[3])
            &&& flag_of(args[1]) != flag_of(args[5])
            &&& flag_of(args[3]) != flag_of(args[5])
        },
        parse(args) matches Ok(request) ==> forall|i: int|
            #![trigger args[i]]
            (i == 1 || i == 3 || i == 5) ==> match flag_of(args[i]).unwrap() {
                Flag::InputFile => request.input_file == args[i + 1],
                Flag::Column => request.column == identify(args[i + 1]),
                Flag::Operation => request.operation == args[i + 1],
            },
{
    reveal_with_fuel(scan, 4);
    if parse(args) is Ok {
        assert(args.len() >= 1);
        lemma_scan_counts(args, 1, Found::nothing());
        assert(args.len() == 7);
    }
}

/// The option that `arg` names, if it names one.
pub fn flag_for(arg: &String) -> (r: Option<Flag>)
    ensures
        r == flag_of(arg@),
{
    if *arg == String::from_str("-f") || *arg == String::from_str("--input-file") {
        Some(Flag::InputFile)
    } else if *arg == String::from_str("-c") || *arg == String::from_str("--column") {
        Some(Flag::Column)
    } else if *arg == String::from_str("-o") || *arg == String::from_str("--operation") {
        Some(Flag::Operation)
    } else {
        None
    }
}

impl Colops {
    /// Reads a command line, program name first.
    pub fn try_parse_from(args: &Vec<String>) -> (r: Result<Colops, ArgsError>)
        ensures
            match r {
                Ok(colops) => parse(args.deep_view()) == Ok::<ColopsView, ArgsFailure>(colops@),
                Err(e) => parse(args.deep_view()) == Err::<ColopsView, ArgsFailure>(e@),
            },
    {
        let ghost words = args.deep_view();
        let mut input_file: Option<String> = None;
        let mut column: Option<String> = None;
        let mut operation: Option<String> = None;
        let ghost mut found = Found::nothing();
        let mut i: usize = 1;
        while i < args.len()
            invariant
                1 <= i,
                words == args.deep_view(),
                scan(words, 1, Found::nothing()) == scan(words, i as int, found),
                found.input_file == match input_file {
                    Some(s) => Some(s@),
                    None => None::<Seq<char>>,
                },
                found.column == match column {
                    Some(s) => Some(s@),
                    None => None::<Seq<char>>,
                },
                found.operation == match operation {
                    Some(s) => Some(s@),
                    None => None::<Seq<char>>,
                },
            decreases args.len() - i,
        {
            assert(words[i as int] == args[i as int]@);
            let flag: Flag = match flag_for(&args[i]) {
                Some(flag) => flag,
                None => {
                    return Err(ArgsError::UnexpectedArgument(args[i].clone()));
                },
            };
            let seen: bool = match flag {
                Flag::InputFile => input_file.is_some(),
                Flag::Column => column.is_some(),
                Flag::Operation => operation.is_some(),
            };
            if seen {
                return Err(ArgsError::RepeatedArgument(args[i].clone()));
            }
            if i + 1 >= args.len() {
                return Err(ArgsError::MissingValue(args[i].clone()));
            }
            let value: String = args[i + 1].clone();
            proof {
                assert(words[i + 1] == value@);
                found = found.with(flag, value@);
            }
            match flag {
                Flag::InputFile => {
                    input_file = Some(value);
                },
                Flag::Column => {
                    column = Some(value);
                },
                Flag::Operation => {
                    operation = Some(value);
                },
            }
            i = i + 2;
        }
        match (input_file, column, operation) {
            (Some(input_file), Some(column), Some(operation)) => {
                let column: StringOrNumber = match StringOrNumber::from_str(column.as_str()) {
                    Ok(id) => id,
                    Err(_) => StringOrNumber::String(column),
                };
                Ok(Colops { input_file, column, operation })
            },
            _ => Err(ArgsError::MissingArguments),
        }
    }
}

/// Reads the command line that the program was started with, program name
/// first.
pub fn get_args(args: &Vec<String>) -> (r: Result<Colops, ArgsError>)
    ensures
        match r {
            Ok(colops) => parse(args.deep_view()) == Ok::<ColopsView, ArgsFailure>(colops@),
            Err(e) => parse(args.deep_view()) == Err::<ColopsView, ArgsFailure>(e@),
        },
{
    Colops::try_parse_from(args)
}

} // verus!
