//! The command line: `[--debug] <frontend> <file> [int1 int2]
//! [load_address]`.
//!
//! The frontends `twoints` and `array` ask for their numbers on the input
//! stream, one line each, before the load address is looked at. The host
//! reads those lines, and `read_args` decides: from the arguments and the
//! answers so far it says what to ask for next, hands out the finished
//! command line, or says what is wrong. `parse_args` does the same on
//! lines that were all read before.

use crate::number::{parse_i32, parse_u32, parse_usize, parsed_i32, parsed_u32, parsed_usize};
use crate::text::{decimal_nat, push_decimal_nat, same_text};
use vstd::prelude::*;
use vstd::string::*;

verus! {

/// How the program gets its input: what is put into the registers, and
/// into memory, before it starts.
#[derive(Clone, Debug, PartialEq, Eq)]
pub enum InputFrontend {
    /// Nothing is set up.
    NoArgs,
    /// Registers 1 and 2 hold two numbers.
    TwoInts { int1: i32, int2: i32 },
    /// Register 1 holds the address of an array in memory, register 2 its
    /// length.
    Array { array: Vec<i32> },
}

/// What an `InputFrontend` holds.
pub enum FrontendModel {
    NoArgs,
    TwoInts { int1: i32, int2: i32 },
    Array { array: Seq<i32> },
}

impl View for InputFrontend {
    type V = FrontendModel;

    open spec fn view(&self) -> FrontendModel {
        match *self {
            InputFrontend::NoArgs => FrontendModel::NoArgs,
            InputFrontend::TwoInts { int1, int2 } => FrontendModel::TwoInts { int1, int2 },
            InputFrontend::Array { array } => FrontendModel::Array { array: array@ },
        }
    }
}

/// The options of the command line.
#[derive(Copy, Clone, Debug, PartialEq, Eq)]
pub struct ParsedArgsFlags {
    /// Whether the interactive debugger is to run the program.
    pub debug: bool,
}

/// A command line.
#[derive(Clone, Debug, PartialEq, Eq)]
pub struct ParsedArgs {
    /// The file that holds the program image.
    pub filename: String,
    /// How the program gets its input.
    pub frontend: InputFrontend,
    /// The address at which the image is loaded, a multiple of four.
    pub load_address: u32,
    /// The options.
    pub flags: ParsedArgsFlags,
}

/// What a `ParsedArgs` holds.
pub struct ArgsModel {
    pub filename: Seq<char>,
    pub frontend: FrontendModel,
    pub load_address: u32,
    pub debug: bool,
}

impl View for ParsedArgs {
    type V = ArgsModel;

    open spec fn view(&self) -> ArgsModel {
        ArgsModel {
            filename: self.filename@,
            frontend: self.frontend@,
            load_address: self.load_address,
            debug: self.flags.debug,
        }
    }
}

/// Where the input of the program comes from.
#[derive(Copy, Clone, Debug, PartialEq, Eq)]
pub enum FrontendSource {
    /// There is none.
    NoArgs,
    /// The command line gave two numbers.
    TwoInts { int1: i32, int2: i32 },
    /// Two numbers are to be asked for.
    AskTwoInts,
    /// An array is to be asked for.
    AskArray,
}

/// The first part of a command line.
#[derive(Clone, Debug, PartialEq, Eq)]
pub struct ParsedHead {
    /// The options.
    pub flags: ParsedArgsFlags,
    /// The file that holds the program image.
    pub filename: String,
    /// Where the input of the program comes from.
    pub source: FrontendSource,
    /// The position of the argument after this part.
    pub next: usize,
}

/// What a `ParsedHead` holds.
pub struct HeadModel {
    pub debug: bool,
    pub filename: Seq<char>,
    pub source: FrontendSource,
    pub next: int,
}

impl View for ParsedHead {
    type V = HeadModel;

    open spec fn view(&self) -> HeadModel {
        HeadModel {
            debug: self.flags.debug,
            filename: self.filename@,
            source: self.source,
            next: self.next as int,
        }
    }
}

/// The position of the first argument from `at` on that is not `--debug`,
/// or the number of arguments where there is none.
pub open spec fn after_flags(args: Seq<String>, at: int) -> int
    decreases args.len() - at,
{
    if 0 <= at < args.len() && args[at]@ == "--debug"@ {
        after_flags(args, at + 1)
    } else {
        at
    }
}

/// What the first part of the command line `args` holds, or the message
/// that says what is wrong with it. The argument at position 0 is the
/// name of the program.
pub open spec fn head_of(args: Seq<String>) -> Result<HeadModel, Seq<char>> {
    let f = after_flags(args, 1);
    if f >= args.len() {
        Err("Not enough arguments"@)
    } else if f + 1 >= args.len() {
        Err("No filename specified"@)
    } else {
        let name = args[f]@;
        let head = HeadModel {
            debug: f > 1,
            filename: args[f + 1]@,
            source: FrontendSource::NoArgs,
            next: f + 2,
        };
        if name == "noargs"@ {
            Ok(head)
        } else if name == "twoints"@ {
            Ok(HeadModel { source: FrontendSource::AskTwoInts, ..head })
        } else if name == "twointsargs"@ {
            if f + 2 >= args.len() {
                Err("int1 not specified"@)
            } else if f + 3 >= args.len() {
                Err("int2 not specified"@)
            } else {
                match (parsed_i32(args[f + 2]@), parsed_i32(args[f + 3]@)) {
                    (None, _) => Err("Failed to parse int1"@),
                    (Some(_), None) => Err("Failed to parse int2"@),
                    (Some(int1), Some(int2)) => Ok(
                        HeadModel {
                            source: FrontendSource::TwoInts { int1, int2 },
                            next: f + 4,
                            ..head
                        },
                    ),
                }
            }
        } else if name == "array"@ {
            Ok(HeadModel { source: FrontendSource::AskArray, ..head })
        } else {
            Err("Invalid mode"@)
        }
    }
}

/// The load address that the command line `args` gives at the position
/// `next`, or the message that says what is wrong with it. Without an
/// argument there the load address is 0.
pub open spec fn load_address_of(args: Seq<String>, next: int) -> Result<u32, Seq<char>> {
    if 0 <= next < args.len() {
        match parsed_u32(args[next]@) {
            None => Err("Failed to parse load load_address"@),
            Some(addr) => if addr % 4 != 0 {
                Err("load_address must be word aligned"@)
            } else {
                Ok(addr)
            },
        }
    } else {
        Ok(0)
    }
}

/// Reads the first part of a command line: the options, the frontend,
/// the file, and the two numbers of `twointsargs`.
pub fn parse_head(args: &Vec<String>) -> (res: Result<ParsedHead, String>)
    ensures
        match res {
            Ok(head) => head_of(args@) == Ok::<HeadModel, Seq<char>>(head@),
            Err(msg) => head_of(args@) == Err::<HeadModel, Seq<char>>(msg@),
        },
{
    // Consume the options.
    let mut arg: usize = 1;
    while arg < args.len() && same_text(args[arg].as_str(), "--debug")
        invariant
            1 <= arg <= args.len() || args.len() == 0,
            after_flags(args@, arg as int) == after_flags(args@, 1),
        decreases args.len() - arg,
    {
        arg = arg + 1;
    }
    if arg >= args.len() {
        return Err(String::from_str("Not enough arguments"));
    }
    let debug = arg > 1;
    let frontend = args[arg].as_str();
    if arg + 1 >= args.len() {
        return Err(String::from_str("No filename specified"));
    }
    let filename = args[arg + 1].clone();
    let flags = ParsedArgsFlags { debug };
    let next = arg + 2;

    if same_text(frontend, "noargs") {
        Ok(ParsedHead { flags, filename, source: FrontendSource::NoArgs, next })
    } else if same_text(frontend, "twoints") {
        Ok(ParsedHead { flags, filename, source: FrontendSource::AskTwoInts, next })
    } else if same_text(frontend, "twointsargs") {
        if next >= args.len() {
            return Err(String::from_str("int1 not specified"));
        }
        if next + 1 >= args.len() {
            return Err(String::from_str("int2 not specified"));
        }
        let int1 = match parse_i32(args[next].as_str()) {
            Some(v) => v,
            None => {
                return Err(String::from_str("Failed to parse int1"));
            },
        };
        let int2 = match parse_i32(args[next + 1].as_str()) {
            Some(v) => v,
            None => {
                return Err(String::from_str("Failed to parse int2"));
            },
        };
        Ok(
            ParsedHead {
                flags,
                filename,
                source: FrontendSource::TwoInts { int1, int2 },
                next: next + 2,
            },
        )
    } else if same_text(frontend, "array") {
        Ok(ParsedHead { flags, filename, source: FrontendSource::AskArray, next })
    } else {
        Err(String::from_str("Invalid mode"))
    }
}

/// Reads the load address, which is the argument at the position `next`
/// where there is one, and 0 otherwise. Fails where it is no number or no
/// multiple of four.
pub fn parse_load_address(args: &Vec<String>, next: usize) -> (res: Result<u32, String>)
    ensures
        match res {
            Ok(addr) => load_address_of(args@, next as int) == Ok::<u32, Seq<char>>(addr),
            Err(msg) => load_address_of(args@, next as int) == Err::<u32, Seq<char>>(msg@),
        },
{
    if next < args.len() {
        match parse_u32(args[next].as_str()) {
            None => Err(String::from_str("Failed to parse load load_address")),
            Some(addr) => {
                if addr % 4 != 0 {
                    Err(String::from_str("load_address must be word aligned"))
                } else {
                    Ok(addr)
                }
            },
        }
    } else {
        Ok(0)
    }
}

/// The text of a line that was read with its line end: all but its last
/// character.
pub open spec fn line_text(line: Seq<char>) -> Seq<char> {
    line.drop_last()
}

/// The message for a line that holds no value for the register
/// `register`.
pub open spec fn register_parse_message(register: nat) -> Seq<char> {
    "Failed to parse register "@ + decimal_nat(register) + " value"@
}

/// The message for a missing line with the value for the register
/// `register`.
pub open spec fn register_read_message(register: nat) -> Seq<char> {
    "Failed to read register "@ + decimal_nat(register) + " value"@
}

/// The `count` array elements that the lines from the position `from` on
/// hold, or the message that says what is wrong with the first line that
/// is missing or holds no number.
pub open spec fn elements_of(lines: Seq<String>, from: int, count: int) -> Result<
    Seq<i32>,
    Seq<char>,
>
    decreases count,
{
    if count <= 0 {
        Ok(Seq::empty())
    } else {
        match elements_of(lines, from, count - 1) {
            Err(msg) => Err(msg),
            Ok(items) => {
                let at = from + count - 1;
                if !(0 <= at < lines.len()) {
                    Err("Failed to read array element"@)
                } else {
                    match parsed_i32(line_text(lines[at]@)) {
                        None => Err("Failed to parse array element"@),
                        Some(v) => Ok(items.push(v)),
                    }
                }
            },
        }
    }
}

/// The prompt for the value of the register `register`.
pub open spec fn register_prompt(register: nat) -> Seq<char> {
    "Enter value for register "@ + decimal_nat(register) + ": "@
}

/// The prompt for the array element `index`.
pub open spec fn element_prompt(index: nat) -> Seq<char> {
    "Enter array element "@ + decimal_nat(index) + ": "@
}

/// How far the reading of a value of the type `T` has come.
pub enum ReadingModel<T> {
    /// A line is to be asked for with `prompt`. Where there is none to be
    /// had, the reading fails with `read_error`.
    Ask { prompt: Seq<char>, read_error: Seq<char> },
    /// The value was read.
    Done(T),
    /// The reading has failed with this message.
    Failed(Seq<char>),
}

/// How far the lines `lines`, the answers so far, bring the reading of
/// the input of the program from `source`. The frontend that asks for two
/// numbers asks for them one after the other; the frontend that asks for
/// an array asks for its length and then for each element. The first line
/// that holds no number ends the reading.
pub open spec fn frontend_reading(source: FrontendSource, lines: Seq<String>) -> ReadingModel<
    FrontendModel,
> {
    match source {
        FrontendSource::NoArgs => ReadingModel::Done(FrontendModel::NoArgs),
        FrontendSource::TwoInts { int1, int2 } => ReadingModel::Done(
            FrontendModel::TwoInts { int1, int2 },
        ),
        FrontendSource::AskTwoInts => if lines.len() < 1 {
            ReadingModel::Ask { prompt: register_prompt(1), read_error: register_read_message(1) }
        } else {
            match parsed_i32(line_text(lines[0]@)) {
                None => ReadingModel::Failed(register_parse_message(1)),
                Some(int1) => if lines.len() < 2 {
                    ReadingModel::Ask {
                        prompt: register_prompt(2),
                        read_error: register_read_message(2),
                    }
                } else {
                    match parsed_i32(line_text(lines[1]@)) {
                        None => ReadingModel::Failed(register_parse_message(2)),
                        Some(int2) => ReadingModel::Done(FrontendModel::TwoInts { int1, int2 }),
                    }
                },
            }
        },
        FrontendSource::AskArray => if lines.len() < 1 {
            ReadingModel::Ask {
                prompt: "Enter length of array: "@,
                read_error: "Failed to read length of array"@,
            }
        } else {
            match parsed_usize(line_text(lines[0]@)) {
                None => ReadingModel::Failed("Failed to parse length of array"@),
                Some(count) => {
                    let answered = lines.len() - 1;
                    let read = if count <= answered {
                        count as int
                    } else {
                        answered
                    };
                    match elements_of(lines, 1, read) {
                        Err(msg) => ReadingModel::Failed(msg),
                        Ok(array) => if answered < count {
                            ReadingModel::Ask {
                                prompt: element_prompt(answered as nat),
                                read_error: "Failed to read array element"@,
                            }
                        } else {
                            ReadingModel::Done(FrontendModel::Array { array })
                        },
                    }
                },
            }
        },
    }
}

/// How far the lines `lines`, the answers so far, bring the reading of
/// the command line `args`: first its head, then the answers of the
/// frontend, then the load address.
pub open spec fn args_reading(args: Seq<String>, lines: Seq<String>) -> ReadingModel<ArgsModel> {
    match head_of(args) {
        Err(msg) => ReadingModel::Failed(msg),
        Ok(head) => match frontend_reading(head.source, lines) {
            ReadingModel::Ask { prompt, read_error } => ReadingModel::Ask { prompt, read_error },
            ReadingModel::Failed(msg) => ReadingModel::Failed(msg),
            ReadingModel::Done(frontend) => match load_address_of(args, head.next) {
                Err(msg) => ReadingModel::Failed(msg),
                Ok(load_address) => ReadingModel::Done(
                    ArgsModel {
                        filename: head.filename,
                        frontend,
                        load_address,
                        debug: head.debug,
                    },
                ),
            },
        },
    }
}

/// What a reading comes to where no more lines are to be had: a line that
/// is asked for cannot be read.
pub open spec fn reading_result<T>(reading: ReadingModel<T>) -> Result<T, Seq<char>> {
    match reading {
        ReadingModel::Ask { prompt, read_error } => Err(read_error),
        ReadingModel::Done(value) => Ok(value),
        ReadingModel::Failed(msg) => Err(msg),
    }
}

/// The input of the program that comes from `source`, with the lines
/// `lines` for all the answers there are, or the message that says what
/// is wrong.
pub open spec fn frontend_of(source: FrontendSource, lines: Seq<String>) -> Result<
    FrontendModel,
    Seq<char>,
> {
    reading_result(frontend_reading(source, lines))
}

/// What the command line `args` holds, with the lines `lines` for all the
/// answers there are, or the message that says what is wrong.
pub open spec fn args_of(args: Seq<String>, lines: Seq<String>) -> Result<ArgsModel, Seq<char>> {
    reading_result(args_reading(args, lines))
}

/// The line without its line end.
pub fn strip_line_end(line: &str) -> (text: &str)
    requires
        line@.len() > 0,
    ensures
        text@ == line_text(line@),
{
    let len = line.unicode_len();
    let text = line.substring_char(0, len - 1);
    assert(text@ =~= line_text(line@));
    text
}

/// Reads the value for the register `register` from a line, which was
/// read with its line end.
pub fn parse_register_line(line: &str, register: usize) -> (res: Result<i32, String>)
    requires
        line@.len() > 0,
    ensures
        match res {
            Ok(v) => parsed_i32(line_text(line@)) == Some(v),
            Err(msg) => parsed_i32(line_text(line@)) is None && msg@ == register_parse_message(
                register as nat,
            ),
        },
{
    match parse_i32(strip_line_end(line)) {
        Some(v) => Ok(v),
        None => {
            let mut msg = String::from_str("Failed to parse register ");
            push_decimal_nat(&mut msg, register as u64);
            msg.append(" value");
            Err(msg)
        },
    }
}

/// The message for a line with the value for the register `register`
/// that could not be read.
pub fn register_read_error(register: usize) -> (msg: String)
    ensures
        msg@ == register_read_message(register as nat),
{
    let mut msg = String::from_str("Failed to read register ");
    push_decimal_nat(&mut msg, register as u64);
    msg.append(" value");
    msg
}

/// Reads the length of the array from a line, which was read with its
/// line end.
pub fn parse_length_line(line: &str) -> (res: Result<usize, String>)
    requires
        line@.len() > 0,
    ensures
        match res {
            Ok(v) => parsed_usize(line_text(line@)) == Some(v),
            Err(msg) => parsed_usize(line_text(line@)) is None && msg@
                == "Failed to parse length of array"@,
        },
{
    match parse_usize(strip_line_end(line)) {
        Some(v) => Ok(v),
        None => Err(String::from_str("Failed to parse length of array")),
    }
}

/// Reads an element of the array from a line, which was read with its
/// line end.
pub fn parse_element_line(line: &str) -> (res: Result<i32, String>)
    requires
        line@.len() > 0,
    ensures
        match res {
            Ok(v) => parsed_i32(line_text(line@)) == Some(v),
            Err(msg) => parsed_i32(line_text(line@)) is None && msg@
                == "Failed to parse array element"@,
        },
{
    match parse_i32(strip_line_end(line)) {
        Some(v) => Ok(v),
        None => Err(String::from_str("Failed to parse array element")),
    }
}

/// How far the reading of a value has come.
#[derive(Debug, PartialEq, Eq)]
pub enum Reading<T> {
    /// A line is to be asked for with `prompt`. Where there is none to be
    /// had, the reading fails with `read_error`.
    Ask { prompt: String, read_error: String },
    /// The value was read.
    Done(T),
    /// The reading has failed with this message.
    Failed(String),
}

/// The prompt for the value of the register `register`, and the message
/// for a line that cannot be read.
pub fn ask_register(register: usize) -> (res: Reading<InputFrontend>)
    ensures
        res matches Reading::Ask { prompt, read_error } && prompt@ == register_prompt(
            register as nat,
        ) && read_error@ == register_read_message(register as nat),
{
    let mut prompt = String::from_str("Enter value for register ");
    push_decimal_nat(&mut prompt, register as u64);
    prompt.append(": ");
    Reading::Ask { prompt, read_error: register_read_error(register) }
}

/// Says how far the answers so far bring the reading of the input of the
/// program: what to ask for next, the input, or what is wrong. `lines`
/// holds the answers, each a line with its line end.
pub fn read_frontend(source: FrontendSource, lines: &Vec<String>) -> (res: Reading<InputFrontend>)
    requires
        forall|k: int| 0 <= k < lines@.len() ==> (#[trigger] lines@[k])@.len() > 0,
    ensures
        match res {
            Reading::Ask { prompt, read_error } => frontend_reading(source, lines@) == (
            ReadingModel::<FrontendModel>::Ask { prompt: prompt@, read_error: read_error@ }),
            Reading::Done(frontend) => frontend_reading(source, lines@) == ReadingModel::Done(
                frontend@,
            ),
            Reading::Failed(msg) => frontend_reading(source, lines@) == ReadingModel::<
                FrontendModel,
            >::Failed(msg@),
        },
{
    match source {
        FrontendSource::NoArgs => Reading::Done(InputFrontend::NoArgs),
        FrontendSource::TwoInts { int1, int2 } => Reading::Done(
            InputFrontend::TwoInts { int1, int2 },
        ),
        FrontendSource::AskTwoInts => {
            if lines.len() < 1 {
                return ask_register(1);
            }
            let int1 = match parse_register_line(lines[0].as_str(), 1) {
                Ok(v) => v,
                Err(msg) => {
                    return Reading::Failed(msg);
                },
            };
            if lines.len() < 2 {
                return ask_register(2);
            }
            let int2 = match parse_register_line(lines[1].as_str(), 2) {
                Ok(v) => v,
                Err(msg) => {
                    return Reading::Failed(msg);
                },
            };
            Reading::Done(InputFrontend::TwoInts { int1, int2 })
        },
        FrontendSource::AskArray => {
            if lines.len() < 1 {
                return Reading::Ask {
                    prompt: String::from_str("Enter length of array: "),
                    read_error: String::from_str("Failed to read length of array"),
                };
            }
            let count = match parse_length_line(lines[0].as_str()) {
                Ok(v) => v,
                Err(msg) => {
                    return Reading::Failed(msg);
                },
            };
            let answered = lines.len() - 1;
            let read = if count <= answered {
                count
            } else {
                answered
            };
            let mut array: Vec<i32> = Vec::new();
            let mut k: usize = 0;
            while k < read
                invariant
                    k <= read <= answered,
                    answered == lines@.len() - 1,
                    source == FrontendSource::AskArray,
                    parsed_usize(line_text(lines@[0]@)) == Some(count),
                    read == (if count <= answered {
                        count
                    } else {
                        answered
                    }),
                    forall|j: int| 0 <= j < lines@.len() ==> (#[trigger] lines@[j])@.len() > 0,
                    elements_of(lines@, 1, k as int) == Ok::<Seq<i32>, Seq<char>>(array@),
                decreases read - k,
            {
                match parse_element_line(lines[k + 1].as_str()) {
                    Ok(v) => array.push(v),
                    Err(msg) => {
                        proof {
                            lemma_elements_error_stays(lines@, 1, k + 1, read as int);
                        }
                        return Reading::Failed(msg);
                    },
                }
                k = k + 1;
            }
            if answered < count {
                let mut prompt = String::from_str("Enter array element ");
                push_decimal_nat(&mut prompt, answered as u64);
                prompt.append(": ");
                Reading::Ask { prompt, read_error: String::from_str("Failed to read array element") }
            } else {
                Reading::Done(InputFrontend::Array { array })
            }
        },
    }
}

/// Reads the answers of the frontend from `lines`, which holds all the
/// lines that the input stream yields, each with its line end.
pub fn parse_frontend(source: FrontendSource, lines: &Vec<String>) -> (res: Result<
    InputFrontend,
    String,
>)
    requires
        forall|k: int| 0 <= k < lines@.len() ==> (#[trigger] lines@[k])@.len() > 0,
    ensures
        match res {
            Ok(frontend) => frontend_of(source, lines@) == Ok::<FrontendModel, Seq<char>>(
                frontend@,
            ),
            Err(msg) => frontend_of(source, lines@) == Err::<FrontendModel, Seq<char>>(msg@),
        },
{
    match read_frontend(source, lines) {
        Reading::Ask { prompt, read_error } => Err(read_error),
        Reading::Done(frontend) => Ok(frontend),
        Reading::Failed(msg) => Err(msg),
    }
}

/// Says how far the answers so far bring the reading of the command
/// line: what to ask for next, the command line, or what is wrong. `args`
/// holds the arguments, after the name of the program at position 0;
/// `lines` holds the answers, each a line with its line end. The host
/// starts without answers, and calls this again with one more answer for
/// as long as it is asked for one.
pub fn read_args(args: &Vec<String>, lines: &Vec<String>) -> (res: Reading<ParsedArgs>)
    requires
        forall|k: int| 0 <= k < lines@.len() ==> (#[trigger] lines@[k])@.len() > 0,
    ensures
        match res {
            Reading::Ask { prompt, read_error } => args_reading(args@, lines@) == (
            ReadingModel::<ArgsModel>::Ask { prompt: prompt@, read_error: read_error@ }),
            Reading::Done(parsed) => args_reading(args@, lines@) == ReadingModel::Done(parsed@),
            Reading::Failed(msg) => args_reading(args@, lines@) == ReadingModel::<
                ArgsModel,
            >::Failed(msg@),
        },
{
    let head = match parse_head(args) {
        Ok(head) => head,
        Err(msg) => {
            return Reading::Failed(msg);
        },
    };
    let frontend = match read_frontend(head.source, lines) {
        Reading::Ask { prompt, read_error } => {
            return Reading::Ask { prompt, read_error };
        },
        Reading::Done(frontend) => frontend,
        Reading::Failed(msg) => {
            return Reading::Failed(msg);
        },
    };
    match parse_load_address(args, head.next) {
        Ok(load_address) => Reading::Done(
            ParsedArgs { filename: head.filename, frontend, load_address, flags: head.flags },
        ),
        Err(msg) => Reading::Failed(msg),
    }
}

/// Where the reading of array elements fails after `done` elements, it
/// fails with the same message for every greater number of elements.
pub proof fn lemma_elements_error_stays(lines: Seq<String>, from: int, done: int, count: int)
    requires
        0 <= done <= count,
        elements_of(lines, from, done) is Err,
    ensures
        elements_of(lines, from, count) == elements_of(lines, from, done),
    decreases count - done,
{
    if done < count {
        lemma_elements_error_stays(lines, from, done, count - 1);
    }
}

/// Reads a whole command line. `args` holds the arguments, after the name
/// of the program at position 0; `lines` holds all the lines that the
/// input stream yields, each with its line end, from which the frontends
/// `twoints` and `array` take their numbers.
pub fn parse_args(args: &Vec<String>, lines: &Vec<String>) -> (res: Result<ParsedArgs, String>)
    requires
        forall|k: int| 0 <= k < lines@.len() ==> (#[trigger] lines@[k])@.len() > 0,
    ensures
        match res {
            Ok(parsed) => args_of(args@, lines@) == Ok::<ArgsModel, Seq<char>>(parsed@),
            Err(msg) => args_of(args@, lines@) == Err::<ArgsModel, Seq<char>>(msg@),
        },
{
    match read_args(args, lines) {
        Reading::Ask { prompt, read_error } => Err(read_error),
        Reading::Done(parsed) => Ok(parsed),
        Reading::Failed(msg) => Err(msg),
    }
}

/// The text that says how the program `exec_name` is called.
pub open spec fn usage_text(exec_name: Seq<char>) -> Seq<char> {
    "\nUsage: "@ + exec_name
        + " [OPTIONS] [frontend] <filename> [...args] [load_address]\n   OPTIONS: --debug     Launch an interactive debugger\n\n  frontend: twoints     - <no args>\n            twointsargs - <int1> <int2>\n            array       - <no args>\n            noargs      - <no args>\n"@
}

/// The text that says how the program `exec_name` is called.
pub fn usage(exec_name: &str) -> (text: String)
    ensures
        text@ == usage_text(exec_name@),
{
    let mut text = String::from_str("\nUsage: ");
    text.append(exec_name);
    text.append(
        " [OPTIONS] [frontend] <filename> [...args] [load_address]\n   OPTIONS: --debug     Launch an interactive debugger\n\n  frontend: twoints     - <no args>\n            twointsargs - <int1> <int2>\n            array       - <no args>\n            noargs      - <no args>\n",
    );
    text
}

} // verus!
