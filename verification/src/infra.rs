//! The seams through which the library meets the machine: file system,
//! environment and shell. Implementations live with the application (and
//! in tests); the library states what holds whatever they report.
use vstd::prelude::*;

verus! {

/// Read-only questions about the file system, by path.
pub trait FileSystemTrait {
    fn is_file(&self, path: &str) -> bool;

    fn is_dir(&self, path: &str) -> bool;

    fn path_exists(&self, path: &str) -> bool;

    /// The file's text, or `None` when it cannot be read.
    fn read_to_string(&self, path: &str) -> Option<String>;

    /// The paths of the entries of a directory, or `None` when it cannot
    /// be listed.
    fn read_dir(&self, path: &str) -> Option<Vec<String>>;

    /// The modification time, in nanoseconds after the Unix epoch, or
    /// `None` when it cannot be read.
    fn modified(&self, path: &str) -> Option<u64>;

    /// Creates the directory and its missing parents.
    fn create_dir_all(&self, path: &str) -> Result<(), String>;

    /// Writes the file whole, creating or truncating it.
    fn write(&self, path: &str, contents: &[u8]) -> Result<(), String>;

    /// Moves `from` to `to`, replacing `to`.
    fn rename(&self, from: &str, to: &str) -> Result<(), String>;
}

/// The process environment.
pub trait EnvTrait {
    /// The variable's value, or `None` when it is unset or not unicode.
    fn var(&self, key: &str) -> Option<String>;

    /// Whether `program` is found on `PATH`.
    fn which(&self, program: &str) -> bool;
}

/// A program and its arguments.
#[derive(Debug, PartialEq, Eq)]
pub struct ShellCommand {
    pub program: String,
    pub args: Vec<String>,
}

impl ShellCommand {
    /// The program, without arguments yet.
    pub fn new(program: &str) -> (r: ShellCommand)
        ensures
            r.program@ == program@,
            r.args@.len() == 0,
    {
        ShellCommand { program: crate::text::str_to_string(program), args: Vec::new() }
    }

    /// The command with one more argument at the end.
    pub fn arg(self, arg: &str) -> (r: ShellCommand)
        ensures
            r.program == self.program,
            r.args@.len() == self.args@.len() + 1,
            forall|k: int| 0 <= k < self.args@.len() ==> #[trigger] r.args@[k] == self.args@[k],
            r.args@[self.args@.len() as int]@ == arg@,
    {
        let ShellCommand { program, mut args } = self;
        args.push(crate::text::str_to_string(arg));
        ShellCommand { program, args }
    }
}

/// What a finished command produced.
pub struct ShellOutput {
    pub stdout: Vec<u8>,
    pub stderr: Vec<u8>,
    pub success: bool,
}

/// Runs commands to completion.
pub trait ShellTrait {
    /// The command's output, or `None` when it could not be run.
    fn execute(&self, cmd: &ShellCommand) -> Option<ShellOutput>;

    /// The command's output when fed `stdin`, or `None` when it could not
    /// be run.
    fn execute_with_stdin(&self, cmd: &ShellCommand, stdin: &[u8]) -> Option<ShellOutput>;
}

/// The HTTP methods the library uses.
#[derive(Debug, Clone, Copy, PartialEq, Eq, Structural)]
pub enum HttpMethod {
    Get,
}

/// Performs HTTP requests.
pub trait NetClientTrait {
    /// The response body, or the error's message.
    fn request(&self, method: HttpMethod, url: &str) -> Result<String, String>;
}

} // verus!
