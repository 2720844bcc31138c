//! Planned work: commands to run and files to remove, as plain values for
//! whoever carries them out.

use crate::mkv::{Stream, Track};
use crate::utils::texts;
use vstd::prelude::*;

verus! {

/// The model of a command.
pub struct CommandView {
    pub program: Seq<char>,
    pub args: Seq<Seq<char>>,
    pub dir: Option<Seq<char>>,
    pub accepted: Option<Seq<i32>>,
}

/// One run of an external program.
///
/// The run succeeds when the program ends with one of the `accepted` exit
/// codes; where none are named, it succeeds however the program ends. `dir`
/// is the directory to run it in, where that matters.
#[derive(Debug, PartialEq, Eq)]
pub struct Command {
    pub program: String,
    pub args: Vec<String>,
    pub dir: Option<String>,
    pub accepted: Option<Vec<i32>>,
}

impl View for Command {
    type V = CommandView;

    open spec fn view(&self) -> CommandView {
        CommandView {
            program: self.program@,
            args: texts(self.args@),
            dir: match self.dir {
                Some(dir) => Some(dir@),
                None => None,
            },
            accepted: match self.accepted {
                Some(codes) => Some(codes@),
                None => None,
            },
        }
    }
}

/// The model of a command that must end with exit code zero, run in no
/// particular directory.
pub open spec fn strict(program: Seq<char>, args: Seq<Seq<char>>) -> CommandView {
    CommandView { program, args, dir: None, accepted: Some(seq![0i32]) }
}

/// The model of a command that may end with exit code zero or one, run in no
/// particular directory.
pub open spec fn lenient(program: Seq<char>, args: Seq<Seq<char>>) -> CommandView {
    CommandView { program, args, dir: None, accepted: Some(seq![0i32, 1i32]) }
}

/// The model of a command that may end in any way, run in no particular
/// directory.
pub open spec fn careless(program: Seq<char>, args: Seq<Seq<char>>) -> CommandView {
    CommandView { program, args, dir: None, accepted: None }
}

/// The model of a command run in the directory `dir`.
pub open spec fn within(command: CommandView, dir: Seq<char>) -> CommandView {
    CommandView { dir: Some(dir), ..command }
}

impl Command {
    /// A command that must end with exit code zero.
    pub fn new(program: &str, args: Vec<String>) -> (r: Command)
        ensures
            r@ == strict(program@, texts(args@)),
    {
        let mut accepted: Vec<i32> = Vec::new();
        accepted.push(0);
        assert(accepted@ =~= seq![0i32]);
        Command { program: String::from_str(program), args, dir: None, accepted: Some(accepted) }
    }

    /// A command that may end in any way.
    pub fn new_careless(program: &str, args: Vec<String>) -> (r: Command)
        ensures
            r@ == careless(program@, texts(args@)),
    {
        Command { program: String::from_str(program), args, dir: None, accepted: None }
    }

    /// This command, run in the directory `dir`.
    pub fn inside(self, dir: &str) -> (r: Command)
        ensures
            r@ == within(self@, dir@),
    {
        Command {
            program: self.program,
            args: self.args,
            dir: Some(String::from_str(dir)),
            accepted: self.accepted,
        }
    }

    /// A command that may end with exit code zero or one.
    pub fn new_lenient(program: &str, args: Vec<String>) -> (r: Command)
        ensures
            r@ == lenient(program@, texts(args@)),
    {
        let mut accepted: Vec<i32> = Vec::new();
        accepted.push(0);
        accepted.push(1);
        assert(accepted@ =~= seq![0i32, 1i32]);
        Command { program: String::from_str(program), args, dir: None, accepted: Some(accepted) }
    }

    /// Whether a run that ended with `code` succeeded. A run that was killed
    /// has no code; it succeeded only where every ending is accepted.
    pub open spec fn accepts(self, code: Option<i32>) -> bool {
        match self.accepted {
            None => true,
            Some(codes) => match code {
                Some(c) => exists|i: int| 0 <= i < codes@.len() && #[trigger] codes@[i] == c,
                None => false,
            },
        }
    }

    /// Whether a run that ended with `code` succeeded.
    pub fn succeeded(&self, code: Option<i32>) -> (r: bool)
        ensures
            r == self.accepts(code),
    {
        let codes = match &self.accepted {
            None => {
                return true;
            },
            Some(codes) => codes,
        };
        match code {
            None => false,
            Some(c) => {
                let mut i: usize = 0;
                while i < codes.len()
                    invariant
                        code == Some(c),
                        self.accepted == Some(*codes),
                        i <= codes.len(),
                        forall|j: int| 0 <= j < i ==> codes@[j] != c,
                    decreases codes.len() - i,
                {
                    if codes[i] == c {
                        assert(self.accepted->0@[i as int] == c);
                        return true;
                    }
                    i += 1;
                }
                false
            },
        }
    }
}

/// The model of a list of commands.
pub open spec fn commands_view(list: Seq<Command>) -> Seq<CommandView> {
    Seq::new(list.len(), |i: int| list[i]@)
}

/// The model of a plan.
pub struct PlanView {
    pub steps: Seq<CommandView>,
    pub remove: Seq<Seq<char>>,
}

/// Work that leaves no track: the commands to run in order, and the files to
/// remove once they have all succeeded.
#[derive(Debug, PartialEq, Eq)]
pub struct Plan {
    pub steps: Vec<Command>,
    pub remove: Vec<String>,
}

impl View for Plan {
    type V = PlanView;

    open spec fn view(&self) -> PlanView {
        PlanView { steps: commands_view(self.steps@), remove: texts(self.remove@) }
    }
}

/// The model of a job.
pub struct JobView {
    pub steps: Seq<CommandView>,
    pub remove: Seq<Seq<char>>,
    pub result: Track,
}

/// The work of one transformation: the commands to run in order, the files
/// to remove once they have all succeeded, and the track that then results.
#[derive(Debug, PartialEq)]
pub struct Job {
    pub steps: Vec<Command>,
    pub remove: Vec<String>,
    pub result: Stream,
}

impl View for Job {
    type V = JobView;

    open spec fn view(&self) -> JobView {
        JobView {
            steps: commands_view(self.steps@),
            remove: texts(self.remove@),
            result: self.result@,
        }
    }
}

impl Job {
    /// The job of a single command that leaves nothing to remove.
    pub fn single(command: Command, result: Stream) -> (r: Job)
        ensures
            r@ == (JobView { steps: seq![command@], remove: Seq::empty(), result: result@ }),
    {
        let mut steps: Vec<Command> = Vec::new();
        steps.push(command);
        let remove: Vec<String> = Vec::new();
        assert(commands_view(steps@) =~= seq![command@]);
        assert(texts(remove@) =~= Seq::empty());
        Job { steps, remove, result }
    }
}

} // verus!
