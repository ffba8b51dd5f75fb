//! The AI terminal deck's agents: which program each one runs, and the
//! interface through which input reaches the running agent.

use vstd::prelude::*;

verus! {

/// The agents the deck can host.
#[derive(Debug, Clone, Copy, PartialEq, Eq, Structural)]
pub enum AgentKind {
    /// OpenCode, an interactive coding agent.
    OpenCode,
    /// A plain `bash` shell.
    Bash,
}

pub open spec fn program_of(kind: AgentKind) -> Seq<char> {
    match kind {
        AgentKind::OpenCode => "opencode"@,
        AgentKind::Bash => "bash"@,
    }
}

impl AgentKind {
    /// The executable the agent runs.
    pub fn program(self) -> (r: &'static str)
        ensures
            r@ == program_of(self),
    {
        match self {
            AgentKind::OpenCode => "opencode",
            AgentKind::Bash => "bash",
        }
    }

    /// The agent's name as shown in the deck.
    pub fn label(self) -> (r: &'static str)
        ensures
            r@ == match self {
                AgentKind::OpenCode => "OpenCode"@,
                AgentKind::Bash => "bash"@,
            },
    {
        match self {
            AgentKind::OpenCode => "OpenCode",
            AgentKind::Bash => "bash",
        }
    }
}

/// The command run inside the terminal: the agent's program and its arguments.
#[derive(Debug, Clone)]
pub struct AgentCommand {
    pub kind: AgentKind,
    pub args: Vec<String>,
}

impl AgentCommand {
    pub fn new(kind: AgentKind, args: Vec<String>) -> (r: AgentCommand)
        ensures
            r.kind == kind,
            r.args == args,
    {
        AgentCommand { kind, args }
    }

    /// The full command line: the program followed by the arguments.
    pub fn argv(&self) -> (r: Vec<String>)
        ensures
            r@.len() == self.args@.len() + 1,
            r@[0]@ == program_of(self.kind),
            forall|i: int| 0 <= i < self.args@.len() ==> #[trigger] r@[i + 1]@ == self.args@[i]@,
    {
        let mut r: Vec<String> = Vec::new();
        r.push(String::from_str(self.kind.program()));
        let mut i: usize = 0;
        while i < self.args.len()
            invariant
                i <= self.args@.len(),
                r@.len() == i + 1,
                r@[0]@ == program_of(self.kind),
                forall|k: int| 0 <= k < i ==> #[trigger] r@[k + 1]@ == self.args@[k]@,
            decreases self.args@.len() - i,
        {
            r.push(self.args[i].clone());
            i = i + 1;
        }
        r
    }
}

/// A running terminal that accepts input and can be resized; shared between
/// the user interface and the agent service.
pub trait PtyTarget {
    /// Writes raw bytes (keys, ANSI sequences) to the terminal.
    fn write_input(&self, bytes: &[u8]) -> Result<(), String>;

    /// Resizes the terminal, which signals the agent to redraw.
    fn resize(&self, rows: u16, cols: u16) -> Result<(), String>;
}

} // verus!
