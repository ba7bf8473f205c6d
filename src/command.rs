use vstd::prelude::*;

verus! {

/// A request of the command-line client.
#[derive(Debug)]
pub enum Commands {
    Start(String),
    Stop(String),
    Status(Option<String>),
    Backup,
    Restart(String),
    Delete(String),
    Load,
}

/// The verb and the argument that a request sends.
pub open spec fn command_parts(c: Commands) -> (Seq<char>, Seq<char>) {
    match c {
        Commands::Start(m) => ("start"@, m@),
        Commands::Restart(m) => ("restart"@, m@),
        Commands::Stop(m) => ("stop"@, m@),
        Commands::Status(Some(m)) => ("status"@, m@),
        Commands::Status(None) => ("status"@, Seq::empty()),
        Commands::Backup => ("backup"@, Seq::empty()),
        Commands::Delete(m) => ("delete"@, m@),
        Commands::Load => ("message"@, Seq::empty()),
    }
}

impl Commands {
    /// The request line sent to the daemon: `<verb> <argument>`.
    pub fn request_text(&self) -> (r: String)
        ensures
            r@ == command_parts(*self).0 + " "@ + command_parts(*self).1,
    {
        let (verb, arg): (&str, String) = match self {
            Commands::Start(m) => ("start", m.clone()),
            Commands::Restart(m) => ("restart", m.clone()),
            Commands::Stop(m) => ("stop", m.clone()),
            Commands::Status(Some(m)) => ("status", m.clone()),
            Commands::Status(None) => ("status", String::new()),
            Commands::Backup => ("backup", String::new()),
            Commands::Delete(m) => ("delete", m.clone()),
            Commands::Load => ("message", String::new()),
        };
        let mut r = String::from_str(verb);
        r.append(" ");
        r.append(arg.as_str());
        r
    }
}

/// The arguments of a command-line invocation after its command word.
#[derive(Debug)]
pub struct Arguments {
    pub positional: Vec<String>,
    pub flags: Vec<char>,
    pub options: Vec<String>,
}

impl Arguments {
    /// No arguments at all.
    pub fn default() -> (r: Arguments)
        ensures
            r.positional@.len() == 0,
            r.flags@.len() == 0,
            r.options@.len() == 0,
    {
        Arguments { positional: Vec::new(), flags: Vec::new(), options: Vec::new() }
    }
}

} // verus!
