use vstd::prelude::*;

verus! {

/// The subcommands of the command line.
pub enum SubCommand {
    /// Lists ongoing executions.
    List,
    /// Kills executions if any and deletes everything.
    Reset,
    /// Restarts a group of commands, or every ongoing one.
    Restart { group: Option<usize> },
}

/// What the command line holds once it has been parsed.
pub struct CLIArgs {
    /// Kills the delegate commands that this pid, group or name names.
    pub kill: Option<String>,
    /// The group that a started command joins.
    pub group: Option<usize>,
    pub subcommand: Option<SubCommand>,
    /// The words of the command to delegate.
    pub delegate: Vec<String>,
}

/// The one operation that an invocation performs.
pub enum Operation {
    List,
    Reset,
    Restart { group: Option<usize> },
    Kill { token: String },
    Start { command: String, group: Option<usize> },
}

/// An invocation that asks for nothing.
#[derive(Debug, Clone, Copy, PartialEq, Eq, Structural)]
pub enum UsageError {
    NoCommand,
}

/// The words, each separated from the next by one space.
pub open spec fn joined(words: Seq<Seq<char>>) -> Seq<char>
    decreases words.len(),
{
    if words.len() == 0 {
        Seq::empty()
    } else if words.len() == 1 {
        words[0]
    } else {
        joined(words.drop_last()) + seq![' '] + words.last()
    }
}

pub open spec fn views(words: Seq<String>) -> Seq<Seq<char>> {
    words.map_values(|w: String| w@)
}

/// The words, one space between each two.
fn join_words(words: &Vec<String>) -> (r: String)
    ensures
        r@ == joined(views(words@)),
{
    let mut out = String::new();
    let mut i: usize = 0;
    while i < words.len()
        invariant
            i <= words@.len(),
            out@ == joined(views(words@).take(i as int)),
        decreases words@.len() - i,
    {
        let ghost before = views(words@).take(i as int);
        let ghost after = views(words@).take(i + 1);
        assert(after.drop_last() =~= before);
        if i > 0 {
            out.append(" ");
            proof {
                reveal_strlit(" ");
            }
        } else {
            assert(out@ =~= Seq::<char>::empty());
        }
        out.append(words[i].as_str());
        i = i + 1;
        assert(out@ =~= joined(after));
    }
    assert(views(words@).take(i as int) =~= views(words@));
    out
}

/// The operation that `args` selects: a subcommand first, then a kill token,
/// then the command to start; with none of them there is nothing to do.
pub fn operation(args: CLIArgs) -> (r: Result<Operation, UsageError>)
    ensures
        match args.subcommand {
            Some(SubCommand::List) => r matches Ok(Operation::List),
            Some(SubCommand::Reset) => r matches Ok(Operation::Reset),
            Some(SubCommand::Restart { group }) => r matches Ok(Operation::Restart { group: g }) && g == group,
            None => match args.kill {
                Some(k) => r matches Ok(Operation::Kill { token }) && token@ == k@,
                None => if args.delegate@.len() == 0 {
                    r == Err::<Operation, UsageError>(UsageError::NoCommand)
                } else {
                    r matches Ok(Operation::Start { command, group }) && command@ == joined(views(args.delegate@))
                        && group == args.group
                },
            },
        },
{
    match args.subcommand {
        Some(SubCommand::List) => Ok(Operation::List),
        Some(SubCommand::Reset) => Ok(Operation::Reset),
        Some(SubCommand::Restart { group }) => Ok(Operation::Restart { group }),
        None => match args.kill {
            Some(token) => Ok(Operation::Kill { token }),
            None => {
                if args.delegate.len() == 0 {
                    Err(UsageError::NoCommand)
                } else {
                    Ok(Operation::Start { command: join_words(&args.delegate), group: args.group })
                }
            },
        },
    }
}

} // verus!
