use vstd::prelude::*;
use vstd::string::StringExecFns;

use crate::error::CommandError;
use crate::list::{apply_add, apply_clear, apply_done, apply_remove, listing, TaskList};
use crate::task::next_id_of;
use crate::text::{decimal, decimal_string, join_words, joined, views};

verus! {

/// One request against the collection.
pub enum Command {
    /// Add a task whose description is these words joined with single spaces.
    Add { description: Vec<String> },
    /// Show every task.
    List,
    /// Mark the task with this identifier finished.
    Done { id: usize },
    /// Remove the task with this identifier.
    Remove { id: usize },
    /// Remove every task.
    Clear,
}

/// What a command that succeeded did.
pub enum Outcome {
    /// A task was added under `id`.
    Added { id: usize, description: String },
    /// The collection was shown; these are its lines.
    Listed { lines: Vec<String> },
    /// The task `id` is finished.
    MarkedDone { id: usize },
    /// The task `id` is gone.
    Removed { id: usize },
    /// No task is left.
    Cleared,
}

impl Outcome {
    /// Whether the collection changed and has to be stored again.
    pub open spec fn changes(&self) -> bool {
        !(self is Listed)
    }

    /// The lines that report the outcome.
    pub open spec fn report_lines(&self) -> Seq<Seq<char>> {
        match self {
            Outcome::Added { id, description } => seq![
                "[+] Added #"@ + decimal(*id as nat) + ": "@ + description@,
            ],
            Outcome::Listed { lines } => views(lines@),
            Outcome::MarkedDone { id } => seq!["[✓] Marked #"@ + decimal(*id as nat) + " done."@],
            Outcome::Removed { id } => seq!["[-] Removed #"@ + decimal(*id as nat) + "."@],
            Outcome::Cleared => seq!["[!] All tasks cleared."@],
        }
    }

    /// Whether the collection changed and has to be stored again: every
    /// command but `List` changes it.
    pub fn needs_save(&self) -> (r: bool)
        ensures
            r == self.changes(),
    {
        match self {
            Outcome::Listed { .. } => false,
            _ => true,
        }
    }

    /// The lines that report the outcome to the user.
    pub fn report(self) -> (r: Vec<String>)
        ensures
            views(r@) == self.report_lines(),
    {
        let line = match self {
            Outcome::Added { id, description } => {
                String::from_str("[+] Added #").concat(decimal_string(id).as_str()).concat(
                    ": ",
                ).concat(description.as_str())
            },
            Outcome::Listed { lines } => {
                return lines;
            },
            Outcome::MarkedDone { id } => {
                String::from_str("[✓] Marked #").concat(decimal_string(id).as_str()).concat(
                    " done.",
                )
            },
            Outcome::Removed { id } => {
                String::from_str("[-] Removed #").concat(decimal_string(id).as_str()).concat(".")
            },
            Outcome::Cleared => String::from_str("[!] All tasks cleared."),
        };
        let mut r: Vec<String> = Vec::new();
        r.push(line);
        assert(views(r@) =~= self.report_lines());
        r
    }
}

/// Carries out one command on the collection. On success the collection is
/// changed as the command says; on failure it is left as it was.
pub fn execute(list: &mut TaskList, cmd: Command) -> (r: Result<Outcome, CommandError>)
    requires
        old(list).wf(),
    ensures
        final(list).wf(),
        r matches Ok(o) ==> o.changes() == !(cmd is List),
        r matches Err(_) ==> final(list)@ == old(list)@,
        match cmd {
            Command::Add { description } => {
                let text = joined(views(description@));
                match apply_add(old(list)@, text) {
                    Ok(t) => {
                        &&& final(list)@ == t
                        &&& r matches Ok(Outcome::Added { id, description: d })
                        &&& id == next_id_of(old(list)@)
                        &&& d@ == text
                    },
                    Err(e) => r == Err::<Outcome, CommandError>(e),
                }
            },
            Command::List => {
                &&& final(list)@ == old(list)@
                &&& r matches Ok(Outcome::Listed { lines })
                &&& views(lines@) == listing(old(list)@)
            },
            Command::Done { id } => match apply_done(old(list)@, id) {
                Ok(t) => {
                    &&& final(list)@ == t
                    &&& r matches Ok(Outcome::MarkedDone { id: i })
                    &&& i == id
                },
                Err(e) => r == Err::<Outcome, CommandError>(e),
            },
            Command::Remove { id } => match apply_remove(old(list)@, id) {
                Ok(t) => {
                    &&& final(list)@ == t
                    &&& r matches Ok(Outcome::Removed { id: i })
                    &&& i == id
                },
                Err(e) => r == Err::<Outcome, CommandError>(e),
            },
            Command::Clear => final(list)@ == apply_clear(old(list)@) && r matches Ok(
                Outcome::Cleared,
            ),
        },
{
    match cmd {
        Command::Add { description } => {
            let text = join_words(&description);
            let shown = text.clone();
            match list.add(text) {
                Ok(id) => Ok(Outcome::Added { id, description: shown }),
                Err(e) => Err(e),
            }
        },
        Command::List => Ok(Outcome::Listed { lines: list.listing() }),
        Command::Done { id } => match list.mark_done(id) {
            Ok(()) => Ok(Outcome::MarkedDone { id }),
            Err(e) => Err(e),
        },
        Command::Remove { id } => match list.remove(id) {
            Ok(()) => Ok(Outcome::Removed { id }),
            Err(e) => Err(e),
        },
        Command::Clear => {
            list.clear();
            Ok(Outcome::Cleared)
        },
    }
}

} // verus!
