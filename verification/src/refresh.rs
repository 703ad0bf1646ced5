//! `usagi refresh`: re-sync engine-managed files (`USAGI.md`,
//! `meta/usagi.lua`, `.luarc.json`) from the running engine version.
//!
//! Interactive by default: for each file that would change, the player
//! is asked `[y/N/a/q]` (yes / no / yes-to-all / quit). `--yes`
//! overwrites without asking; `--dry-run` previews without writing.
//! This module holds the decisions: how a file on disk compares to the
//! engine's copy, how an answer line is read, and how each file moves
//! the running tally. Reading, prompting and writing are done by the
//! caller.

use crate::text::{
    chars_eq, chars_of, concat2, concat3, decimal, decimal_exec, push_all, string_of, trim,
    trim_chars,
};
use vstd::prelude::*;

verus! {

/// How the file on disk compares to the engine's copy.
#[derive(Debug, PartialEq, Eq)]
pub enum Action {
    Identical,
    Missing,
    /// Present but different; carries the previous contents.
    Differs(String),
}

/// An answer to the `[y/N/a/q]` prompt.
#[derive(Debug, PartialEq, Eq, Structural, Clone, Copy)]
pub enum Decision {
    Yes,
    No,
    All,
    Quit,
}

/// The decision named by one prompt line, after trimming.
pub open spec fn decision_of(line: Seq<char>) -> Option<Decision> {
    let t = trim(line);
    if t == "y"@ || t == "Y"@ || t == "yes"@ {
        Some(Decision::Yes)
    } else if t == ""@ || t == "n"@ || t == "N"@ || t == "no"@ {
        Some(Decision::No)
    } else if t == "a"@ || t == "A"@ || t == "all"@ {
        Some(Decision::All)
    } else if t == "q"@ || t == "Q"@ || t == "quit"@ {
        Some(Decision::Quit)
    } else {
        None
    }
}

fn is_word(t: &Vec<char>, w: &str) -> (r: bool)
    ensures
        r == (t@ == w@),
{
    let wv = chars_of(w);
    chars_eq(t.as_slice(), wv.as_slice())
}

/// Decision parser split off from the IO side so prompt logic is
/// checkable without stdin. An empty line means "no"; anything
/// unrecognised is `None` (the prompt repeats).
pub fn parse_decision(line: &str) -> (r: Option<Decision>)
    ensures
        r == decision_of(line@),
{
    let cs = chars_of(line);
    let t = trim_chars(&cs);
    if is_word(&t, "y") || is_word(&t, "Y") || is_word(&t, "yes") {
        Some(Decision::Yes)
    } else if is_word(&t, "") || is_word(&t, "n") || is_word(&t, "N") || is_word(&t, "no") {
        Some(Decision::No)
    } else if is_word(&t, "a") || is_word(&t, "A") || is_word(&t, "all") {
        Some(Decision::All)
    } else if is_word(&t, "q") || is_word(&t, "Q") || is_word(&t, "quit") {
        Some(Decision::Quit)
    } else {
        None
    }
}

/// Compares what is on disk (`None` when the file is missing) with the
/// engine's copy.
pub fn classify(existing: Option<&str>, new_contents: &str) -> (r: Action)
    ensures
        match existing {
            None => r == Action::Missing,
            Some(e) => if e@ == new_contents@ {
                r == Action::Identical
            } else {
                r matches Action::Differs(prev) && prev@ == e@
            },
        },
{
    match existing {
        None => Action::Missing,
        Some(e) => {
            let ev = chars_of(e);
            let nv = chars_of(new_contents);
            if chars_eq(ev.as_slice(), nv.as_slice()) {
                Action::Identical
            } else {
                Action::Differs(e.to_owned())
            }
        },
    }
}

/// Running counts for the closing summary line.
#[derive(Debug, Default, Clone, Copy, PartialEq, Eq, Structural)]
pub struct Tally {
    pub written: usize,
    pub created: usize,
    pub unchanged: usize,
    pub skipped: usize,
    pub pending: usize,
}

impl Tally {
    pub open spec fn total(self) -> int {
        self.written + self.created + self.unchanged + self.skipped + self.pending
    }
}

/// The walk over engine-managed files: the tally so far, whether the
/// player answered "all", and whether they quit.
#[derive(Debug, Clone, Copy, PartialEq, Eq, Structural)]
pub struct Refresh {
    pub tally: Tally,
    pub yes_to_all: bool,
    pub dry_run: bool,
    pub quit: bool,
}

/// What happened to one file.
#[derive(Debug, Clone, Copy, PartialEq, Eq, Structural)]
pub enum Outcome {
    /// Already identical; nothing to do.
    Unchanged,
    /// Dry run: would create or overwrite.
    WouldChange,
    /// Create the missing file.
    Create,
    /// Overwrite the differing file.
    Overwrite,
    /// Player said no; leave it.
    Skip,
    /// Player quit; stop the walk.
    Quit,
}

/// Whether an action needs no write at all.
pub open spec fn is_identical(a: Action) -> bool {
    a matches Action::Identical
}

/// Whether the player must be asked about this file.
pub open spec fn needs_prompt_spec(s: Refresh, a: Action) -> bool {
    !is_identical(a) && !s.dry_run && !s.yes_to_all
}

/// The outcome of one file given the state before it and, when asked,
/// the player's answer.
pub open spec fn outcome_of(s: Refresh, a: Action, answer: Option<Decision>) -> Outcome {
    if is_identical(a) {
        Outcome::Unchanged
    } else if s.dry_run {
        Outcome::WouldChange
    } else {
        let approve = s.yes_to_all || answer == Some(Decision::Yes) || answer == Some(
            Decision::All,
        );
        if !s.yes_to_all && answer == Some(Decision::Quit) {
            Outcome::Quit
        } else if approve {
            if (a matches Action::Missing) {
                Outcome::Create
            } else {
                Outcome::Overwrite
            }
        } else {
            Outcome::Skip
        }
    }
}

/// The tally after one outcome.
pub open spec fn tally_after(t: Tally, o: Outcome) -> Tally {
    match o {
        Outcome::Unchanged => Tally { unchanged: (t.unchanged + 1) as usize, ..t },
        Outcome::WouldChange => Tally { pending: (t.pending + 1) as usize, ..t },
        Outcome::Create => Tally { created: (t.created + 1) as usize, ..t },
        Outcome::Overwrite => Tally { written: (t.written + 1) as usize, ..t },
        Outcome::Skip => Tally { skipped: (t.skipped + 1) as usize, ..t },
        Outcome::Quit => t,
    }
}

impl Refresh {
    pub fn new(yes: bool, dry_run: bool) -> (r: Self)
        ensures
            r.tally == Tally::default_spec(),
            r.yes_to_all == yes,
            r.dry_run == dry_run,
            !r.quit,
    {
        Refresh {
            tally: Tally { written: 0, created: 0, unchanged: 0, skipped: 0, pending: 0 },
            yes_to_all: yes,
            dry_run,
            quit: false,
        }
    }

    /// Whether the player must be asked before handling this file.
    pub fn needs_prompt(&self, a: &Action) -> (r: bool)
        ensures
            r == needs_prompt_spec(*self, *a),
    {
        match a {
            Action::Identical => false,
            _ => !self.dry_run && !self.yes_to_all,
        }
    }

    /// Handles one file. `answer` is the player's reply, required exactly
    /// when `needs_prompt` says so. "All" turns on yes-to-all for the
    /// rest of the walk; "quit" stops it without counting this file.
    pub fn step(&mut self, a: &Action, answer: Option<Decision>) -> (o: Outcome)
        requires
            !old(self).quit,
            old(self).tally.total() < usize::MAX,
            needs_prompt_spec(*old(self), *a) <==> answer is Some,
        ensures
            o == outcome_of(*old(self), *a, answer),
            final(self).tally == tally_after(old(self).tally, o),
            final(self).quit == (o == Outcome::Quit),
            final(self).dry_run == old(self).dry_run,
            final(self).yes_to_all == (old(self).yes_to_all || answer == Some(Decision::All)),
            o != Outcome::Quit ==> final(self).tally.total() == old(self).tally.total() + 1,
    {
        let o = match a {
            Action::Identical => Outcome::Unchanged,
            _ => {
                if self.dry_run {
                    Outcome::WouldChange
                } else {
                    let approve = if self.yes_to_all {
                        true
                    } else {
                        match answer {
                            Some(Decision::Yes) => true,
                            Some(Decision::All) => {
                                self.yes_to_all = true;
                                true
                            },
                            _ => false,
                        }
                    };
                    if !approve && matches!(answer, Some(Decision::Quit)) {
                        Outcome::Quit
                    } else if approve {
                        match a {
                            Action::Missing => Outcome::Create,
                            _ => Outcome::Overwrite,
                        }
                    } else {
                        Outcome::Skip
                    }
                }
            },
        };
        match o {
            Outcome::Unchanged => self.tally.unchanged = self.tally.unchanged + 1,
            Outcome::WouldChange => self.tally.pending = self.tally.pending + 1,
            Outcome::Create => self.tally.created = self.tally.created + 1,
            Outcome::Overwrite => self.tally.written = self.tally.written + 1,
            Outcome::Skip => self.tally.skipped = self.tally.skipped + 1,
            Outcome::Quit => self.quit = true,
        }
        o
    }
}

impl Tally {
    pub open spec fn default_spec() -> Tally {
        Tally { written: 0, created: 0, unchanged: 0, skipped: 0, pending: 0 }
    }
}

/// The prompt shown before creating or overwriting `rel`.
pub open spec fn prompt_text(rel: Seq<char>, a: Action) -> Seq<char> {
    if (a matches Action::Missing) {
        "create "@ + rel + "? [y/N/a/q]: "@
    } else {
        "overwrite "@ + rel + "? [y/N/a/q]: "@
    }
}

/// The prompt shown before creating or overwriting `rel`.
pub fn prompt(rel: &str, a: &Action) -> (r: String)
    ensures
        r@ == prompt_text(rel@, *a),
{
    match a {
        Action::Missing => concat3("create ", rel, "? [y/N/a/q]: "),
        _ => concat3("overwrite ", rel, "? [y/N/a/q]: "),
    }
}

/// The line reported for file `rel` after its outcome; nothing for a
/// skipped file or a quit.
pub open spec fn outcome_text(rel: Seq<char>, a: Action, o: Outcome) -> Option<Seq<char>> {
    match o {
        Outcome::Unchanged => Some(rel + ": identical"@),
        Outcome::WouldChange => if (a matches Action::Missing) {
            Some(rel + ": would create"@)
        } else {
            Some(rel + ": would overwrite"@)
        },
        Outcome::Create => Some("created "@ + rel),
        Outcome::Overwrite => Some("wrote "@ + rel),
        Outcome::Skip => None,
        Outcome::Quit => None,
    }
}

/// The line reported for file `rel` after its outcome.
pub fn outcome_message(rel: &str, a: &Action, o: Outcome) -> (r: Option<String>)
    ensures
        match r {
            Some(m) => outcome_text(rel@, *a, o) == Some(m@),
            None => outcome_text(rel@, *a, o) is None,
        },
{
    match o {
        Outcome::Unchanged => Some(concat2(rel, ": identical")),
        Outcome::WouldChange => match a {
            Action::Missing => Some(concat2(rel, ": would create")),
            _ => Some(concat2(rel, ": would overwrite")),
        },
        Outcome::Create => Some(concat2("created ", rel)),
        Outcome::Overwrite => Some(concat2("wrote ", rel)),
        Outcome::Skip => None,
        Outcome::Quit => None,
    }
}

/// The closing summary line.
pub open spec fn summary_text(t: Tally, dry_run: bool) -> Seq<char> {
    if dry_run {
        "dry-run: "@ + decimal(t.pending as nat) + " would change, "@ + decimal(t.unchanged as nat)
            + " unchanged"@
    } else {
        decimal(t.written as nat) + " updated, "@ + decimal(t.created as nat) + " created, "@
            + decimal(t.unchanged as nat) + " unchanged, "@ + decimal(t.skipped as nat)
            + " skipped"@
    }
}

/// Appends the characters of a literal.
fn push_lit(v: &mut Vec<char>, lit: &str)
    ensures
        final(v)@ == old(v)@ + lit@,
{
    push_all(v, chars_of(lit).as_slice());
}

/// The closing summary line.
pub fn summary(t: &Tally, dry_run: bool) -> (r: String)
    ensures
        r@ == summary_text(*t, dry_run),
{
    let mut v: Vec<char> = Vec::new();
    if dry_run {
        push_lit(&mut v, "dry-run: ");
        push_all(&mut v, decimal_exec(t.pending as u64).as_slice());
        push_lit(&mut v, " would change, ");
        push_all(&mut v, decimal_exec(t.unchanged as u64).as_slice());
        push_lit(&mut v, " unchanged");
    } else {
        push_all(&mut v, decimal_exec(t.written as u64).as_slice());
        push_lit(&mut v, " updated, ");
        push_all(&mut v, decimal_exec(t.created as u64).as_slice());
        push_lit(&mut v, " created, ");
        push_all(&mut v, decimal_exec(t.unchanged as u64).as_slice());
        push_lit(&mut v, " unchanged, ");
        push_all(&mut v, decimal_exec(t.skipped as u64).as_slice());
        push_lit(&mut v, " skipped");
    }
    proof {
        assert(v@ =~= summary_text(*t, dry_run));
    }
    string_of(v.as_slice())
}

/// Why the walk cannot start: the target is not a directory, or
/// answers would be needed but stdin is not a terminal.
pub open spec fn refresh_refusal(path: Seq<char>, is_dir: bool, yes: bool, dry_run: bool, stdin_is_tty: bool) -> Option<Seq<char>> {
    if !is_dir {
        Some(path + " is not a directory; pass a project root."@)
    } else if !yes && !dry_run && !stdin_is_tty {
        Some("stdin is not a terminal; pass --yes to overwrite or --dry-run to preview."@)
    } else {
        None
    }
}

/// Checks that a refresh can run, given what the disk and the terminal
/// report.
pub fn check_refresh(path: &str, is_dir: bool, yes: bool, dry_run: bool, stdin_is_tty: bool) -> (r: Result<(), String>)
    ensures
        match r {
            Ok(()) => refresh_refusal(path@, is_dir, yes, dry_run, stdin_is_tty) is None,
            Err(m) => refresh_refusal(path@, is_dir, yes, dry_run, stdin_is_tty) == Some(m@),
        },
{
    if !is_dir {
        return Err(concat2(path, " is not a directory; pass a project root."));
    }
    if !yes && !dry_run && !stdin_is_tty {
        return Err(
            string_of(
                chars_of(
                    "stdin is not a terminal; pass --yes to overwrite or --dry-run to preview.",
                ).as_slice(),
            ),
        );
    }
    Ok(())
}

/// A dry run never writes: every file is either unchanged or pending.
pub proof fn lemma_dry_run_never_writes(s: Refresh, a: Action, answer: Option<Decision>)
    requires
        s.dry_run,
    ensures
        outcome_of(s, a, answer) == Outcome::Unchanged || outcome_of(s, a, answer)
            == Outcome::WouldChange,
{
}

/// With `--yes` (or after "all") every differing or missing file is
/// written and nobody is asked.
pub proof fn lemma_yes_writes_everything(s: Refresh, a: Action)
    requires
        s.yes_to_all,
        !s.dry_run,
        !is_identical(a),
    ensures
        !needs_prompt_spec(s, a),
        outcome_of(s, a, None) == Outcome::Create || outcome_of(s, a, None) == Outcome::Overwrite,
        (a matches Action::Missing) ==> outcome_of(s, a, None) == Outcome::Create,
{
}

} // verus!
