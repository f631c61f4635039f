//! The counter: the value it starts from, and what counting up and down does
//! to it and to its file.

use crate::decimal::{decimal, render};
use crate::store::{persist_ops, persist_steps, read_count, steps_of, stored_count, FileOp, Step};
use vstd::prelude::*;
use vstd::string::StringSliceAdditionalSpecFns;

verus! {

/// Why a count was left as it is.
#[derive(Clone, Copy, Debug, PartialEq, Eq, Structural)]
pub enum Notice {
    /// The count is the largest there is.
    Overflow,
    /// The count is the smallest there is.
    Underflow,
}

/// What the user says to losing what the file holds.
#[derive(Clone, Copy, Debug, PartialEq, Eq, Structural)]
pub enum Answer {
    Yes,
    No,
    Quit,
}

/// Why no counter was started.
#[derive(Clone, Copy, Debug, PartialEq, Eq, Structural)]
pub enum StartError {
    /// The file holds something that is no count, and the user keeps it.
    InvalidData,
    /// The user quit when asked about the file.
    Quit,
}

/// What is to be done after a choice of the user.
#[derive(Debug, PartialEq, Eq)]
pub enum Effect {
    /// The count changed: run these operations on the file.
    Persist(Vec<FileOp>),
    /// The count stays as it is: tell the user why. The file is not touched.
    Notify(Notice),
    /// Leave: restore the terminal and end with success.
    Quit,
}

/// An [`Effect`], with its file operations as steps.
pub enum Reaction {
    Persist(Seq<Step>),
    Notify(Notice),
    Quit,
}

impl View for Effect {
    type V = Reaction;

    open spec fn view(&self) -> Reaction {
        match *self {
            Effect::Persist(ops) => Reaction::Persist(steps_of(ops@)),
            Effect::Notify(notice) => Reaction::Notify(notice),
            Effect::Quit => Reaction::Quit,
        }
    }
}

impl Reaction {
    /// The steps that the reaction asks to run on the file.
    pub open spec fn steps(self) -> Seq<Step> {
        match self {
            Reaction::Persist(steps) => steps,
            _ => Seq::empty(),
        }
    }
}

/// The count that a counter starts from: the value given, else the count that
/// the file holds, else 0.
pub open spec fn initial_count(value: Option<i64>, content: Seq<u8>) -> int {
    match value {
        Some(v) => v as int,
        None => match stored_count(content) {
            Some(n) => n,
            None => 0,
        },
    }
}

/// Whether the user has to agree before a counter starts: no value is given,
/// and the file holds something, but no count.
pub open spec fn needs_consent(value: Option<i64>, content: Seq<u8>) -> bool {
    value.is_none() && content.len() > 0 && stored_count(content).is_none()
}

/// A value that is given overrides the file: whatever the file holds, the
/// counter starts from the value, and the user is not asked.
pub proof fn lemma_given_value_overrides(value: i64, content: Seq<u8>)
    ensures
        !needs_consent(Some(value), content),
        initial_count(Some(value), content) == value,
{
}

/// Without a value, a file that holds a count starts the counter from that
/// count, and an empty file from 0; in neither case is the user asked.
pub proof fn lemma_file_decides_without_value(content: Seq<u8>)
    ensures
        stored_count(content).is_some() ==> !needs_consent(None, content) && Some(
            initial_count(None, content),
        ) == stored_count(content),
        content.len() == 0 ==> !needs_consent(None, content) && initial_count(None, content) == 0,
{
    if content.len() == 0 {
        assert(crate::store::first_line(content) =~= Seq::<u8>::empty());
    }
}

/// The count after counting up: one more, or the same at the upper bound.
pub open spec fn count_up(count: int) -> int {
    if count < i64::MAX {
        count + 1
    } else {
        count
    }
}

/// The count after counting down: one less, or the same at the lower bound.
pub open spec fn count_down(count: int) -> int {
    if count > i64::MIN {
        count - 1
    } else {
        count
    }
}

/// What counting up asks for: the new count in the file, or a notice at the
/// upper bound.
pub open spec fn reaction_up(count: int, data_sync: bool) -> Reaction {
    if count < i64::MAX {
        Reaction::Persist(persist_steps(count + 1, data_sync))
    } else {
        Reaction::Notify(Notice::Overflow)
    }
}

/// What counting down asks for: the new count in the file, or a notice at the
/// lower bound.
pub open spec fn reaction_down(count: int, data_sync: bool) -> Reaction {
    if count > i64::MIN {
        Reaction::Persist(persist_steps(count - 1, data_sync))
    } else {
        Reaction::Notify(Notice::Underflow)
    }
}

/// The prompt that shows `count`.
pub open spec fn prompt_text(count: int) -> Seq<u8> {
    "Count: ".spec_bytes() + decimal(count) + "    [+/-/q]".spec_bytes()
}

impl Notice {
    /// The line that tells the user of it.
    pub fn message(&self) -> (text: &'static str)
        ensures
            text@ == match *self {
                Notice::Overflow => "overflow!"@,
                Notice::Underflow => "underflow!"@,
            },
    {
        match self {
            Notice::Overflow => "overflow!",
            Notice::Underflow => "underflow!",
        }
    }
}

impl StartError {
    /// What is reported of it, if anything is: leaving on purpose is not
    /// reported.
    pub fn message(&self) -> (text: Option<&'static str>)
        ensures
            match *self {
                StartError::InvalidData => text.is_some() && text.unwrap()@
                    == "File contained non-counter data"@,
                StartError::Quit => text.is_none(),
            },
    {
        match self {
            StartError::InvalidData => Some("File contained non-counter data"),
            StartError::Quit => None,
        }
    }
}

/// A counter that keeps its count in a file.
#[derive(Clone, Copy, Debug, PartialEq, Eq)]
pub struct FileCounter {
    count: i64,
    data_sync: bool,
}

impl FileCounter {
    /// The count.
    pub closed spec fn value(&self) -> int {
        self.count as int
    }

    /// Whether each write waits for the storage medium.
    pub closed spec fn durable(&self) -> bool {
        self.data_sync
    }

    /// The count is a signed 64-bit number.
    pub proof fn lemma_value_bounds(&self)
        ensures
            i64::MIN <= self.value() <= i64::MAX,
    {
    }

    /// Starts a counter for a file with this content: from `value` if one is
    /// given, else from the count that the file holds, else, if the file is
    /// empty, from 0. `None` where the file holds something else and no value
    /// is given: then the user has to agree first, see [`FileCounter::recover`].
    pub fn new(value: Option<i64>, content: &[u8], data_sync: bool) -> (r: Option<FileCounter>)
        ensures
            match r {
                Some(counter) => !needs_consent(value, content@) && counter.value()
                    == initial_count(value, content@) && counter.durable() == data_sync,
                None => needs_consent(value, content@),
            },
    {
        match value {
            Some(v) => Some(FileCounter { count: v, data_sync }),
            None => match read_count(content) {
                Some(n) => Some(FileCounter { count: n, data_sync }),
                None => if content.len() == 0 {
                    Some(FileCounter { count: 0, data_sync })
                } else {
                    None
                },
            },
        }
    }

    /// Starts a counter after the user was asked about a file that holds no
    /// count: from 0 if the answer is yes; else none is started.
    pub fn recover(answer: Answer, data_sync: bool) -> (r: Result<FileCounter, StartError>)
        ensures
            match answer {
                Answer::Yes => r.is_ok() && r.unwrap().value() == 0 && r.unwrap().durable()
                    == data_sync,
                Answer::No => r == Err::<FileCounter, StartError>(StartError::InvalidData),
                Answer::Quit => r == Err::<FileCounter, StartError>(StartError::Quit),
            },
    {
        match answer {
            Answer::Yes => Ok(FileCounter { count: 0, data_sync }),
            Answer::No => Err(StartError::InvalidData),
            Answer::Quit => Err(StartError::Quit),
        }
    }

    /// The count.
    pub fn count(&self) -> (count: i64)
        ensures
            count == self.value(),
    {
        self.count
    }

    /// Whether each write waits for the storage medium.
    pub fn data_sync(&self) -> (data_sync: bool)
        ensures
            data_sync == self.durable(),
    {
        self.data_sync
    }

    /// Counts up by one. At the upper bound the count stays, and a notice
    /// takes the place of the write.
    pub fn increment(&mut self) -> (effect: Effect)
        ensures
            final(self).value() == count_up(old(self).value()),
            final(self).durable() == old(self).durable(),
            effect@ == reaction_up(old(self).value(), old(self).durable()),
    {
        match self.count.checked_add(1) {
            None => Effect::Notify(Notice::Overflow),
            Some(count) => {
                self.count = count;
                Effect::Persist(self.persist())
            },
        }
    }

    /// Counts down by one. At the lower bound the count stays, and a notice
    /// takes the place of the write.
    pub fn decrement(&mut self) -> (effect: Effect)
        ensures
            final(self).value() == count_down(old(self).value()),
            final(self).durable() == old(self).durable(),
            effect@ == reaction_down(old(self).value(), old(self).durable()),
    {
        match self.count.checked_sub(1) {
            None => Effect::Notify(Notice::Underflow),
            Some(count) => {
                self.count = count;
                Effect::Persist(self.persist())
            },
        }
    }

    /// The file operations that put the count in the file.
    pub fn persist(&self) -> (ops: Vec<FileOp>)
        ensures
            steps_of(ops@) == persist_steps(self.value(), self.durable()),
    {
        persist_ops(self.count, self.data_sync)
    }

    /// The prompt that shows the count and the keys.
    pub fn prompt(&self) -> (text: Vec<u8>)
        ensures
            text@ == prompt_text(self.value()),
    {
        let mut text: Vec<u8> = Vec::new();
        let head: &[u8] = "Count: ".as_bytes();
        let tail: &[u8] = "    [+/-/q]".as_bytes();
        let number: Vec<u8> = render(self.count);
        text.extend_from_slice(head);
        assert(text@ =~= "Count: ".spec_bytes());
        text.extend_from_slice(number.as_slice());
        assert(text@ =~= "Count: ".spec_bytes() + decimal(self.value()));
        text.extend_from_slice(tail);
        assert(text@ =~= prompt_text(self.value()));
        text
    }
}

} // verus!
