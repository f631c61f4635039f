//! A session with the counter: the choices of the user, one after the other,
//! and what each does to the count and to the file.

use crate::counter::{
    count_down, count_up, reaction_down, reaction_up, Effect, FileCounter, Reaction,
};
use crate::dialogs::Choice;
use crate::store::{
    file_after_all, lemma_persisted_count_reads_back, persist_steps, steps_of, stored_count,
    FileOp, FileState,
};
use vstd::prelude::*;

verus! {

/// Whether the session goes on.
#[derive(Clone, Copy, Debug, PartialEq, Eq, Structural)]
pub enum Phase {
    /// The counter listens to the keys.
    Running,
    /// The user quit: nothing is counted or written any more.
    Quitting,
}

/// What a session holds.
pub struct State {
    pub count: int,
    pub data_sync: bool,
    pub phase: Phase,
}

/// What one choice does to a running session, and what it asks for. Once
/// the user quit, the state stays as it is and each choice asks to leave.
pub open spec fn step(state: State, choice: Choice) -> (State, Reaction) {
    match state.phase {
        Phase::Quitting => (state, Reaction::Quit),
        Phase::Running => match choice {
            Choice::Increment => (
                State { count: count_up(state.count), ..state },
                reaction_up(state.count, state.data_sync),
            ),
            Choice::Decrement => (
                State { count: count_down(state.count), ..state },
                reaction_down(state.count, state.data_sync),
            ),
            Choice::Quit => (State { phase: Phase::Quitting, ..state }, Reaction::Quit),
        },
    }
}

/// A session with its file.
pub struct World {
    pub state: State,
    pub file: FileState,
}

/// The session and its file after one choice: the state takes the step, and
/// the file the steps that the reaction asks for.
pub open spec fn world_after(world: World, choice: Choice) -> World {
    World {
        state: step(world.state, choice).0,
        file: file_after_all(world.file, step(world.state, choice).1.steps()),
    }
}

/// The session and its file after the choices, taken from first to last.
pub open spec fn world_after_all(world: World, choices: Seq<Choice>) -> World
    decreases choices.len(),
{
    if choices.len() == 0 {
        world
    } else {
        world_after(world_after_all(world, choices.drop_last()), choices.last())
    }
}

/// Whether the file holds the count of the session.
pub open spec fn file_holds_count(world: World) -> bool {
    stored_count(world.file.content) == Some(world.state.count)
}

/// Whether `choice` changes the count of `state`: the session runs, and the
/// choice counts up below the upper bound or down above the lower bound.
pub open spec fn changes_count(state: State, choice: Choice) -> bool {
    state.phase == Phase::Running && match choice {
        Choice::Increment => state.count < i64::MAX,
        Choice::Decrement => state.count > i64::MIN,
        Choice::Quit => false,
    }
}

/// Whether each of the choices, taken from first to last, changes the count.
pub open spec fn all_change_count(world: World, choices: Seq<Choice>) -> bool {
    forall|k: int|
        0 <= k < choices.len() ==> changes_count(
            (#[trigger] world_after_all(world, choices.take(k))).state,
            choices[k],
        )
}

/// Whether the count of `state` is a signed 64-bit number.
pub open spec fn in_range(state: State) -> bool {
    i64::MIN <= state.count <= i64::MAX
}

/// A session: the counter, and whether it still runs.
#[derive(Clone, Copy, Debug, PartialEq, Eq)]
pub struct Session {
    counter: FileCounter,
    phase: Phase,
}

impl View for Session {
    type V = State;

    closed spec fn view(&self) -> State {
        State {
            count: self.counter.value(),
            data_sync: self.counter.durable(),
            phase: self.phase,
        }
    }
}

impl Session {
    /// The count of a session is a signed 64-bit number.
    pub proof fn lemma_in_range(&self)
        ensures
            in_range(self@),
    {
        self.counter.lemma_value_bounds();
    }

    /// Starts a session with `counter`. The operations put its count in the
    /// file, so that the file holds the count before the first key is read.
    pub fn start(counter: FileCounter) -> (r: (Session, Vec<FileOp>))
        ensures
            r.0@ == (State {
                count: counter.value(),
                data_sync: counter.durable(),
                phase: Phase::Running,
            }),
            steps_of(r.1@) == persist_steps(counter.value(), counter.durable()),
    {
        let ops: Vec<FileOp> = counter.persist();
        (Session { counter, phase: Phase::Running }, ops)
    }

    /// Takes one choice of the user: counts up or down and asks for the new
    /// count to be written, or, at a bound, leaves the count and asks for a
    /// notice; on quit, ends the session.
    pub fn apply(&mut self, choice: Choice) -> (effect: Effect)
        ensures
            final(self)@ == step(old(self)@, choice).0,
            effect@ == step(old(self)@, choice).1,
    {
        match self.phase {
            Phase::Quitting => Effect::Quit,
            Phase::Running => match choice {
                Choice::Increment => self.counter.increment(),
                Choice::Decrement => self.counter.decrement(),
                Choice::Quit => {
                    self.phase = Phase::Quitting;
                    Effect::Quit
                },
            },
        }
    }

    /// Whether the session still runs.
    pub fn is_running(&self) -> (running: bool)
        ensures
            running == (self@.phase == Phase::Running),
    {
        match self.phase {
            Phase::Running => true,
            Phase::Quitting => false,
        }
    }

    /// The count.
    pub fn count(&self) -> (count: i64)
        ensures
            count == self@.count,
    {
        self.counter.count()
    }

    /// The prompt that shows the count and the keys.
    pub fn prompt(&self) -> (text: Vec<u8>)
        ensures
            text@ == crate::counter::prompt_text(self@.count),
    {
        self.counter.prompt()
    }
}

/// Once the session has started, the file holds its count: whatever the file
/// held before, it holds the count after the operations of the start.
pub proof fn lemma_start_writes_count(state: State, file: FileState)
    requires
        in_range(state),
    ensures
        file_holds_count(
            World { state, file: file_after_all(file, persist_steps(state.count, state.data_sync)) },
        ),
{
    lemma_persisted_count_reads_back(file, state.count, state.data_sync);
}

/// A file that holds the count before a choice holds the count after it,
/// whatever the choice: a count that changes is written, and where the count
/// stays (at a bound, on quit, after quit) the file is not touched.
pub proof fn lemma_choice_keeps_count_in_file(world: World, choice: Choice)
    requires
        in_range(world.state),
        file_holds_count(world),
    ensures
        file_holds_count(world_after(world, choice)),
        !changes_count(world.state, choice) ==> world_after(world, choice).file == world.file
            && world_after(world, choice).state.count == world.state.count,
{
    let reaction = step(world.state, choice).1;
    if changes_count(world.state, choice) {
        lemma_persisted_count_reads_back(
            world.file,
            step(world.state, choice).0.count,
            world.state.data_sync,
        );
    } else {
        assert(reaction.steps() =~= Seq::empty());
    }
}

/// A choice that changes the count leaves the new count in the file, whatever
/// the file held before.
pub proof fn lemma_counting_writes_count(world: World, choice: Choice)
    requires
        in_range(world.state),
        changes_count(world.state, choice),
    ensures
        file_holds_count(world_after(world, choice)),
{
    lemma_persisted_count_reads_back(
        world.file,
        step(world.state, choice).0.count,
        world.state.data_sync,
    );
}

/// The count stays a signed 64-bit number through any choices.
pub proof fn lemma_run_in_range(world: World, choices: Seq<Choice>)
    requires
        in_range(world.state),
    ensures
        in_range(world_after_all(world, choices).state),
    decreases choices.len(),
{
    if choices.len() > 0 {
        lemma_run_in_range(world, choices.drop_last());
    }
}

/// Round trip: through any choices that each change the count, after each of
/// them the content of the file reads back as the count of the session.
pub proof fn lemma_round_trip(world: World, choices: Seq<Choice>)
    requires
        in_range(world.state),
        all_change_count(world, choices),
    ensures
        forall|k: int|
            0 < k <= choices.len() ==> file_holds_count(#[trigger] world_after_all(world, choices.take(k))),
{
    assert forall|k: int| 0 < k <= choices.len() implies file_holds_count(
        #[trigger] world_after_all(world, choices.take(k)),
    ) by {
        let before = world_after_all(world, choices.take(k - 1));
        lemma_run_in_range(world, choices.take(k - 1));
        assert(choices.take(k).drop_last() =~= choices.take(k - 1));
        assert(choices.take(k).last() == choices[k - 1]);
        assert(changes_count(before.state, choices[k - 1]));
        lemma_counting_writes_count(before, choices[k - 1]);
    }
}

/// A file that holds the count when the session starts holds the count after
/// any choices, and after each of them.
pub proof fn lemma_file_follows_count(world: World, choices: Seq<Choice>)
    requires
        in_range(world.state),
        file_holds_count(world),
    ensures
        file_holds_count(world_after_all(world, choices)),
        forall|k: int|
            0 <= k <= choices.len() ==> file_holds_count(#[trigger] world_after_all(world, choices.take(k))),
    decreases choices.len(),
{
    if choices.len() > 0 {
        lemma_file_follows_count(world, choices.drop_last());
        lemma_run_in_range(world, choices.drop_last());
        lemma_choice_keeps_count_in_file(world_after_all(world, choices.drop_last()), choices.last());
    }
    assert forall|k: int| 0 <= k <= choices.len() implies file_holds_count(
        #[trigger] world_after_all(world, choices.take(k)),
    ) by {
        if k == choices.len() {
            assert(choices.take(k) =~= choices);
        } else {
            assert(choices.drop_last().take(k) =~= choices.take(k));
        }
    }
}

} // verus!
