//! The types the monitor reasons about, independent of any container runtime.
//! Adapters convert into these types at their boundary.

use vstd::prelude::*;
use crate::text::{ascii_lower, str_eq, to_ascii_lowercase};

verus! {

/// Lifecycle state, normalised across runtimes.
#[derive(Debug, PartialEq, Eq)]
pub enum State {
    Created,
    Running,
    Paused,
    Restarting,
    Exited,
    Dead,
    /// Anything a runtime reports that is not modelled explicitly.
    Other(String),
}

/// The mathematical value of a [`State`].
pub enum StateView {
    Created,
    Running,
    Paused,
    Restarting,
    Exited,
    Dead,
    Other(Seq<char>),
}

impl View for State {
    type V = StateView;

    open spec fn view(&self) -> StateView {
        match self {
            State::Created => StateView::Created,
            State::Running => StateView::Running,
            State::Paused => StateView::Paused,
            State::Restarting => StateView::Restarting,
            State::Exited => StateView::Exited,
            State::Dead => StateView::Dead,
            State::Other(s) => StateView::Other(s@),
        }
    }
}

/// The name under which a state is shown: the lower-case variant name, or the
/// runtime's own text for an unmodelled state.
pub open spec fn state_name(s: StateView) -> Seq<char> {
    match s {
        StateView::Created => "created"@,
        StateView::Running => "running"@,
        StateView::Paused => "paused"@,
        StateView::Restarting => "restarting"@,
        StateView::Exited => "exited"@,
        StateView::Dead => "dead"@,
        StateView::Other(t) => t,
    }
}

/// The state a name denotes, once lower-cased.
pub open spec fn state_named(name: Seq<char>) -> StateView {
    if name == "created"@ {
        StateView::Created
    } else if name == "running"@ {
        StateView::Running
    } else if name == "paused"@ {
        StateView::Paused
    } else if name == "restarting"@ {
        StateView::Restarting
    } else if name == "exited"@ {
        StateView::Exited
    } else if name == "dead"@ {
        StateView::Dead
    } else {
        StateView::Other(name)
    }
}

/// How a runtime's state text is read: case-insensitively, with anything
/// unknown kept (lower-cased) as `Other`.
pub open spec fn parse_state(text: Seq<char>) -> StateView {
    state_named(ascii_lower(text))
}

/// A state whose displayed name, read back, gives the same state: every
/// modelled state, and an unmodelled one whose text is already lower-case and
/// is not the name of a modelled state.
pub open spec fn reads_back(s: StateView) -> bool {
    match s {
        StateView::Other(t) => ascii_lower(t) == t && state_named(t) is Other,
        _ => true,
    }
}

/// Reading a state ignores ASCII case: a text and its lower-cased form denote
/// the same state.
pub proof fn lemma_parse_ignores_case(text: Seq<char>)
    ensures
        parse_state(text) == parse_state(ascii_lower(text)),
{
    crate::text::lemma_ascii_lower_idempotent(text);
}

/// The name of a state read from a text is the lower-cased text: unknown
/// states are kept, only their case is normalised.
pub proof fn lemma_name_of_parsed(text: Seq<char>)
    ensures
        state_name(parse_state(text)) == ascii_lower(text),
{
}

/// Showing a state and reading the name back gives the state again.
pub proof fn lemma_name_reads_back(s: StateView)
    requires
        reads_back(s),
    ensures
        parse_state(state_name(s)) == s,
{
    reveal_strlit("created");
    reveal_strlit("running");
    reveal_strlit("paused");
    reveal_strlit("restarting");
    reveal_strlit("exited");
    reveal_strlit("dead");
    let n = state_name(s);
    match s {
        StateView::Other(t) => {
            assert(ascii_lower(t) == t);
            assert(state_named(t) == StateView::Other(t));
        },
        _ => {
            crate::text::lemma_ascii_lower_of_lower(n);
            assert(ascii_lower(n) == n);
            assert("created"@ != "running"@) by { assert("created"@[0] != "running"@[0]); }
            assert("created"@ != "exited"@);
            assert("paused"@ != "exited"@) by { assert("paused"@[0] != "exited"@[0]); }
        },
    }
}

/// Which state a text denotes: each modelled state exactly when the
/// lower-cased text is its name, and otherwise the unmodelled state holding
/// the lower-cased text.
pub proof fn lemma_parse_state_cases(text: Seq<char>)
    ensures
        parse_state(text) is Created <==> ascii_lower(text) == "created"@,
        parse_state(text) is Running <==> ascii_lower(text) == "running"@,
        parse_state(text) is Paused <==> ascii_lower(text) == "paused"@,
        parse_state(text) is Restarting <==> ascii_lower(text) == "restarting"@,
        parse_state(text) is Exited <==> ascii_lower(text) == "exited"@,
        parse_state(text) is Dead <==> ascii_lower(text) == "dead"@,
        parse_state(text) is Other ==> parse_state(text)->Other_0 == ascii_lower(text),
{
    reveal_strlit("created");
    reveal_strlit("running");
    reveal_strlit("paused");
    reveal_strlit("restarting");
    reveal_strlit("exited");
    reveal_strlit("dead");
    let t = ascii_lower(text);
    let names = seq!["created"@, "running"@, "paused"@, "restarting"@, "exited"@, "dead"@];
    assert forall|a: int, b: int| 0 <= a < b < 6 implies names[a] != names[b] by {
        if names[a].len() == names[b].len() {
            assert(names[a][0] != names[b][0]);
        }
    }
    if t == "created"@ {
        assert(parse_state(text) is Created);
    } else if t == "running"@ {
        assert(names[0] != names[1]);
        assert(parse_state(text) is Running);
    } else if t == "paused"@ {
        assert(names[0] != names[2] && names[1] != names[2]);
        assert(parse_state(text) is Paused);
    } else if t == "restarting"@ {
        assert(names[0] != names[3] && names[1] != names[3] && names[2] != names[3]);
        assert(parse_state(text) is Restarting);
    } else if t == "exited"@ {
        assert(names[0] != names[4] && names[1] != names[4] && names[2] != names[4] && names[3] != names[4]);
        assert(parse_state(text) is Exited);
    } else if t == "dead"@ {
        assert(names[0] != names[5] && names[1] != names[5] && names[2] != names[5] && names[3] != names[5] && names[4] != names[5]);
        assert(parse_state(text) is Dead);
    } else {
        assert(parse_state(text) == StateView::Other(t));
    }
}

/// Reading a state as `from` does yields a state that reads back.
pub proof fn lemma_parsed_reads_back(text: Seq<char>)
    ensures
        reads_back(parse_state(text)),
{
    crate::text::lemma_ascii_lower_idempotent(text);
}

impl Clone for State {
    fn clone(&self) -> (r: Self)
        ensures
            r == *self,
    {
        match self {
            State::Created => State::Created,
            State::Running => State::Running,
            State::Paused => State::Paused,
            State::Restarting => State::Restarting,
            State::Exited => State::Exited,
            State::Dead => State::Dead,
            State::Other(s) => State::Other(s.clone()),
        }
    }
}

impl State {
    pub fn is_running(&self) -> (b: bool)
        ensures
            b <==> self@ is Running,
    {
        match self {
            State::Running => true,
            _ => false,
        }
    }

    pub fn as_str(&self) -> (r: &str)
        ensures
            r@ == state_name(self@),
    {
        match self {
            State::Created => "created",
            State::Running => "running",
            State::Paused => "paused",
            State::Restarting => "restarting",
            State::Exited => "exited",
            State::Dead => "dead",
            State::Other(s) => s.as_str(),
        }
    }

    /// The text the state is displayed as; the same as [`State::as_str`].
    pub fn to_string(&self) -> (r: String)
        ensures
            r@ == state_name(self@),
    {
        self.as_str().to_owned()
    }

    /// Reads a runtime's state text, ignoring ASCII case.
    pub fn from(s: &str) -> (r: State)
        ensures
            r@ == parse_state(s@),
    {
        let lower = to_ascii_lowercase(s);
        let l = lower.as_str();
        if str_eq(l, "created") {
            State::Created
        } else if str_eq(l, "running") {
            State::Running
        } else if str_eq(l, "paused") {
            State::Paused
        } else if str_eq(l, "restarting") {
            State::Restarting
        } else if str_eq(l, "exited") {
            State::Exited
        } else if str_eq(l, "dead") {
            State::Dead
        } else {
            State::Other(lower)
        }
    }
}

/// A container as the monitor cares about it.
#[derive(Debug, PartialEq, Eq)]
pub struct Container {
    pub id: String,
    pub name: String,
    pub image: String,
    pub state: State,
    /// Human-readable detail from the runtime, e.g. "Up 3 hours".
    pub status: String,
}

impl Clone for Container {
    fn clone(&self) -> (r: Self)
        ensures
            r == *self,
    {
        Container {
            id: self.id.clone(),
            name: self.name.clone(),
            image: self.image.clone(),
            state: self.state.clone(),
            status: self.status.clone(),
        }
    }
}

/// An instant in UTC, by its calendar fields. Fields compare in the order
/// they are declared, so the derived order is the chronological one.
#[derive(Debug, Clone, Copy, PartialEq, Eq, PartialOrd, Ord, Hash)]
pub struct Timestamp {
    pub year: i32,
    /// 1 to 12.
    pub month: u8,
    /// 1 to 31.
    pub day: u8,
    pub hour: u8,
    pub minute: u8,
    pub second: u8,
    pub nanosecond: u32,
}

/// One observation of one container at one instant.
#[derive(Debug, PartialEq, Eq)]
pub struct Sample {
    pub at: Timestamp,
    pub container_id: String,
    pub state: State,
}

/// The mathematical value of a [`Sample`].
pub struct SampleView {
    pub at: Timestamp,
    pub container_id: Seq<char>,
    pub state: StateView,
}

impl View for Sample {
    type V = SampleView;

    open spec fn view(&self) -> SampleView {
        SampleView { at: self.at, container_id: self.container_id@, state: self.state@ }
    }
}

impl Clone for Sample {
    fn clone(&self) -> (r: Self)
        ensures
            r == *self,
    {
        Sample { at: self.at, container_id: self.container_id.clone(), state: self.state.clone() }
    }
}

impl Sample {
    pub fn new(at: Timestamp, container: &Container) -> (r: Sample)
        ensures
            r.at == at,
            r.container_id == container.id,
            r.state == container.state,
    {
        Sample { at, container_id: container.id.clone(), state: container.state.clone() }
    }
}

} // verus!
