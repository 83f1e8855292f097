//! What the monitor reads from a container runtime, and how a runtime's
//! listing becomes [`Container`]s.

use vstd::prelude::*;
use crate::domain::{parse_state, Container, State, StateView};

verus! {

/// Why a runtime could not say which containers exist. Callers need not know
/// which runtime adapter produced the failure.
#[derive(Debug, PartialEq, Eq)]
pub enum RuntimeError {
    /// The runtime could not be reached; holds the adapter's description of
    /// the failure.
    Unavailable(String),
    /// The runtime answered with something that does not describe a container.
    Malformed(String),
}

/// One entry of a runtime's container listing, as the runtime reports it:
/// every field may be missing.
#[derive(Debug, PartialEq, Eq)]
pub struct ContainerSummary {
    pub id: Option<String>,
    /// Names, each prefixed with a forward slash; several when legacy links
    /// are in play.
    pub names: Option<Vec<String>>,
    pub image: Option<String>,
    /// The runtime's name for the container's state, in any case.
    pub state: Option<String>,
    pub status: Option<String>,
}

/// How many characters of an id stand in for a missing name.
pub const SHORT_ID_LEN: usize = 12;

/// `s` without its leading forward slashes.
pub open spec fn trim_leading_slashes(s: Seq<char>) -> Seq<char>
    decreases s.len(),
{
    if s.len() > 0 && s[0] == '/' {
        trim_leading_slashes(s.drop_first())
    } else {
        s
    }
}

/// The first `n` characters of `s`, or all of `s` when it is shorter.
pub open spec fn take_chars(s: Seq<char>, n: nat) -> Seq<char> {
    if s.len() <= n {
        s
    } else {
        s.take(n as int)
    }
}

/// The text of an optional field, empty when it is missing.
pub open spec fn text_or_empty(t: Option<String>) -> Seq<char> {
    match t {
        Some(t) => t@,
        None => Seq::empty(),
    }
}

/// The name shown for a listed container: its first name without the leading
/// slashes, or the first characters of its id when it has no name.
pub open spec fn display_name(s: ContainerSummary, id: Seq<char>) -> Seq<char> {
    match s.names {
        Some(names) if names@.len() > 0 => trim_leading_slashes(names@[0]@),
        _ => take_chars(id, SHORT_ID_LEN as nat),
    }
}

/// The state of a listed container: its reported state read case-insensitively,
/// or the unmodelled state "unknown" when none is reported.
pub open spec fn listed_state(s: ContainerSummary) -> StateView {
    match s.state {
        Some(t) => parse_state(t@),
        None => StateView::Other("unknown"@),
    }
}

/// A trimmed name never starts with a slash, and it is what remains of the
/// original name after some leading characters, all slashes, are removed.
pub proof fn lemma_trimmed_name(s: Seq<char>)
    ensures
        trim_leading_slashes(s).len() == 0 || trim_leading_slashes(s)[0] != '/',
        trim_leading_slashes(s).len() <= s.len(),
        trim_leading_slashes(s) == s.skip(s.len() - trim_leading_slashes(s).len()),
        forall|i: int| 0 <= i < s.len() - trim_leading_slashes(s).len() ==> s[i] == '/',
    decreases s.len(),
{
    if s.len() > 0 && s[0] == '/' {
        lemma_trimmed_name(s.drop_first());
        let t = trim_leading_slashes(s.drop_first());
        assert(s.drop_first().skip(s.drop_first().len() - t.len()) =~= s.skip(s.len() - t.len()));
        assert forall|i: int| 0 <= i < s.len() - t.len() implies s[i] == '/' by {
            if i > 0 {
                assert(s[i] == s.drop_first()[i - 1]);
            }
        }
    } else {
        assert(s.skip(0) =~= s);
    }
}

/// The stand-in name of an unnamed container is the start of its id, at most
/// `SHORT_ID_LEN` characters long.
pub proof fn lemma_short_id(id: Seq<char>)
    ensures
        take_chars(id, SHORT_ID_LEN as nat).len() <= SHORT_ID_LEN,
        take_chars(id, SHORT_ID_LEN as nat) == id.take(take_chars(id, SHORT_ID_LEN as nat).len() as int),
{
    if id.len() <= SHORT_ID_LEN {
        assert(id.take(id.len() as int) =~= id);
    }
}

/// The name of a listed container with at least one name is its first name
/// with the leading slashes removed and nothing else: what remains is a
/// suffix of that name, everything removed is a slash, and the result does
/// not start with a slash. Only an unnamed container is named after the first
/// characters of its id.
pub proof fn lemma_display_name(s: ContainerSummary, id: Seq<char>)
    ensures
        (s.names is Some && s.names->0@.len() > 0) ==> {
            let first = s.names->0@[0]@;
            let n = display_name(s, id);
            &&& n.len() <= first.len()
            &&& n == first.skip(first.len() - n.len())
            &&& forall|i: int| 0 <= i < first.len() - n.len() ==> first[i] == '/'
            &&& (n.len() == 0 || n[0] != '/')
        },
        (s.names is None || s.names->0@.len() == 0) ==> {
            let n = display_name(s, id);
            &&& n.len() == if id.len() < 12 { id.len() } else { 12 }
            &&& n == id.take(n.len() as int)
        },
{
    match s.names {
        Some(ns) if ns@.len() > 0 => {
            lemma_trimmed_name(ns@[0]@);
        },
        _ => {
            lemma_short_id(id);
        },
    }
}

proof fn lemma_trim_step(s: Seq<char>, i: int)
    requires
        0 <= i < s.len(),
        s[i] == '/',
    ensures
        trim_leading_slashes(s.skip(i)) == trim_leading_slashes(s.skip(i + 1)),
{
    assert(s.skip(i).drop_first() =~= s.skip(i + 1));
}

/// `s` without its leading forward slashes.
pub fn trim_start_slashes(s: &str) -> (r: String)
    ensures
        r@ == trim_leading_slashes(s@),
{
    let n: usize = s.unicode_len();
    let mut i: usize = 0;
    proof {
        assert(s@.skip(0) =~= s@);
    }
    while i < n && s.get_char(i) == '/'
        invariant
            n == s@.len(),
            i <= n,
            trim_leading_slashes(s@) == trim_leading_slashes(s@.skip(i as int)),
        decreases n - i,
    {
        proof {
            lemma_trim_step(s@, i as int);
        }
        i = i + 1;
    }
    let r = s.substring_char(i, n).to_owned();
    proof {
        assert(r@ =~= s@.skip(i as int));
    }
    r
}

/// The first `n` characters of `s`.
pub fn first_chars(s: &str, n: usize) -> (r: String)
    ensures
        r@ == take_chars(s@, n as nat),
{
    let len: usize = s.unicode_len();
    let end = if n < len {
        n
    } else {
        len
    };
    let r = s.substring_char(0, end).to_owned();
    proof {
        if len <= n {
            assert(r@ =~= s@);
        }
    }
    r
}

/// Turns one listing entry into a [`Container`]. Every field of the entry is
/// optional, so this is where the missing ones are handled.
pub fn convert(summary: ContainerSummary) -> (r: Result<Container, RuntimeError>)
    ensures
        r is Err <==> summary.id is None,
        r matches Err(e) ==> e matches RuntimeError::Malformed(m) && m@ == "container has no id"@,
        r matches Ok(c) ==> {
            &&& c.id == summary.id->0
            &&& c.name@ == display_name(summary, c.id@)
            &&& c.state@ == listed_state(summary)
            &&& c.image@ == text_or_empty(summary.image)
            &&& c.status@ == text_or_empty(summary.status)
        },
        r matches Ok(c) ==> {
            &&& (summary.state is None ==> c.state@ == StateView::Other("unknown"@))
            &&& (summary.state is Some ==> c.state@ == parse_state(summary.state->0@))
            &&& (summary.image is Some ==> c.image == summary.image->0)
            &&& (summary.image is None ==> c.image@.len() == 0)
            &&& (summary.status is Some ==> c.status == summary.status->0)
            &&& (summary.status is None ==> c.status@.len() == 0)
        },
        r matches Ok(c) ==> ((summary.names is Some && summary.names->0@.len() > 0) ==> {
            let first = summary.names->0@[0]@;
            &&& c.name@.len() <= first.len()
            &&& c.name@ == first.skip(first.len() - c.name@.len())
            &&& forall|i: int| 0 <= i < first.len() - c.name@.len() ==> first[i] == '/'
            &&& (c.name@.len() == 0 || c.name@[0] != '/')
        }),
        r matches Ok(c) ==> ((summary.names is None || summary.names->0@.len() == 0) ==> {
            &&& c.name@.len() == if c.id@.len() < 12 { c.id@.len() } else { 12 }
            &&& c.name@ == c.id@.take(c.name@.len() as int)
        }),
{
    let ghost orig = summary;
    let ContainerSummary { id, names, image, state, status } = summary;
    let id = match id {
        Some(id) => id,
        None => {
            return Err(RuntimeError::Malformed("container has no id".to_owned()));
        },
    };
    let name = match &names {
        Some(list) if list.len() > 0 => trim_start_slashes(list[0].as_str()),
        _ => first_chars(id.as_str(), SHORT_ID_LEN),
    };
    let state = match &state {
        Some(t) => State::from(t.as_str()),
        None => State::Other("unknown".to_owned()),
    };
    let image = match image {
        Some(t) => t,
        None => String::new(),
    };
    let status = match status {
        Some(t) => t,
        None => String::new(),
    };
    proof {
        match &names {
            Some(list) if list@.len() > 0 => {
                lemma_trimmed_name(list@[0]@);
            },
            _ => {
                lemma_short_id(id@);
            },
        }
    }
    Ok(Container { id, name, image, state, status })
}

} // verus!
