//! The ways in which one source may fail during a refresh.

use crate::text::{is_prefix, starts_with, str_eq};
use vstd::prelude::*;

verus! {

/// The class of a failure.
#[derive(Clone, Copy, Debug, PartialEq, Eq, Structural)]
pub enum ErrorKind {
    /// The source is configured with a value that cannot be used.
    Configuration,
    /// The request did not get through, or the server refused it.
    Transport,
    /// The server's name could not be resolved: the machine is offline
    /// rather than the source broken.
    Unreachable,
    /// An expected field is missing from a response, or has the wrong type.
    Schema,
    /// A date or another value has an unexpected shape.
    Parse,
}

/// A failure of one source, with a text for the user.
#[derive(Debug)]
pub struct SourceError {
    pub kind: ErrorKind,
    pub message: String,
}

/// The mathematical content of a `SourceError`.
pub struct SourceErrorView {
    pub kind: ErrorKind,
    pub message: Seq<char>,
}

impl View for SourceError {
    type V = SourceErrorView;

    open spec fn view(&self) -> SourceErrorView {
        SourceErrorView { kind: self.kind, message: self.message@ }
    }
}

impl Clone for SourceError {
    fn clone(&self) -> (r: SourceError)
        ensures
            r == *self,
    {
        SourceError { kind: self.kind, message: self.message.clone() }
    }
}

/// How the text of a transport failure begins when a name was not resolved.
pub open spec fn unresolved_name_marker() -> Seq<char> {
    "Transport(Transport { kind: Dns,"@
}

/// The class of a transport failure that is known by its text only.
pub open spec fn transport_kind(message: Seq<char>) -> ErrorKind {
    if is_prefix(unresolved_name_marker(), message) {
        ErrorKind::Unreachable
    } else {
        ErrorKind::Transport
    }
}

impl SourceError {
    /// A failure of the given class.
    pub fn new(kind: ErrorKind, message: String) -> (e: SourceError)
        ensures
            e.kind == kind,
            e.message == message,
    {
        SourceError { kind, message }
    }

    /// A transport failure of which only the text is known: it counts as
    /// `Unreachable` where the text begins with the marker of an
    /// unresolved name, as `Transport` otherwise.
    pub fn from_transport_text(message: String) -> (e: SourceError)
        ensures
            e.kind == transport_kind(message@),
            e.message == message,
    {
        let kind = if starts_with(message.as_str(), "Transport(Transport { kind: Dns,") {
            ErrorKind::Unreachable
        } else {
            ErrorKind::Transport
        };
        SourceError { kind, message }
    }

    /// Whether the failure says that the machine is offline.
    pub fn is_dns_error(&self) -> (r: bool)
        ensures
            r == (self.kind == ErrorKind::Unreachable),
    {
        match self.kind {
            ErrorKind::Unreachable => true,
            _ => false,
        }
    }
}

/// The latest failure of each source that failed, by the name of the
/// source.
#[derive(Debug)]
pub struct ErrorLog {
    entries: Vec<(String, SourceError)>,
}

/// Whether entry `i` is the entry of the source called `name`.
pub open spec fn names_entry(entries: Seq<(String, SourceError)>, i: int, name: Seq<char>) -> bool {
    0 <= i < entries.len() && entries[i].0@ == name
}

/// The failures that a list of entries records, by name.
pub open spec fn logged(entries: Seq<(String, SourceError)>) -> Map<Seq<char>, SourceErrorView> {
    Map::new(
        |name: Seq<char>| exists|i: int| names_entry(entries, i, name),
        |name: Seq<char>| entries[choose|i: int| names_entry(entries, i, name)].1@,
    )
}

/// Whether no two entries have the same name.
pub open spec fn distinct_names(entries: Seq<(String, SourceError)>) -> bool {
    forall|i: int, j: int|
        0 <= i < j < entries.len() ==> #[trigger] entries[i].0@ != #[trigger] entries[j].0@
}

/// What a list of entries records once the failure of `name` was put at
/// `at`, in place of the entry of that name or behind the last entry:
/// that failure under `name`, and what it recorded under every other name.
proof fn lemma_logged_insert(
    before: Seq<(String, SourceError)>,
    after: Seq<(String, SourceError)>,
    at: int,
    name: Seq<char>,
    error: SourceErrorView,
)
    requires
        distinct_names(before),
        0 <= at <= before.len(),
        at < before.len() ==> before[at].0@ == name,
        after.len() == if at < before.len() {
            before.len()
        } else {
            before.len() + 1
        },
        after[at].0@ == name,
        after[at].1@ == error,
        forall|j: int|
            #![trigger after[j]]
            0 <= j < after.len() && j != at ==> after[j].0@ == before[j].0@ && after[j].1@
                == before[j].1@ && before[j].0@ != name,
    ensures
        distinct_names(after),
        logged(after) == logged(before).insert(name, error),
{
    assert forall|a: int, b: int| 0 <= a < b < after.len() implies #[trigger] after[a].0@
        != #[trigger] after[b].0@ by {
        if a != at && b != at {
            assert(after[a].0@ == before[a].0@ && after[b].0@ == before[b].0@);
        }
    }
    assert(names_entry(after, at, name));
    assert forall|k: Seq<char>| #[trigger]
        logged(after).dom().contains(k) == logged(before).insert(name, error).dom().contains(
            k,
        ) by {
        if k != name {
            if exists|j: int| names_entry(after, j, k) {
                let j = choose|j: int| names_entry(after, j, k);
                assert(names_entry(before, j, k));
            }
            if exists|j: int| names_entry(before, j, k) {
                let j = choose|j: int| names_entry(before, j, k);
                assert(names_entry(after, j, k));
            }
        }
    }
    assert forall|k: Seq<char>| #[trigger] logged(after).dom().contains(k) implies logged(after)[k]
        == logged(before).insert(name, error)[k] by {
        let j = choose|j: int| names_entry(after, j, k);
        if k != name {
            assert(names_entry(before, j, k));
            let j0 = choose|j: int| names_entry(before, j, k);
            assert(j0 == j);
        } else {
            assert(j == at);
        }
    }
    assert(logged(after) =~= logged(before).insert(name, error));
}

impl View for ErrorLog {
    type V = Map<Seq<char>, SourceErrorView>;

    closed spec fn view(&self) -> Map<Seq<char>, SourceErrorView> {
        logged(self.entries@)
    }
}

impl ErrorLog {
    #[verifier::type_invariant]
    spec fn well_formed(self) -> bool {
        distinct_names(self.entries@)
    }

    /// A log without failures.
    pub fn new() -> (r: ErrorLog)
        ensures
            r@ == Map::<Seq<char>, SourceErrorView>::empty(),
    {
        let r = ErrorLog { entries: Vec::new() };
        assert(r@ =~= Map::<Seq<char>, SourceErrorView>::empty());
        r
    }

    fn position(&self, name: &str) -> (r: Option<usize>)
        ensures
            match r {
                Some(i) => names_entry(self.entries@, i as int, name@),
                None => forall|i: int| !names_entry(self.entries@, i, name@),
            },
    {
        let mut i: usize = 0;
        while i < self.entries.len()
            invariant
                i <= self.entries.len(),
                forall|j: int| 0 <= j < i ==> !names_entry(self.entries@, j, name@),
            decreases self.entries.len() - i,
        {
            if str_eq(self.entries[i].0.as_str(), name) {
                return Some(i);
            }
            i = i + 1;
        }
        None
    }

    /// Records the failure of the source called `name`, in place of an
    /// earlier one of that source.
    pub fn insert(&mut self, name: String, error: SourceError)
        ensures
            final(self)@ == old(self)@.insert(name@, error@),
    {
        proof {
            use_type_invariant(&*self);
        }
        let ghost before = self.entries@;
        let found = self.position(name.as_str());
        let mut entries: Vec<(String, SourceError)> = Vec::new();
        std::mem::swap(&mut self.entries, &mut entries);
        let ghost at = match found {
            Some(i) => i as int,
            None => before.len() as int,
        };
        match found {
            Some(i) => {
                entries.set(i, (name, error));
            },
            None => {
                entries.push((name, error));
            },
        }
        proof {
            assert forall|j: int|
                #![trigger entries@[j]]
                0 <= j < entries@.len() && j != at implies entries@[j] == before[j] && before[j].0@
                != name@ by {
                assert(!names_entry(before, j, name@) || names_entry(before, at, name@));
            }
            lemma_logged_insert(before, entries@, at, name@, error@);
        }
        self.entries = entries;
    }

    /// Takes the failure of the source called `name` out of the log, if
    /// it holds one.
    pub fn remove(&mut self, name: &str) -> (r: Option<SourceError>)
        ensures
            final(self)@ == old(self)@.remove(name@),
            match r {
                Some(e) => old(self)@.contains_key(name@) && old(self)@[name@] == e@,
                None => !old(self)@.contains_key(name@),
            },
    {
        proof {
            use_type_invariant(&*self);
        }
        let ghost before = self.entries@;
        let found = self.position(name);
        let mut entries: Vec<(String, SourceError)> = Vec::new();
        std::mem::swap(&mut self.entries, &mut entries);
        let removed = match found {
            Some(i) => {
                let entry = entries.remove(i);
                proof {
                    let after = entries@;
                    let i0 = choose|j: int| names_entry(before, j, name@);
                    assert(i0 == i);
                    assert forall|k: Seq<char>| #[trigger]
                        logged(after).dom().contains(k) == logged(before).remove(
                            name@,
                        ).dom().contains(k) by {
                        if exists|j: int| names_entry(after, j, k) {
                            let j = choose|j: int| names_entry(after, j, k);
                            if j < i {
                                assert(names_entry(before, j, k));
                            } else {
                                assert(names_entry(before, j + 1, k));
                            }
                        }
                        if k != name@ && exists|j: int| names_entry(before, j, k) {
                            let j = choose|j: int| names_entry(before, j, k);
                            if j < i {
                                assert(names_entry(after, j, k));
                            } else {
                                assert(names_entry(after, j - 1, k));
                            }
                        }
                    }
                    assert forall|k: Seq<char>| #[trigger]
                        logged(after).dom().contains(k) implies logged(after)[k] == logged(
                        before,
                    ).remove(name@)[k] by {
                        let j = choose|j: int| names_entry(after, j, k);
                        let j1 = if j < i {
                            j
                        } else {
                            j + 1
                        };
                        assert(names_entry(before, j1, k));
                        let j0 = choose|j: int| names_entry(before, j, k);
                        assert(j0 == j1);
                    }
                    assert(logged(after) =~= logged(before).remove(name@));
                }
                Some(entry.1)
            },
            None => {
                assert(logged(before) =~= logged(before).remove(name@));
                None
            },
        };
        self.entries = entries;
        removed
    }

    /// The names of the sources that the log holds a failure of, each once.
    pub fn names(&self) -> (r: Vec<String>)
        ensures
            forall|name: Seq<char>|
                self@.contains_key(name) <==> exists|i: int|
                    0 <= i < r@.len() && #[trigger] r@[i]@ == name,
            forall|i: int, j: int| 0 <= i < j < r@.len() ==> #[trigger] r@[i]@ != #[trigger] r@[j]@,
    {
        proof {
            use_type_invariant(self);
        }
        let mut r: Vec<String> = Vec::new();
        let mut i: usize = 0;
        while i < self.entries.len()
            invariant
                i <= self.entries.len(),
                r@.len() == i,
                forall|j: int| 0 <= j < i ==> #[trigger] r@[j]@ == self.entries@[j].0@,
            decreases self.entries.len() - i,
        {
            r.push(self.entries[i].0.clone());
            i = i + 1;
        }
        proof {
            assert forall|name: Seq<char>| self@.contains_key(name) <==> exists|i: int|
                0 <= i < r@.len() && #[trigger] r@[i]@ == name by {
                if self@.contains_key(name) {
                    let j = choose|j: int| names_entry(self.entries@, j, name);
                    assert(r@[j]@ == name);
                }
                if exists|i: int| 0 <= i < r@.len() && #[trigger] r@[i]@ == name {
                    let j = choose|i: int| 0 <= i < r@.len() && #[trigger] r@[i]@ == name;
                    assert(names_entry(self.entries@, j, name));
                }
            }
        }
        r
    }
}

} // verus!
