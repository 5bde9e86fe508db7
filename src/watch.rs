//! Which batches of file-system events tell of a change to the watched file.
use vstd::prelude::*;

verus! {

/// One file-system event in the watched directory: whether it is a modification, and the
/// name of the file it concerns, if it has one.
#[derive(Debug)]
pub struct FileEvent {
    pub modify: bool,
    pub name: Option<String>,
}

/// The event is a modification of the file named `watched`.
pub open spec fn touches(e: FileEvent, watched: Seq<char>) -> bool {
    e.modify && e.name is Some && e.name->0@ == watched
}

/// Whether one batch of events calls for a change notification: it does when any event
/// modifies the watched file, and one notification serves the whole batch.
pub fn batch_changed(events: &[FileEvent], watched: &str) -> (r: bool)
    ensures
        r == exists|i: int| 0 <= i < events@.len() && touches(#[trigger] events@[i], watched@),
{
    let w = String::from_str(watched);
    let mut signaled = false;
    let mut i: usize = 0;
    while i < events.len()
        invariant
            i <= events@.len(),
            w@ == watched@,
            signaled == exists|j: int| 0 <= j < i && touches(#[trigger] events@[j], watched@),
        decreases events@.len() - i,
    {
        if events[i].modify && !signaled {
            match &events[i].name {
                Some(name) => {
                    if *name == w {
                        signaled = true;
                    }
                },
                None => {},
            }
        }
        i = i + 1;
    }
    signaled
}

} // verus!
