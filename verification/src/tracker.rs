//! The two trackers that turn what the poller sees into events: which hotcues were
//! already reported for the present crossing, and which title the master deck had last.

use crate::events::{master_change, master_view, MasterEvent, MasterEventView};
use vstd::prelude::*;

verus! {

/// What identifies a hotcue for the purpose of reporting it once: the title of the track
/// and the number of the cue. The deck is no part of it.
#[derive(Debug, Clone)]
pub struct CueKey {
    pub title: String,
    pub cue: u32,
}

/// The mathematical content of a [`CueKey`].
pub struct CueKeyView {
    pub title: Seq<char>,
    pub cue: nat,
}

impl View for CueKey {
    type V = CueKeyView;

    open spec fn view(&self) -> CueKeyView {
        CueKeyView { title: self.title@, cue: self.cue as nat }
    }
}

/// One look at a hotcue: where the cursor of its deck stands and where the cue lies.
pub struct Sighting {
    pub key: CueKeyView,
    pub cursor: int,
    pub marker: int,
}

/// Whether the cursor has reached the cue.
pub open spec fn reached(s: Sighting) -> bool {
    s.cursor >= s.marker
}

/// Whether a sighting is reported, given the keys armed before it: the cursor has reached
/// the cue and the key was not armed.
pub open spec fn fires(armed: Set<CueKeyView>, s: Sighting) -> bool {
    reached(s) && !armed.contains(s.key)
}

/// The keys armed after a sighting: a cue that the cursor has reached is armed, one that
/// the cursor is short of is not.
pub open spec fn armed_after(armed: Set<CueKeyView>, s: Sighting) -> Set<CueKeyView> {
    if reached(s) {
        armed.insert(s.key)
    } else {
        armed.remove(s.key)
    }
}

/// The keys armed after a row of sightings, taken in order.
pub open spec fn replay(armed: Set<CueKeyView>, trace: Seq<Sighting>) -> Set<CueKeyView>
    decreases trace.len(),
{
    if trace.len() == 0 {
        armed
    } else {
        armed_after(replay(armed, trace.drop_last()), trace.last())
    }
}

/// Whether the sighting at index `i` of a row is reported.
pub open spec fn fires_at(armed: Set<CueKeyView>, trace: Seq<Sighting>, i: int) -> bool {
    fires(replay(armed, trace.take(i)), trace[i])
}

/// Whether, strictly between the indices `i` and `j`, every sighting of `key` finds the
/// cursor at or past the cue.
pub open spec fn stays_reached(trace: Seq<Sighting>, key: CueKeyView, i: int, j: int) -> bool {
    forall|m: int| i < m < j && (#[trigger] trace[m]).key == key ==> reached(trace[m])
}

/// The set of hotcues that were reported for their present crossing.
pub struct CueTracker {
    armed: Vec<CueKey>,
}

impl CueTracker {
    #[verifier::type_invariant]
    spec fn distinct(self) -> bool {
        forall|i: int, j: int|
            0 <= i < j < self.armed@.len() ==> (#[trigger] self.armed@[i])@ != (
            #[trigger] self.armed@[j])@
    }

    /// The armed keys.
    pub closed spec fn view(&self) -> Set<CueKeyView> {
        Set::new(|k: CueKeyView| exists|i: int| 0 <= i < self.armed@.len() && self.armed@[i]@ == k)
    }

    /// A tracker with no key armed.
    pub fn new() -> (tracker: Self)
        ensures
            tracker@ == Set::<CueKeyView>::empty(),
    {
        let tracker = CueTracker { armed: Vec::new() };
        assert(tracker@ =~= Set::<CueKeyView>::empty());
        tracker
    }

    fn position(&self, key: &CueKey) -> (found: Option<usize>)
        ensures
            match found {
                Some(i) => i < self.armed@.len() && self.armed@[i as int]@ == key@,
                None => forall|i: int| 0 <= i < self.armed@.len() ==> self.armed@[i]@ != key@,
            },
    {
        let mut i: usize = 0;
        while i < self.armed.len()
            invariant
                i <= self.armed@.len(),
                forall|j: int| 0 <= j < i ==> self.armed@[j]@ != key@,
            decreases self.armed@.len() - i,
        {
            if self.armed[i].cue == key.cue && self.armed[i].title == key.title {
                return Some(i);
            }
            i += 1;
        }
        None
    }

    /// Whether `key` is armed.
    pub fn is_armed(&self, key: &CueKey) -> (armed: bool)
        ensures
            armed == self@.contains(key@),
    {
        self.position(key).is_some()
    }

    /// Takes one look at a hotcue. The result says whether the crossing is to be
    /// reported: it is when the cursor has reached the cue and the key was not armed.
    /// A cue that the cursor has reached is armed afterwards; one that the cursor is
    /// short of is not, so that its next crossing is reported again.
    pub fn observe(&mut self, key: CueKey, cursor: i64, marker: i64) -> (emit: bool)
        ensures
            emit == fires(
                old(self)@,
                Sighting { key: key@, cursor: cursor as int, marker: marker as int },
            ),
            final(self)@ == armed_after(
                old(self)@,
                Sighting { key: key@, cursor: cursor as int, marker: marker as int },
            ),
    {
        proof {
            use_type_invariant(&*self);
        }
        let ghost before = self.armed@;
        let found = self.position(&key);
        if cursor >= marker {
            match found {
                Some(_) => {
                    assert(self@ =~= old(self)@.insert(key@));
                    false
                },
                None => {
                    let mut keys: Vec<CueKey> = Vec::new();
                    core::mem::swap(&mut self.armed, &mut keys);
                    keys.push(key);
                    core::mem::swap(&mut self.armed, &mut keys);
                    proof {
                        assert forall|k: CueKeyView| self@.contains(k) == old(self)@.insert(
                            key@,
                        ).contains(k) by {
                            if old(self)@.insert(key@).contains(k) {
                                if k == key@ {
                                    assert(self.armed@[before.len() as int]@ == k);
                                } else {
                                    let i = choose|i: int|
                                        0 <= i < before.len() && before[i]@ == k;
                                    assert(self.armed@[i]@ == k);
                                }
                            }
                        }
                        assert(self@ =~= old(self)@.insert(key@));
                    }
                    true
                },
            }
        } else {
            match found {
                Some(at) => {
                    let mut keys: Vec<CueKey> = Vec::new();
                    core::mem::swap(&mut self.armed, &mut keys);
                    keys.remove(at);
                    core::mem::swap(&mut self.armed, &mut keys);
                    proof {
                        assert forall|k: CueKeyView| self@.contains(k) == old(self)@.remove(
                            key@,
                        ).contains(k) by {
                            if old(self)@.remove(key@).contains(k) {
                                let i = choose|i: int|
                                    0 <= i < before.len() && before[i]@ == k;
                                if i < at {
                                    assert(self.armed@[i]@ == k);
                                } else {
                                    assert(self.armed@[i - 1]@ == k);
                                }
                            }
                            if self@.contains(k) {
                                let i = choose|i: int|
                                    0 <= i < self.armed@.len() && self.armed@[i]@ == k;
                                if i < at {
                                    assert(before[i]@ == k);
                                } else {
                                    assert(before[i + 1]@ == k);
                                }
                            }
                        }
                        assert(self@ =~= old(self)@.remove(key@));
                    }
                    false
                },
                None => {
                    assert(self@ =~= old(self)@.remove(key@));
                    false
                },
            }
        }
    }
}

/// The title that the master deck had when it was last reported.
pub struct MasterTracker {
    last: String,
}

/// Whether a title queried from the master deck is reported: it is not empty and it
/// differs from the recorded one.
pub open spec fn master_fires(recorded: Seq<char>, title: Seq<char>) -> bool {
    title.len() > 0 && title != recorded
}

/// The title recorded after a query: the queried one where it is reported, else the one
/// recorded before. An empty title never replaces a recorded one.
pub open spec fn master_after(recorded: Seq<char>, title: Seq<char>) -> Seq<char> {
    if master_fires(recorded, title) {
        title
    } else {
        recorded
    }
}

/// The event that a queried title gives rise to, if any.
pub open spec fn master_event(recorded: Seq<char>, title: Seq<char>) -> Option<MasterEventView> {
    if master_fires(recorded, title) {
        Some(master_change(title))
    } else {
        None
    }
}

impl MasterTracker {
    /// The recorded title.
    pub closed spec fn view(&self) -> Seq<char> {
        self.last@
    }

    /// A tracker that has recorded no title yet.
    pub fn new() -> (tracker: Self)
        ensures
            tracker@ == Seq::<char>::empty(),
    {
        MasterTracker { last: String::new() }
    }

    /// The recorded title.
    pub fn recorded(&self) -> (title: &str)
        ensures
            title@ == self@,
    {
        self.last.as_str()
    }

    /// Takes the title queried from the master deck. An event is returned only when the
    /// title is not empty and differs from the recorded one, and only then is it recorded.
    pub fn observe(&mut self, title: String) -> (event: Option<MasterEvent>)
        ensures
            master_view(event) == master_event(old(self)@, title@),
            final(self)@ == master_after(old(self)@, title@),
    {
        if title.as_str().is_empty() || title == self.last {
            None
        } else {
            self.last = title.clone();
            Some(MasterEvent::change(title))
        }
    }
}

/// While the cursor stays at or past a cue, the cue stays armed: if the sighting at `i`
/// has reached the cue of `key`, and every later sighting of `key` before `j` has too,
/// then `key` is armed when the sighting at `j` is taken.
pub proof fn lemma_stays_armed(
    armed: Set<CueKeyView>,
    trace: Seq<Sighting>,
    key: CueKeyView,
    i: int,
    j: int,
)
    requires
        0 <= i < j <= trace.len(),
        trace[i].key == key,
        reached(trace[i]),
        stays_reached(trace, key, i, j),
    ensures
        replay(armed, trace.take(j)).contains(key),
    decreases j - i,
{
    assert(trace.take(j).drop_last() =~= trace.take(j - 1));
    assert(trace.take(j).last() == trace[j - 1]);
    if j - 1 > i {
        assert(trace[j - 1].key == key ==> reached(trace[j - 1]));
        lemma_stays_armed(armed, trace, key, i, j - 1);
    }
}

/// A crossing is reported once: the sighting that first finds the cursor at or past the
/// cue of an unarmed key is reported, and while the cursor stays at or past the cue no
/// later sighting of that key is.
pub proof fn lemma_reported_once_per_crossing(
    armed: Set<CueKeyView>,
    trace: Seq<Sighting>,
    i: int,
    j: int,
)
    requires
        0 <= i < j < trace.len(),
        trace[j].key == trace[i].key,
        reached(trace[i]),
        stays_reached(trace, trace[i].key, i, j),
    ensures
        fires_at(armed, trace, i) <==> !replay(armed, trace.take(i)).contains(trace[i].key),
        !fires_at(armed, trace, j),
{
    lemma_stays_armed(armed, trace, trace[i].key, i, j);
}

/// A cue is reported again only after the cursor was seen short of it: between two
/// reported sightings of one key lies a sighting of that key with the cursor before the cue.
pub proof fn lemma_rearmed_only_after_retreat(
    armed: Set<CueKeyView>,
    trace: Seq<Sighting>,
    i: int,
    j: int,
)
    requires
        0 <= i < j < trace.len(),
        trace[j].key == trace[i].key,
        fires_at(armed, trace, i),
        fires_at(armed, trace, j),
    ensures
        exists|m: int| i < m < j && (#[trigger] trace[m]).key == trace[i].key && !reached(trace[m]),
{
    if stays_reached(trace, trace[i].key, i, j) {
        lemma_stays_armed(armed, trace, trace[i].key, i, j);
    }
}

/// A title that was just taken is not reported when it is queried again.
pub proof fn lemma_master_settles(recorded: Seq<char>, title: Seq<char>)
    ensures
        !master_fires(master_after(recorded, title), title),
{
}

} // verus!
