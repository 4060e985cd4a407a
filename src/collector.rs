use crate::identity::{display_form, normalize_path_string};
use crate::media::{is_media_ext, is_media_extension};
use crate::visited::{claim, claimed_of, new_visited};
use dashmap::DashSet;
use std::collections::hash_map::RandomState;
use vstd::prelude::*;

verus! {

/// What the filesystem showed for one queued path.
pub enum Probe {
    /// The path could not be canonicalised (missing, no permission, dangling link).
    Unreachable,
    /// A directory; `entries` is `None` when it could not be enumerated.
    Directory { identity: String, entries: Option<Vec<String>> },
    /// A regular file, with its extension when it has one that is valid text.
    File { identity: String, extension: Option<String> },
    /// Any other kind of filesystem object.
    Other { identity: String },
}

/// The character sequences of a sequence of strings.
pub open spec fn seq_view(v: Seq<String>) -> Seq<Seq<char>> {
    v.map_values(|s: String| s@)
}

impl Probe {
    /// The canonical identity of the probed path, if it had one.
    pub open spec fn identity_of(self) -> Option<Seq<char>> {
        match self {
            Probe::Unreachable => None,
            Probe::Directory { identity, .. } => Some(identity@),
            Probe::File { identity, .. } => Some(identity@),
            Probe::Other { identity } => Some(identity@),
        }
    }

    /// The paths that a newly claimed probe adds to the queue.
    pub open spec fn children(self) -> Seq<Seq<char>> {
        match self {
            Probe::Directory { entries: Some(es), .. } => seq_view(es@),
            _ => Seq::empty(),
        }
    }

    /// A regular file whose extension marks it as media.
    pub open spec fn is_media_file(self) -> bool {
        match self {
            Probe::File { extension: Some(e), .. } => is_media_ext(e@),
            _ => false,
        }
    }

    /// The result entries that a newly claimed probe adds.
    pub open spec fn emitted(self, windows: bool) -> Seq<Seq<char>> {
        if self.is_media_file() {
            seq![display_form(self.identity_of()->0, windows)]
        } else {
            Seq::empty()
        }
    }

    /// The identities behind the entries that a newly claimed probe adds.
    pub open spec fn reported_ids(self) -> Seq<Seq<char>> {
        if self.is_media_file() {
            seq![self.identity_of()->0]
        } else {
            Seq::empty()
        }
    }
}

/// The message of the one failure: no media file was found.
pub open spec fn no_files_message() -> Seq<char> {
    "No valid files"@
}

/// The two traversal states agree on everything a caller can observe.
pub open spec fn same_state(a: &Collector, b: &Collector) -> bool {
    &&& a.claimed() == b.claimed()
    &&& a.queue() == b.queue()
    &&& a.entries() == b.entries()
    &&& a.reported() == b.reported()
    &&& a.claimed_by() == b.claimed_by()
    &&& a.on_windows() == b.on_windows()
}

/// `post` is `pre` after recording `probe`: an unreachable path or an
/// identity claimed before changes nothing; otherwise the identity is
/// claimed, a directory's entries are queued and a media file is reported.
pub open spec fn absorbed(pre: &Collector, post: &Collector, probe: Probe) -> bool {
    &&& probe.identity_of() is None || pre.claimed().contains(probe.identity_of()->0) ==> same_state(pre, post)
    &&& probe.identity_of() is Some && !pre.claimed().contains(probe.identity_of()->0) ==> {
        &&& post.claimed() == pre.claimed().insert(probe.identity_of()->0)
        &&& post.queue() == pre.queue() + probe.children()
        &&& post.entries() == pre.entries() + probe.emitted(pre.on_windows())
        &&& post.reported() == pre.reported() + probe.reported_ids()
        &&& post.claimed_by() == pre.claimed_by().insert(probe.identity_of()->0, probe)
        &&& post.on_windows() == pre.on_windows()
    }
}

/// One invocation's traversal: the queue of paths still to probe, the set of
/// identities already claimed, and the result entries found so far.
pub struct Collector {
    visited: DashSet<String, RandomState>,
    pending: Vec<String>,
    found: Vec<String>,
    windows: bool,
    reported: Ghost<Seq<Seq<char>>>,
    claimed_by: Ghost<Map<Seq<char>, Probe>>,
}

impl Collector {
    /// The identities claimed so far.
    pub closed spec fn claimed(&self) -> Set<Seq<char>> {
        claimed_of(self.visited)
    }

    /// The paths waiting to be probed.
    pub closed spec fn queue(&self) -> Seq<Seq<char>> {
        seq_view(self.pending@)
    }

    /// The result entries found so far.
    pub closed spec fn entries(&self) -> Seq<Seq<char>> {
        seq_view(self.found@)
    }

    /// The identity behind each result entry, in the same order.
    pub closed spec fn reported(&self) -> Seq<Seq<char>> {
        self.reported@
    }

    /// For each claimed identity, the probe that claimed it.
    pub closed spec fn claimed_by(&self) -> Map<Seq<char>, Probe> {
        self.claimed_by@
    }

    /// Whether canonical paths carry the extended-length prefix here.
    pub closed spec fn on_windows(&self) -> bool {
        self.windows
    }

    /// Each result entry is the display form of its own claimed media
    /// identity, and every claimed media identity has its entry.
    pub closed spec fn wf(&self) -> bool {
        &&& self.reported@.len() == self.found@.len()
        &&& self.reported@.no_duplicates()
        &&& forall|i: int| 0 <= i < self.reported@.len() ==> self.claimed().contains(#[trigger] self.reported@[i])
        &&& forall|i: int| 0 <= i < self.found@.len() ==> (#[trigger] self.found@[i])@ == display_form(self.reported@[i], self.windows)
        &&& self.claimed_by@.dom() == self.claimed()
        &&& forall|id: Seq<char>| #[trigger] self.claimed_by@.contains_key(id) ==> self.claimed_by@[id].identity_of() == Some(id)
        &&& forall|id: Seq<char>| #[trigger] self.reported@.contains(id) <==> self.claimed_by@.contains_key(id) && self.claimed_by@[id].is_media_file()
    }

    /// Starts a traversal from the given roots, with nothing claimed yet.
    pub fn new(roots: Vec<String>, windows: bool) -> (r: Collector)
        ensures
            r.wf(),
            r.claimed() == Set::<Seq<char>>::empty(),
            r.queue() == seq_view(roots@),
            r.entries() == Seq::<Seq<char>>::empty(),
            r.claimed_by() == Map::<Seq<char>, Probe>::empty(),
            r.on_windows() == windows,
    {
        let r = Collector {
            visited: new_visited(),
            pending: roots,
            found: Vec::new(),
            windows,
            reported: Ghost(Seq::empty()),
            claimed_by: Ghost(Map::empty()),
        };
        assert(r.entries() =~= Seq::<Seq<char>>::empty());
        r
    }

    /// Whether no path is waiting to be probed.
    pub fn is_done(&self) -> (r: bool)
        ensures
            r == (self.queue().len() == 0),
    {
        self.pending.len() == 0
    }

    /// Hands out every queued path and empties the queue.
    pub fn take_pending(&mut self) -> (r: Vec<String>)
        requires
            old(self).wf(),
        ensures
            final(self).wf(),
            seq_view(r@) == old(self).queue(),
            final(self).queue() == Seq::<Seq<char>>::empty(),
            final(self).claimed() == old(self).claimed(),
            final(self).entries() == old(self).entries(),
            final(self).reported() == old(self).reported(),
            final(self).claimed_by() == old(self).claimed_by(),
            final(self).on_windows() == old(self).on_windows(),
    {
        let mut r: Vec<String> = Vec::new();
        std::mem::swap(&mut r, &mut self.pending);
        assert(self.queue() =~= Seq::<Seq<char>>::empty());
        r
    }

    /// Records what the filesystem showed for one queued path. An identity
    /// that was claimed before changes nothing, which stops cycles and
    /// overlapping roots; a newly claimed directory queues its entries, and a
    /// newly claimed media file adds its display string to the results.
    pub fn absorb(&mut self, probe: Probe)
        requires
            old(self).wf(),
        ensures
            final(self).wf(),
            absorbed(old(self), final(self), probe),
    {
        let ghost old_found = self.found@;
        let ghost old_pending = self.pending@;
        let ghost old_reported = self.reported@;
        let ghost old_claimed = self.claimed();
        let ghost whole = probe;
        let (identity, children, media) = match probe {
            Probe::Unreachable => (None, None, false),
            Probe::Directory { identity, entries } => (Some(identity), entries, false),
            Probe::File { identity, extension } => {
                let media = match &extension {
                    Some(e) => is_media_extension(e.as_str()),
                    None => false,
                };
                (Some(identity), None, media)
            },
            Probe::Other { identity } => (Some(identity), None, false),
        };
        assert(media == whole.is_media_file());
        assert(children matches Some(es) ==> seq_view(es@) == whole.children());
        assert(children is None ==> whole.children() =~= Seq::<Seq<char>>::empty());
        if let Some(identity) = identity {
            let ghost id = identity@;
            let shown = if media {
                Some(normalize_path_string(identity.as_str(), self.windows))
            } else {
                None
            };
            if claim(&mut self.visited, identity) {
                self.claimed_by = Ghost(self.claimed_by@.insert(id, whole));
                if let Some(es) = children {
                    let mut es = es;
                    self.pending.append(&mut es);
                }
                if let Some(shown) = shown {
                    assert(!old_reported.contains(id));
                    self.found.push(shown);
                    self.reported = Ghost(self.reported@.push(id));
                    assert(self.reported@.no_duplicates());
                }
                assert(self.queue() =~= seq_view(old_pending) + whole.children());
                assert(self.entries() =~= seq_view(old_found) + whole.emitted(self.windows));
                assert(self.reported@ =~= old_reported + whole.reported_ids());
                assert(self.claimed_by@.dom() =~= self.claimed());
                assert forall|k: Seq<char>|
                    #[trigger] self.reported@.contains(k) <==> self.claimed_by@.contains_key(k)
                        && self.claimed_by@[k].is_media_file() by {
                    if k == id {
                        if old_reported.contains(id) {
                            let i = choose|i: int| 0 <= i < old_reported.len() && old_reported[i] == id;
                            assert(old_claimed.contains(old_reported[i]));
                        }
                        if media {
                            assert(self.reported@[self.reported@.len() - 1] == id);
                        } else {
                            assert(self.reported@ == old_reported);
                        }
                    } else {
                        if old_reported.contains(k) {
                            let i = choose|i: int| 0 <= i < old_reported.len() && old_reported[i] == k;
                            assert(self.reported@[i] == k);
                        }
                        if self.reported@.contains(k) {
                            let j = choose|j: int| 0 <= j < self.reported@.len() && self.reported@[j] == k;
                            assert(old_reported[j] == k);
                        }
                    }
                }
            } else {
                assert(self.claimed() =~= old_claimed);
            }
        }
    }

    /// The outcome of the traversal: the result entries, or the failure
    /// message when none was found.
    pub fn finish(self) -> (r: Result<Vec<String>, String>)
        ensures
            self.entries().len() == 0 ==> r is Err && r->Err_0@ == no_files_message(),
            self.entries().len() > 0 ==> r is Ok && seq_view(r->Ok_0@) == self.entries(),
    {
        if self.found.len() == 0 {
            Err(String::from_str("No valid files"))
        } else {
            Ok(self.found)
        }
    }
}

/// A second arrival at an identity adds nothing: recording, one after the
/// other, two probes of the same canonical identity (a link back to an
/// ancestor, or a root nested in another root) gives the state that the
/// first one gave. The traversal of a cyclic link structure therefore stops,
/// and a file reachable along several paths is reported once.
pub proof fn lemma_second_arrival_adds_nothing(
    c0: &Collector,
    c1: &Collector,
    c2: &Collector,
    first: Probe,
    second: Probe,
)
    requires
        first.identity_of() is Some,
        second.identity_of() == first.identity_of(),
        absorbed(c0, c1, first),
        absorbed(c1, c2, second),
    ensures
        same_state(c1, c2),
        c2.claimed().contains(first.identity_of()->0),
{
}

/// Every result entry stands for its own claimed identity: no identity is
/// reported twice, and each entry is the display form of its identity.
pub proof fn lemma_reported_once(c: &Collector)
    requires
        c.wf(),
    ensures
        c.reported().no_duplicates(),
        c.reported().len() == c.entries().len(),
        forall|i: int| 0 <= i < c.reported().len() ==> c.claimed().contains(#[trigger] c.reported()[i]),
        forall|i: int| 0 <= i < c.entries().len() ==> #[trigger] c.entries()[i] == display_form(c.reported()[i], c.on_windows()),
{
}

/// The results are exactly the claimed media files: an identity is reported
/// if and only if it was claimed by a probe of a regular file whose extension
/// is `mp3` or `mp4` in any ASCII case.
pub proof fn lemma_results_are_claimed_media(c: &Collector, id: Seq<char>)
    requires
        c.wf(),
    ensures
        c.reported().contains(id) <==> c.claimed().contains(id) && c.claimed_by()[id].is_media_file(),
        c.claimed().contains(id) ==> c.claimed_by()[id].identity_of() == Some(id),
{
}

/// Recording `probe` on `pre` claims a new identity; only such a step can
/// queue a directory's entries or report a file.
pub open spec fn claims_new(pre: &Collector, probe: Probe) -> bool {
    probe.identity_of() is Some && !pre.claimed().contains(probe.identity_of()->0)
}

/// How many of the first `n` steps of a run claimed a new identity.
pub open spec fn claiming_steps(states: Seq<Collector>, probes: Seq<Probe>, n: nat) -> nat
    decreases n,
{
    if n == 0 {
        0
    } else {
        claiming_steps(states, probes, (n - 1) as nat) + if claims_new(&states[n - 1], probes[n - 1]) {
            1nat
        } else {
            0nat
        }
    }
}

proof fn lemma_claiming_steps_count(states: Seq<Collector>, probes: Seq<Probe>, ids: Set<Seq<char>>, n: nat)
    requires
        states.len() == probes.len() + 1,
        n <= probes.len(),
        states[0].claimed().finite(),
        states[0].claimed().subset_of(ids),
        forall|i: int| 0 <= i < probes.len() ==> absorbed(&states[i], &states[i + 1], #[trigger] probes[i]),
        forall|i: int| 0 <= i < probes.len() && (#[trigger] probes[i]).identity_of() is Some
            ==> ids.contains(probes[i].identity_of()->0),
    ensures
        states[n as int].claimed().finite(),
        states[n as int].claimed().subset_of(ids),
        states[n as int].claimed().len() == states[0].claimed().len() + claiming_steps(states, probes, n),
    decreases n,
{
    if n > 0 {
        let k = (n - 1) as int;
        lemma_claiming_steps_count(states, probes, ids, (n - 1) as nat);
        assert(absorbed(&states[k], &states[k + 1], probes[k]));
    }
}

/// A traversal does a bounded amount of work even where links form cycles:
/// over any run of recorded probes whose identities lie in a finite set of
/// canonical identities, at most that many steps claim a new identity. Every
/// other step changes nothing, so each directory is expanded at most once
/// and the queue empties once the finitely many listings are consumed.
pub proof fn lemma_claiming_steps_bounded(states: Seq<Collector>, probes: Seq<Probe>, ids: Set<Seq<char>>)
    requires
        ids.finite(),
        states.len() == probes.len() + 1,
        states[0].claimed() == Set::<Seq<char>>::empty(),
        forall|i: int| 0 <= i < probes.len() ==> absorbed(&states[i], &states[i + 1], #[trigger] probes[i]),
        forall|i: int| 0 <= i < probes.len() && (#[trigger] probes[i]).identity_of() is Some
            ==> ids.contains(probes[i].identity_of()->0),
    ensures
        claiming_steps(states, probes, probes.len()) <= ids.len(),
        states[probes.len() as int].claimed().subset_of(ids),
{
    lemma_claiming_steps_count(states, probes, ids, probes.len());
    vstd::set_lib::lemma_len_subset(states[probes.len() as int].claimed(), ids);
}

} // verus!
