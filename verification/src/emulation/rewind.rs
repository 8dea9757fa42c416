//! The rewind buffer: compressed snapshots of the core state taken every
//! few frames, bounded by a memory budget, replayed to step back in time.
use vstd::prelude::*;
use crate::codec::{compress, decompress, zlib_compress, zlib_decompress};
use crate::emulation::state::StateBackend;

verus! {

/// Total size of the compressed snapshots in `b`.
pub open spec fn stored_bytes(b: Seq<(u64, Vec<u8>)>) -> nat
    decreases b.len(),
{
    if b.len() == 0 {
        0
    } else {
        stored_bytes(b.drop_last()) + b.last().1@.len()
    }
}

proof fn lemma_stored_bytes_front(b: Seq<(u64, Vec<u8>)>)
    requires
        b.len() > 0,
    ensures
        stored_bytes(b) == b[0].1@.len() + stored_bytes(b.drop_first()),
    decreases b.len(),
{
    if b.len() > 1 {
        lemma_stored_bytes_front(b.drop_last());
        assert(b.drop_last().drop_first() =~= b.drop_first().drop_last());
        assert(b.drop_first().last() == b.last());
        assert(b.drop_last()[0] == b[0]);
        assert(stored_bytes(b.drop_first()) == stored_bytes(b.drop_first().drop_last())
            + b.drop_first().last().1@.len());
    } else {
        assert(stored_bytes(b.drop_first()) == 0);
        assert(stored_bytes(b.drop_last()) == 0);
        assert(b.last() == b[0]);
    }
}

/// The frame numbers of `snapshots`, in order.
pub open spec fn snapshot_frames(snapshots: Seq<(u64, Seq<u8>)>) -> Seq<u64> {
    snapshots.map_values(|s: (u64, Seq<u8>)| s.0)
}

/// Index of the newest snapshot taken before `target`, searching from the
/// back as the buffer is kept in capture order.
pub open spec fn newest_before(frames: Seq<u64>, target: u64) -> Option<int>
    decreases frames.len(),
{
    if frames.len() == 0 {
        None
    } else if frames.last() < target {
        Some(frames.len() - 1)
    } else {
        newest_before(frames.drop_last(), target)
    }
}

proof fn lemma_newest_before(frames: Seq<u64>, target: u64)
    ensures
        match newest_before(frames, target) {
            Some(i) => 0 <= i < frames.len() && frames[i] < target && forall|j: int|
                i < j < frames.len() ==> frames[j] >= target,
            None => forall|j: int| 0 <= j < frames.len() ==> frames[j] >= target,
        },
    decreases frames.len(),
{
    if frames.len() > 0 && frames.last() >= target {
        lemma_newest_before(frames.drop_last(), target);
        assert(forall|j: int| 0 <= j < frames.len() - 1 ==> frames.drop_last()[j] == frames[j]);
    }
}

/// Bytes the snapshots take compressed, each compressed as `capture` does.
pub open spec fn snapshot_bytes(snapshots: Seq<(u64, Seq<u8>)>) -> nat
    decreases snapshots.len(),
{
    if snapshots.len() == 0 {
        0
    } else {
        snapshot_bytes(snapshots.drop_last()) + zlib_compress(snapshots.last().1).len()
    }
}

/// The snapshots left once the oldest are dropped while they exceed
/// `budget` bytes, the newest always kept.
pub open spec fn trimmed(snapshots: Seq<(u64, Seq<u8>)>, budget: int) -> Seq<(u64, Seq<u8>)>
    decreases snapshots.len(),
{
    if snapshots.len() > 1 && snapshot_bytes(snapshots) > budget {
        trimmed(snapshots.drop_first(), budget)
    } else {
        snapshots
    }
}

/// The snapshots after storing `state` taken at `frame`: appended, then
/// trimmed to the budget; unchanged when the byte count would not fit in
/// a `usize`.
pub open spec fn stored(snapshots: Seq<(u64, Seq<u8>)>, budget: usize, frame: u64, state: Seq<u8>) -> Seq<
    (u64, Seq<u8>),
> {
    if snapshot_bytes(snapshots) + zlib_compress(state).len() > usize::MAX {
        snapshots
    } else {
        trimmed(snapshots.push((frame, state)), budget as int)
    }
}

/// The snapshots after a capture at `frame` in which the core gave `state`
/// (`None`: it could not serialize): stored when `frame` is a multiple of
/// the granularity, else unchanged.
pub open spec fn capture_step(
    snapshots: Seq<(u64, Seq<u8>)>,
    granularity: u64,
    budget: usize,
    frame: u64,
    state: Option<Seq<u8>>,
) -> Seq<(u64, Seq<u8>)> {
    match state {
        Some(s) => if frame % granularity == 0 {
            stored(snapshots, budget, frame, s)
        } else {
            snapshots
        },
        None => snapshots,
    }
}

/// Every state the core gave in `states` is `size` bytes long.
pub open spec fn states_sized(states: Seq<Option<Seq<u8>>>, size: nat) -> bool {
    forall|i: int|
        0 <= i < states.len() ==> match #[trigger] states[i] {
            Some(s) => s.len() == size,
            None => true,
        }
}

/// The snapshots after replaying from frame `from` with a capture at each
/// frame `from + 1`, `from + 2`, ..., the core giving `states` in turn.
pub open spec fn replayed(
    snapshots: Seq<(u64, Seq<u8>)>,
    granularity: u64,
    budget: usize,
    from: u64,
    states: Seq<Option<Seq<u8>>>,
) -> Seq<(u64, Seq<u8>)>
    decreases states.len(),
{
    if states.len() == 0 {
        snapshots
    } else {
        capture_step(
            replayed(snapshots, granularity, budget, from, states.drop_last()),
            granularity,
            budget,
            (from + states.len()) as u64,
            states.last(),
        )
    }
}

/// The snapshots up to and including the newest one taken before `target`.
pub open spec fn kept_before(snapshots: Seq<(u64, Seq<u8>)>, target: u64) -> Seq<(u64, Seq<u8>)> {
    match newest_before(snapshot_frames(snapshots), target) {
        Some(i) => snapshots.take(i + 1),
        None => Seq::empty(),
    }
}

/// Trimming drops only the oldest snapshots and never the newest: the
/// result is a suffix of the snapshots that keeps the last one, and it
/// fits the budget unless only that one is left.
pub proof fn lemma_trimmed_keeps_newest(snapshots: Seq<(u64, Seq<u8>)>, budget: int)
    requires
        snapshots.len() > 0,
    ensures
        trimmed(snapshots, budget).len() > 0,
        trimmed(snapshots, budget).last() == snapshots.last(),
        snapshot_bytes(trimmed(snapshots, budget)) <= budget || trimmed(snapshots, budget).len() == 1,
        exists|k: int|
            0 <= k < snapshots.len() && trimmed(snapshots, budget) == snapshots.skip(k),
    decreases snapshots.len(),
{
    if snapshots.len() > 1 && snapshot_bytes(snapshots) > budget {
        let rest = snapshots.drop_first();
        lemma_trimmed_keeps_newest(rest, budget);
        let k = choose|k: int| 0 <= k < rest.len() && trimmed(rest, budget) == rest.skip(k);
        assert(rest.skip(k) =~= snapshots.skip(k + 1));
        assert(rest.last() == snapshots.last());
    } else {
        assert(snapshots.skip(0) =~= snapshots);
    }
}

/// A capture appends its snapshot as the newest exactly when `frame` is on
/// the granularity, the core gave a state, and the byte count fits;
/// otherwise nothing changes. Older snapshots are only ever dropped from
/// the front.
pub proof fn lemma_capture_appends_newest(
    snapshots: Seq<(u64, Seq<u8>)>,
    granularity: u64,
    budget: usize,
    frame: u64,
    state: Option<Seq<u8>>,
)
    ensures
        ({
            let after = capture_step(snapshots, granularity, budget, frame, state);
            match state {
                Some(s) => if frame % granularity == 0 && snapshot_bytes(snapshots) + zlib_compress(s).len()
                    <= usize::MAX {
                    &&& after.len() > 0
                    &&& after.last() == (frame, s)
                    &&& snapshot_bytes(after) <= budget || after.len() == 1
                    &&& exists|k: int|
                        0 <= k <= snapshots.len() && after == snapshots.push((frame, s)).skip(k)
                } else {
                    after == snapshots
                },
                None => after == snapshots,
            }
        }),
{
    if let Some(s) = state {
        if frame % granularity == 0 && snapshot_bytes(snapshots) + zlib_compress(s).len() <= usize::MAX {
            let pushed = snapshots.push((frame, s));
            lemma_trimmed_keeps_newest(pushed, budget as int);
        }
    }
}

proof fn lemma_snapshot_bytes(buffer: Seq<(u64, Vec<u8>)>, states: Seq<Seq<u8>>)
    requires
        buffer.len() == states.len(),
        forall|i: int| 0 <= i < buffer.len() ==> (#[trigger] buffer[i]).1@ == zlib_compress(states[i]),
    ensures
        stored_bytes(buffer) == snapshot_bytes(Seq::new(buffer.len(), |i: int| (buffer[i].0, states[i]))),
    decreases buffer.len(),
{
    let view = Seq::new(buffer.len(), |i: int| (buffer[i].0, states[i]));
    if buffer.len() > 0 {
        let b = buffer.drop_last();
        let s = states.drop_last();
        assert(forall|i: int| 0 <= i < b.len() ==> (#[trigger] b[i]) == buffer[i]);
        lemma_snapshot_bytes(b, s);
        assert(Seq::new(b.len(), |i: int| (b[i].0, s[i])) =~= view.drop_last());
        assert(buffer.last() == buffer[buffer.len() - 1]);
    }
}

/// Runs the core one frame per call while a rewind replays, and keeps, in
/// ghost state, the count of frames it ran.
pub struct FrameRunner<F: FnMut()> {
    run: F,
    frames: Ghost<nat>,
}

impl<F: FnMut()> FrameRunner<F> {
    /// Frames run so far.
    pub closed spec fn frames_run(&self) -> nat {
        self.frames@
    }

    /// A runner that runs a frame by calling `run`; no frame run yet.
    pub fn new(run: F) -> (r: Self)
        ensures
            r.frames_run() == 0,
    {
        FrameRunner { run, frames: Ghost(0) }
    }

    /// Runs one frame.
    pub fn run_frame(&mut self)
        requires
            forall|f: F| #[trigger] f.requires(()),
        ensures
            final(self).frames_run() == old(self).frames_run() + 1,
    {
        (self.run)();
        self.frames = Ghost(self.frames@ + 1);
    }
}

pub struct Rewind {
    granularity: u64,
    budget: usize,
    state_size: usize,
    scratch: Vec<u8>,
    buffer: std::collections::VecDeque<(u64, Vec<u8>)>,
    used: usize,
    states: Ghost<Seq<Seq<u8>>>,
}

impl View for Rewind {
    /// The snapshots in capture order: frame number and core state.
    type V = Seq<(u64, Seq<u8>)>;

    closed spec fn view(&self) -> Seq<(u64, Seq<u8>)> {
        Seq::new(self.buffer@.len(), |i: int| (self.buffer@[i].0, self.states@[i]))
    }
}

impl Rewind {
    /// Frames between snapshots.
    pub closed spec fn granularity_spec(&self) -> u64 {
        self.granularity
    }

    /// The size of the core's state, in bytes: the room given to the core to
    /// serialize into, and the room a restored snapshot is decoded into.
    pub closed spec fn state_size_spec(&self) -> usize {
        self.state_size
    }

    /// The memory budget for compressed snapshots, in bytes.
    pub closed spec fn budget_spec(&self) -> usize {
        self.budget
    }

    /// Bytes the compressed snapshots take.
    pub closed spec fn used_spec(&self) -> nat {
        stored_bytes(self.buffer@)
    }

    /// The buffer's invariant: the scratch buffer holds one state, the byte count is right, every snapshot
    /// decodes to its recorded state, every snapshot frame is a multiple of
    /// the granularity, and the budget holds unless one snapshot is left.
    pub closed spec fn wf(&self) -> bool {
        &&& self.granularity > 0
        &&& self.state_size > 0
        &&& self.scratch@.len() == self.state_size
        &&& self.states@.len() == self.buffer@.len()
        &&& self.used == stored_bytes(self.buffer@)
        &&& forall|i: int|
            0 <= i < self.buffer@.len() ==> zlib_decompress(#[trigger] self.buffer@[i].1@) == Some(
                self.states@[i],
            )
        &&& forall|i: int|
            0 <= i < self.buffer@.len() ==> (#[trigger] self.buffer@[i]).1@ == zlib_compress(self.states@[i])
        &&& forall|i: int|
            0 <= i < self.buffer@.len() ==> (#[trigger] self.buffer@[i]).0 % self.granularity == 0
        &&& (self.used <= self.budget || self.buffer@.len() <= 1)
    }

    /// The buffer's byte accounting: the bytes counted are those of the
    /// stored snapshots, and they fit the budget unless at most one
    /// snapshot is left.
    pub proof fn lemma_budget(&self)
        requires
            self.wf(),
        ensures
            self.used_spec() == snapshot_bytes(self@),
            self.used_spec() <= self.budget_spec() || self@.len() <= 1,
    {
        self.lemma_used();
    }

    proof fn lemma_used(&self)
        requires
            self.states@.len() == self.buffer@.len(),
            forall|i: int|
                0 <= i < self.buffer@.len() ==> (#[trigger] self.buffer@[i]).1@ == zlib_compress(self.states@[i]),
        ensures
            stored_bytes(self.buffer@) == snapshot_bytes(self@),
    {
        lemma_snapshot_bytes(self.buffer@, self.states@);
        assert(self@ =~= Seq::new(self.buffer@.len(), |i: int| (self.buffer@[i].0, self.states@[i])));
    }

    /// A rewind buffer for cores whose state is `state_size` bytes, taking a
    /// snapshot every `granularity` frames within `budget` bytes; `None` when
    /// either size is zero.
    pub fn new(state_size: usize, granularity: u64, budget: usize) -> (r: Option<Self>)
        ensures
            match r {
                Some(rw) => state_size > 0 && granularity > 0 && rw.wf() && rw@.len() == 0
                    && rw.granularity_spec() == granularity && rw.budget_spec() == budget
                    && rw.state_size_spec() == state_size,
                None => state_size == 0 || granularity == 0,
            },
    {
        if state_size == 0 || granularity == 0 {
            return None;
        }
        Some(
            Rewind {
                granularity,
                budget,
                state_size,
                scratch: vec![0u8; state_size],
                buffer: std::collections::VecDeque::new(),
                used: 0,
                states: Ghost(Seq::empty()),
            },
        )
    }

    /// Frames of the stored snapshots, oldest first.
    pub fn frames(&self) -> (r: Vec<u64>)
        requires
            self.wf(),
        ensures
            r@ == snapshot_frames(self@),
    {
        let mut out: Vec<u64> = Vec::new();
        let mut i: usize = 0;
        while i < self.buffer.len()
            invariant
                self.wf(),
                i <= self.buffer@.len(),
                out@ =~= snapshot_frames(self@).subrange(0, i as int),
            decreases self.buffer@.len() - i,
        {
            out.push(self.buffer[i].0);
            i += 1;
        }
        out
    }

    /// Bytes the compressed snapshots take.
    pub fn used(&self) -> (r: usize)
        requires
            self.wf(),
        ensures
            r == self.used_spec(),
    {
        self.used
    }

    /// Stores `state`, taken at `frame`, as a new snapshot (see `stored`):
    /// it is compressed and appended, and the oldest snapshots are dropped
    /// while the budget is exceeded, keeping at least the newest.
    pub fn store(&mut self, frame: u64, state: &[u8])
        requires
            old(self).wf(),
            frame % old(self).granularity_spec() == 0,
        ensures
            final(self).wf(),
            final(self).granularity_spec() == old(self).granularity_spec(),
            final(self).budget_spec() == old(self).budget_spec(),
            final(self).state_size_spec() == old(self).state_size_spec(),
            final(self)@ == stored(old(self)@, old(self).budget_spec(), frame, state@),
    {
        let compressed = compress(state);
        self.push_compressed(frame, compressed, Ghost(state@));
    }

    /// Appends the snapshot `compressed` of `state` and trims to the budget.
    fn push_compressed(&mut self, frame: u64, compressed: Vec<u8>, Ghost(state): Ghost<Seq<u8>>)
        requires
            old(self).wf(),
            frame % old(self).granularity_spec() == 0,
            compressed@ == zlib_compress(state),
            zlib_decompress(compressed@) == Some(state),
        ensures
            final(self).wf(),
            final(self).granularity_spec() == old(self).granularity_spec(),
            final(self).budget_spec() == old(self).budget_spec(),
            final(self).state_size_spec() == old(self).state_size_spec(),
            final(self)@ == stored(old(self)@, old(self).budget_spec(), frame, state),
    {
        let len = compressed.len();
        proof {
            self.lemma_used();
        }
        if len > usize::MAX - self.used {
            return;
        }
        let ghost before = self@;
        self.used = self.used + len;
        self.buffer.push_back((frame, compressed));
        self.states = Ghost(self.states@.push(state));
        assert(self.buffer@.drop_last() =~= old(self).buffer@);
        assert(self@ =~= before.push((frame, state)));
        let ghost pushed = self@;
        while self.used > self.budget && self.buffer.len() > 1
            invariant
                self.granularity == old(self).granularity,
                self.budget == old(self).budget,
                self.state_size == old(self).state_size,
                self.granularity > 0,
                self.state_size > 0,
                self.scratch@.len() == self.state_size,
                self.states@.len() == self.buffer@.len(),
                self.used == stored_bytes(self.buffer@),
                forall|i: int|
                    0 <= i < self.buffer@.len() ==> zlib_decompress(#[trigger] self.buffer@[i].1@)
                        == Some(self.states@[i]),
                forall|i: int|
                    0 <= i < self.buffer@.len() ==> (#[trigger] self.buffer@[i]).1@ == zlib_compress(
                        self.states@[i],
                    ),
                forall|i: int|
                    0 <= i < self.buffer@.len() ==> (#[trigger] self.buffer@[i]).0
                        % self.granularity == 0,
                trimmed(self@, self.budget as int) == trimmed(pushed, self.budget as int),
            decreases self.buffer@.len(),
        {
            proof {
                lemma_stored_bytes_front(self.buffer@);
                self.lemma_used();
            }
            let ghost prev = self@;
            let popped = self.buffer.pop_front();
            match popped {
                Some((_, data)) => {
                    self.used = self.used - data.len();
                },
                None => {},
            }
            self.states = Ghost(self.states@.drop_first());
            proof {
                assert(self@ =~= prev.drop_first());
            }
        }
        proof {
            self.lemma_used();
        }
    }

    /// Takes a snapshot when `frame` is a multiple of the granularity and the
    /// core serializes its state (see `store`). Whatever the core does, the
    /// snapshots become `capture_step` of the state it gave, if any.
    pub fn capture(&mut self, backend: &dyn StateBackend, frame: u64)
        requires
            old(self).wf(),
        ensures
            final(self).wf(),
            final(self).granularity_spec() == old(self).granularity_spec(),
            final(self).budget_spec() == old(self).budget_spec(),
            final(self).state_size_spec() == old(self).state_size_spec(),
            exists|state: Option<Seq<u8>>|
                (state matches Some(s) ==> s.len() == old(self).state_size_spec()) && final(self)@
                    == #[trigger] capture_step(
                    old(self)@,
                    old(self).granularity_spec(),
                    old(self).budget_spec(),
                    frame,
                    state,
                ),
    {
        if frame % self.granularity != 0 {
            assert(self@ == capture_step(old(self)@, old(self).granularity_spec(), old(self).budget_spec(), frame, None));
            return;
        }
        if !backend.serialize(self.scratch.as_mut_slice()) {
            assert(self@ == capture_step(old(self)@, old(self).granularity_spec(), old(self).budget_spec(), frame, None));
            return;
        }
        let ghost state = self.scratch@;
        let compressed = compress(self.scratch.as_slice());
        self.push_compressed(frame, compressed, Ghost(state));
        assert(self@ == capture_step(old(self)@, old(self).granularity_spec(), old(self).budget_spec(), frame, Some(state)));
    }

    /// Where a rewind from `frame` lands: the target one granularity step
    /// back, the newest snapshot before it, and that snapshot's state.
    pub open spec fn rewind_point(&self, frame: u64) -> Option<(u64, u64, Seq<u8>)> {
        if frame < self.granularity_spec() {
            None
        } else {
            let target = (frame - self.granularity_spec()) as u64;
            match newest_before(snapshot_frames(self@), target) {
                Some(i) => Some((self@[i].0, target, self@[i].1)),
                None => None,
            }
        }
    }

    /// Finds the snapshot a rewind from `frame` restores and decodes it.
    pub fn find_rewind_point(&self, frame: u64) -> (r: Option<(u64, u64, Vec<u8>)>)
        requires
            self.wf(),
        ensures
            match (r, self.rewind_point(frame)) {
                (Some((a, b, s)), Some((c, d, t))) => a == c && b == d && s@ == t,
                (None, None) => true,
                _ => false,
            },
    {
        if frame < self.granularity {
            return None;
        }
        let target = frame - self.granularity;
        let ghost frames = snapshot_frames(self@);
        let mut i: usize = self.buffer.len();
        assert(frames.subrange(0, i as int) =~= frames);
        while i > 0
            invariant
                self.wf(),
                i <= self.buffer@.len(),
                frame >= self.granularity,
                target == frame - self.granularity,
                frames == snapshot_frames(self@),
                newest_before(frames, target) == newest_before(frames.subrange(0, i as int), target),
            decreases i,
        {
            let f = self.buffer[i - 1].0;
            if f < target {
                let data = &self.buffer[i - 1].1;
                assert(zlib_decompress(self.buffer@[i - 1].1@) is Some);
                let state = decompress(data.as_slice(), self.state_size);
                assert(frames.subrange(0, i as int).last() == f);
                assert(newest_before(frames.subrange(0, i as int), target) == Some(i - 1));
                assert(self@[i - 1] == (f, self.states@[i - 1]));
                assert(newest_before(frames, target) == Some(i - 1));
                assert(state@ == self.states@[i - 1]);
                assert(target == (frame - self.granularity_spec()) as u64);
                assert(self.rewind_point(frame) == Some((f, target, self.states@[i - 1])));
                return Some((f, target, state));
            }
            assert(frames.subrange(0, i as int).drop_last() =~= frames.subrange(0, i - 1));
            i -= 1;
        }
        None
    }

    /// Drops every snapshot taken at or after `target` from the back.
    fn discard_from(&mut self, target: u64)
        requires
            old(self).wf(),
        ensures
            final(self).wf(),
            final(self).granularity_spec() == old(self).granularity_spec(),
            final(self).budget_spec() == old(self).budget_spec(),
            final(self).state_size_spec() == old(self).state_size_spec(),
            exists|j: int|
                0 <= j <= old(self)@.len() && final(self)@ == old(self)@.take(j) && forall|k: int|
                    j <= k < old(self)@.len() ==> (#[trigger] old(self)@[k]).0 >= target,
            final(self)@.len() == 0 || final(self)@.last().0 < target,
    {
        let ghost mut j: int = self@.len() as int;
        assert(self@.take(j) =~= self@);
        while self.buffer.len() > 0 && self.buffer[self.buffer.len() - 1].0 >= target
            invariant
                self.wf(),
                self.granularity == old(self).granularity,
                self.budget == old(self).budget,
                self.state_size == old(self).state_size,
                0 <= j <= old(self)@.len(),
                self@ == old(self)@.take(j),
                forall|k: int| j <= k < old(self)@.len() ==> (#[trigger] old(self)@[k]).0 >= target,
            ensures
                self.wf(),
                self.state_size == old(self).state_size,
                0 <= j <= old(self)@.len(),
                self@ == old(self)@.take(j),
                forall|k: int| j <= k < old(self)@.len() ==> (#[trigger] old(self)@[k]).0 >= target,
                self.buffer@.len() == 0 || self.buffer@.last().0 < target,
            decreases self.buffer@.len(),
        {
            let ghost prev = self@;
            let popped = self.buffer.pop_back();
            match popped {
                Some((_, data)) => {
                    self.used = self.used - data.len();
                },
                None => {},
            }
            self.states = Ghost(self.states@.drop_last());
            proof {
                assert(prev.last().0 >= target);
                assert(old(self)@[j - 1] == prev.last());
                j = j - 1;
                assert(self@ =~= prev.drop_last());
                assert(old(self)@.take(j) =~= prev.drop_last());
            }
        }
    }

    /// What follows the core's answer to a restore of the snapshot taken at
    /// `restored`, the newest one before `target`: when the core `accepted`
    /// it, the snapshots taken at or after `target` are dropped and the
    /// frames up to `target` are replayed with `run`, one frame run per
    /// frame from `restored` to `target`, capturing as during play, and the
    /// result is `target`; otherwise nothing changes, no frame is run and
    /// the result is `None`.
    pub fn replay_from<F: FnMut()>(
        &mut self,
        backend: &dyn StateBackend,
        restored: u64,
        target: u64,
        accepted: bool,
        run: &mut FrameRunner<F>,
    ) -> (r: Option<u64>)
        requires
            old(self).wf(),
            forall|f: F| #[trigger] f.requires(()),
            newest_before(snapshot_frames(old(self)@), target) matches Some(i) && old(self)@[i].0 == restored,
        ensures
            final(self).wf(),
            final(self).granularity_spec() == old(self).granularity_spec(),
            final(self).budget_spec() == old(self).budget_spec(),
            final(self).state_size_spec() == old(self).state_size_spec(),
            accepted ==> r == Some(target) && exists|states: Seq<Option<Seq<u8>>>|
                states.len() == target - restored && states_sized(states, old(self).state_size_spec() as nat)
                    && final(self)@ == #[trigger] replayed(
                    kept_before(old(self)@, target),
                    old(self).granularity_spec(),
                    old(self).budget_spec(),
                    restored,
                    states,
                ),
            !accepted ==> r is None && final(self)@ == old(self)@,
            final(run).frames_run() == old(run).frames_run() + (if accepted {
                target - restored
            } else {
                0
            }),
    {
        if !accepted {
            return None;
        }
        proof {
            lemma_newest_before(snapshot_frames(old(self)@), target);
        }
        self.discard_from(target);
        let ghost base = kept_before(old(self)@, target);
        proof {
            let frames = snapshot_frames(old(self)@);
            let i = newest_before(frames, target)->Some_0;
            let j = choose|j: int|
                0 <= j <= old(self)@.len() && self@ == old(self)@.take(j) && forall|k: int|
                    j <= k < old(self)@.len() ==> (#[trigger] old(self)@[k]).0 >= target;
            assert(frames[i] == old(self)@[i].0);
            assert(i < j);
            if j > i + 1 {
                assert(self@.last() == old(self)@[j - 1]);
                assert(frames[j - 1] == old(self)@[j - 1].0);
            }
            assert(self@ == base);
        }
        let ghost mut states: Seq<Option<Seq<u8>>> = Seq::empty();
        let mut current = restored;
        while current < target
            invariant
                self.wf(),
                self.granularity == old(self).granularity,
                self.budget == old(self).budget,
                self.state_size == old(self).state_size,
                restored <= current <= target,
                states.len() == current - restored,
                states_sized(states, self.state_size as nat),
                run.frames_run() == old(run).frames_run() + (current - restored),
                self@ == replayed(base, self.granularity, self.budget, restored, states),
                forall|f: F| #[trigger] f.requires(()),
            decreases target - current,
        {
            run.run_frame();
            let ghost before = self@;
            self.capture(backend, current + 1);
            proof {
                let s = choose|s: Option<Seq<u8>>|
                    (s matches Some(t) ==> t.len() == self.state_size) && self@ == #[trigger] capture_step(
                        before,
                        self.granularity,
                        self.budget,
                        (current + 1) as u64,
                        s,
                    );
                let next = states.push(s);
                assert(next.drop_last() =~= states);
                assert(forall|k: int| 0 <= k < states.len() ==> next[k] == states[k]);
                states = next;
            }
            current += 1;
        }
        Some(target)
    }

    /// Steps back one granularity interval from `frame`: hands the core the
    /// newest snapshot before the target (see `find_rewind_point`), then
    /// goes on as `replay_from` says for the core's answer. Returns the
    /// target frame, or `None` when there is nothing to restore or the core
    /// rejects the snapshot (and then no frame is run).
    pub fn rewind<F: FnMut()>(
        &mut self,
        backend: &dyn StateBackend,
        frame: u64,
        run: &mut FrameRunner<F>,
    ) -> (r: Option<u64>)
        requires
            old(self).wf(),
            forall|f: F| #[trigger] f.requires(()),
        ensures
            final(self).wf(),
            final(self).granularity_spec() == old(self).granularity_spec(),
            final(self).budget_spec() == old(self).budget_spec(),
            final(self).state_size_spec() == old(self).state_size_spec(),
            old(self).rewind_point(frame) is None ==> r is None && final(self)@ == old(self)@,
            r matches Some(t) ==> old(self).rewind_point(frame) matches Some((restored, target, _)) && t
                == target && exists|states: Seq<Option<Seq<u8>>>|
                states.len() == target - restored && states_sized(states, old(self).state_size_spec() as nat)
                    && final(self)@ == #[trigger] replayed(
                    kept_before(old(self)@, target),
                    old(self).granularity_spec(),
                    old(self).budget_spec(),
                    restored,
                    states,
                ),
            r is None ==> final(self)@ == old(self)@ && final(run).frames_run() == old(run).frames_run(),
            r matches Some(t) ==> old(self).rewind_point(frame) matches Some((restored, _, _))
                && final(run).frames_run() == old(run).frames_run() + (t - restored),
    {
        let point = self.find_rewind_point(frame);
        let (restored, target, state) = match point {
            Some(p) => p,
            None => {
                return None;
            },
        };
        let accepted = backend.unserialize(state.as_slice());
        self.replay_from(backend, restored, target, accepted, run)
    }
}
} // verus!
