//! The save-state store's decisions: what a save writes, how a state file
//! is loaded, which state "load newest" picks, and how the states
//! directory (`<core>/<game>/<file>`) is listed. The caller does the file
//! system work and hands over names and contents.
use vstd::prelude::*;
use crate::emulation::state::{
    MAX_STATE_FILE_SIZE, StateBackend, StateError, Timestamp, decoded_state_file, encoded,
    rzip_wrapped, state_file_bytes, state_file_name_parts, state_payload,
    valid_timestamp, parse_state_file_name, MAX_RZIP_CONTENT,
};
use crate::text::{chars_less, lemma_seq_lt_transitive, lemma_seq_lt_trichotomy, push_str, seq_lt, str_chars, str_equal, string_from_chars};

verus! {

// ── Saving and loading ────────────────────────────────────────────────────

/// The bytes of a new state file for the core's current state: the core
/// writes its state into a buffer of `state_size` bytes, which is wrapped
/// in a RASTATE container and RZIP-compressed. Fails when the core cannot
/// serialize, or when `state_size` does not fit the container's 32-bit
/// length. Reading the file back gives that state whenever it fits the
/// format's limits.
pub fn save_state(backend: &dyn StateBackend, state_size: usize) -> (r: Result<Vec<u8>, StateError>)
    ensures
        match r {
            Err(StateError::SerializationFailed) => true,
            Err(StateError::TooLarge { size, max }) => max == u32::MAX && size == state_size
                && state_size > u32::MAX,
            Err(_) => false,
            Ok(bytes) => state_size <= u32::MAX && exists|payload: Seq<u8>|
                payload.len() == state_size && bytes@ == rzip_wrapped(encoded(payload)) && (
                (payload.len() <= u32::MAX && encoded(payload).len() <= MAX_RZIP_CONTENT)
                    ==> decoded_state_file(bytes@) == Ok::<
                    Seq<u8>,
                    StateError,
                >(payload)),
        },
{
    let mut scratch = vec![0u8; state_size];
    if !backend.serialize(scratch.as_mut_slice()) {
        return Err(StateError::SerializationFailed);
    }
    state_file_bytes(scratch.as_slice())
}


/// Loads the bytes of a state file into the core: the state inside is
/// decoded and handed to the core, which may refuse it.
pub fn load_state_bytes(backend: &dyn StateBackend, bytes: &[u8]) -> (r: Result<(), StateError>)
    ensures
        match decoded_state_file(bytes@) {
            Err(e) => r == Err::<(), StateError>(e),
            Ok(_) => r is Ok || r == Err::<(), StateError>(StateError::UnserializationFailed),
        },
{
    let payload = match state_payload(bytes) {
        Ok(p) => p,
        Err(e) => {
            return Err(e);
        },
    };
    if !backend.unserialize(payload.as_slice()) {
        return Err(StateError::UnserializationFailed);
    }
    Ok(())
}

/// Loads a state file the caller read (`file`, or the error reading it
/// gave) into the core.
pub fn load_from_path(backend: &dyn StateBackend, file: Result<Vec<u8>, StateError>) -> (r: Result<
    (),
    StateError,
>)
    ensures
        match file {
            Err(e) => r == Err::<(), StateError>(e),
            Ok(bytes) => match decoded_state_file(bytes@) {
                Err(e) => r == Err::<(), StateError>(e),
                Ok(_) => r is Ok || r == Err::<(), StateError>(StateError::UnserializationFailed),
            },
        },
{
    match file {
        Err(e) => Err(e),
        Ok(bytes) => load_state_bytes(backend, bytes.as_slice()),
    }
}

/// A state file larger than the limit is refused before it is read.
pub fn check_state_file_size(len: u64) -> (r: Result<(), StateError>)
    ensures
        len <= MAX_STATE_FILE_SIZE ==> r is Ok,
        len > MAX_STATE_FILE_SIZE ==> (r matches Err(StateError::TooLarge { size, max }) && max
            == MAX_STATE_FILE_SIZE && size == (if len <= usize::MAX {
            len as usize
        } else {
            usize::MAX
        })),
{
    if len > MAX_STATE_FILE_SIZE as u64 {
        let size = if len <= usize::MAX as u64 {
            len as usize
        } else {
            usize::MAX
        };
        return Err(StateError::TooLarge { size, max: MAX_STATE_FILE_SIZE });
    }
    Ok(())
}

/// A state file of a game that "load newest" may pick: its instant and
/// collision counter from the name, its path, and its contents as read
/// (or why they could not be).
pub struct StateCandidate {
    pub millis: i64,
    pub counter: u32,
    pub path: String,
    pub contents: Result<Vec<u8>, StateError>,
}

/// The state a candidate holds, or why it holds none.
pub open spec fn candidate_payload(c: StateCandidate) -> Result<Seq<u8>, StateError> {
    match c.contents {
        Ok(b) => decoded_state_file(b@),
        Err(e) => Err(e),
    }
}

/// `a` is at least as new as `b`: later instant, then higher counter.
pub open spec fn newer_or_same(a: StateCandidate, b: StateCandidate) -> bool {
    a.millis > b.millis || (a.millis == b.millis && a.counter >= b.counter)
}

/// Whether `order` lists every candidate once, newest first.
pub open spec fn newest_first(cands: Seq<StateCandidate>, order: Seq<int>) -> bool {
    &&& order.len() == cands.len()
    &&& forall|p: int| 0 <= p < order.len() ==> 0 <= #[trigger] order[p] < cands.len()
    &&& forall|p: int, q: int| 0 <= p < q < order.len() ==> order[p] != order[q]
    &&& forall|p: int, q: int|
        0 <= p < q < order.len() ==> newer_or_same(cands[order[p]], cands[order[q]])
}

/// Whether `r` is what "load newest" gives for candidates tried in `order`:
/// the first candidate that holds a state is loaded (or the core refuses
/// it); when none holds one, the first one's error; with none at all,
/// nothing.
pub open spec fn load_outcome(
    cands: Seq<StateCandidate>,
    order: Seq<int>,
    r: Result<Option<String>, StateError>,
) -> bool {
    ||| (cands.len() == 0 && r == Ok::<Option<String>, StateError>(None))
    ||| exists|k: int|
        0 <= k < order.len() && candidate_payload(cands[order[k]]) is Ok && (forall|j: int|
            0 <= j < k ==> candidate_payload(#[trigger] cands[order[j]]) is Err) && ((r matches Ok(
            Some(p),
        ) && p@ == cands[order[k]].path@) || r == Err::<Option<String>, StateError>(
            StateError::UnserializationFailed,
        ))
    ||| (cands.len() > 0 && (forall|j: int|
        0 <= j < order.len() ==> candidate_payload(#[trigger] cands[order[j]]) is Err) && r
        == Err::<Option<String>, StateError>(candidate_payload(cands[order[0]])->Err_0))
}

/// The candidates' indices, newest first; ties keep their given order.
fn newest_first_order(cands: &Vec<StateCandidate>) -> (order: Vec<usize>)
    ensures
        newest_first(cands@, order@.map_values(|i: usize| i as int)),
{
    let mut order: Vec<usize> = Vec::new();
    let mut i: usize = 0;
    while i < cands.len()
        invariant
            i <= cands@.len(),
            order@.len() == i,
            forall|p: int| 0 <= p < order@.len() ==> #[trigger] order@[p] < i,
            forall|p: int, q: int| 0 <= p < q < order@.len() ==> order@[p] != order@[q],
            forall|p: int, q: int|
                0 <= p < q < order@.len() ==> newer_or_same(
                    cands@[order@[p] as int],
                    cands@[order@[q] as int],
                ),
        decreases cands@.len() - i,
    {
        let mut pos: usize = 0;
        while pos < order.len() && (cands[order[pos]].millis > cands[i].millis || (
        cands[order[pos]].millis == cands[i].millis && cands[order[pos]].counter
            >= cands[i].counter))
            invariant
                pos <= order@.len(),
                i < cands@.len(),
                forall|p: int| 0 <= p < order@.len() ==> #[trigger] order@[p] < i,
                forall|p: int| 0 <= p < pos ==> newer_or_same(cands@[order@[p] as int], cands@[i as int]),
            decreases order@.len() - pos,
        {
            pos += 1;
        }
        let ghost before = order@;
        order.insert(pos, i);
        assert(forall|p: int| pos < p < order@.len() ==> order@[p] == before[p - 1]);
        assert forall|p: int, q: int| 0 <= p < q < order@.len() implies newer_or_same(
            cands@[order@[p] as int],
            cands@[order@[q] as int],
        ) by {
            if q == pos {
            } else if p == pos {
                assert(pos < before.len());
                assert(!newer_or_same(cands@[before[pos as int] as int], cands@[i as int]));
                if q - 1 > pos {
                    assert(newer_or_same(cands@[before[pos as int] as int], cands@[before[q - 1] as int]));
                }
            }
        }
        i += 1;
    }
    assert(order@.map_values(|i: usize| i as int).len() == order@.len());
    order
}

/// Loads the newest candidate that holds a state into the core. Candidates
/// are tried newest first; one whose contents are unreadable or not a
/// state is skipped; the core refusing a state stops the search.
pub fn load_newest(backend: &dyn StateBackend, candidates: &Vec<StateCandidate>) -> (r: Result<
    Option<String>,
    StateError,
>)
    ensures
        exists|order: Seq<int>| newest_first(candidates@, order) && load_outcome(candidates@, order, r),
{
    let order = newest_first_order(candidates);
    let ghost ord = order@.map_values(|i: usize| i as int);
    let mut first_invalid: Option<StateError> = None;
    let mut k: usize = 0;
    while k < order.len()
        invariant
            k <= order@.len(),
            ord == order@.map_values(|i: usize| i as int),
            newest_first(candidates@, ord),
            forall|j: int| 0 <= j < k ==> candidate_payload(#[trigger] candidates@[ord[j]]) is Err,
            k == 0 <==> first_invalid is None,
            k > 0 ==> first_invalid == Some(candidate_payload(candidates@[ord[0]])->Err_0),
        decreases order@.len() - k,
    {
        assert(ord[k as int] == order@[k as int] as int);
        assert(0 <= ord[k as int] < candidates@.len());
        let index = order[k];
        match try_payload(&candidates[index]) {
            Ok(payload) => {
                let loaded = backend.unserialize(payload.as_slice());
                let result = if loaded {
                    Ok(Some(candidates[index].path.clone()))
                } else {
                    Err(StateError::UnserializationFailed)
                };
                proof {
                    lemma_outcome_found(candidates@, ord, k as int, result);
                }
                return result;
            },
            Err(e) => {
                if first_invalid.is_none() {
                    first_invalid = Some(e);
                }
            },
        }
        k += 1;
    }
    let result = match first_invalid {
        Some(e) => Err(e),
        None => Ok(None),
    };
    proof {
        if candidates@.len() > 0 {
            assert(candidates@.len() > 0 && (forall|j: int|
                0 <= j < ord.len() ==> candidate_payload(#[trigger] candidates@[ord[j]]) is Err));
        }
    }
    result
}

/// The outcome when candidate `order[k]` is the first that holds a state.
proof fn lemma_outcome_found(
    cands: Seq<StateCandidate>,
    order: Seq<int>,
    k: int,
    r: Result<Option<String>, StateError>,
)
    requires
        0 <= k < order.len(),
        candidate_payload(cands[order[k]]) is Ok,
        forall|j: int| 0 <= j < k ==> candidate_payload(#[trigger] cands[order[j]]) is Err,
        (r matches Ok(Some(p)) && p@ == cands[order[k]].path@) || r == Err::<Option<String>, StateError>(
            StateError::UnserializationFailed,
        ),
    ensures
        load_outcome(cands, order, r),
{
}

/// The state a candidate holds, or why it holds none.
fn try_payload(c: &StateCandidate) -> (r: Result<Vec<u8>, StateError>)
    ensures
        match r {
            Ok(p) => candidate_payload(*c) == Ok::<Seq<u8>, StateError>(p@),
            Err(e) => candidate_payload(*c) == Err::<Seq<u8>, StateError>(e),
        },
{
    match &c.contents {
        Err(e) => Err(copy_error(e)),
        Ok(bytes) => state_payload(bytes.as_slice()),
    }
}

/// A copy of an error.
fn copy_error(e: &StateError) -> (r: StateError)
    ensures
        r == *e,
{
    match e {
        StateError::Io(m) => StateError::Io(m.clone()),
        StateError::ReadDir { path, message } => StateError::ReadDir {
            path: path.clone(),
            message: message.clone(),
        },
        StateError::NotAState => StateError::NotAState,
        StateError::UnsupportedVersion(v) => StateError::UnsupportedVersion(*v),
        StateError::Truncated => StateError::Truncated,
        StateError::TooLarge { size, max } => StateError::TooLarge { size: *size, max: *max },
        StateError::SerializationFailed => StateError::SerializationFailed,
        StateError::UnserializationFailed => StateError::UnserializationFailed,
    }
}

// ── Listing the states directory ──────────────────────────────────────────

/// A state file found under `<core>/<game>/`.
#[derive(Debug)]
pub struct StateEntry {
    pub core: String,
    pub game: String,
    pub timestamp: Timestamp,
    pub path: String,
    pub counter: u32,
}

/// A file or directory in the states directory that does not belong there.
#[derive(Debug)]
pub struct MalformedState {
    pub path: String,
    pub reason: String,
}

/// The states directory's contents.
#[derive(Debug)]
pub struct StateList {
    pub entries: Vec<StateEntry>,
    pub malformed: Vec<MalformedState>,
}

/// What a file in a game's directory is.
#[derive(Debug)]
pub enum FileVerdict {
    /// A hidden file (such as a save in progress), ignored.
    Skip,
    /// A file that is not a state of this game, with the reason.
    Malformed(String),
    /// A state of this game: its timestamp and collision counter.
    State(Timestamp, u32),
}

/// Why a file named `name`, `size` bytes long, in the directory of `game`
/// is not one of its states, or `None` when it is one (or is hidden): its
/// name must follow the naming scheme, name the game, and the file must be
/// no larger than a state file may be (`MAX_STATE_FILE_SIZE`).
pub open spec fn file_problem(name: Seq<char>, game: Seq<char>, size: u64) -> Option<Seq<char>> {
    if name.len() > 0 && name[0] == '.' {
        None
    } else {
        match state_file_name_parts(name) {
            None => Some("name does not match the state naming scheme"@),
            Some((g, t, n)) => if g != game {
                Some("filename names game \""@ + g + "\", directory is \""@ + game + "\""@)
            } else if size > MAX_STATE_FILE_SIZE {
                Some(oversized_reason())
            } else {
                None
            },
        }
    }
}

/// The reason given for a state file over the size limit.
pub open spec fn oversized_reason() -> Seq<char> {
    "file is larger than 256 MiB"@
}

/// Classifies the file `name`, `size` bytes long, found in the directory
/// of `game`.
pub fn classify_state_file(name: &str, game: &str, size: u64) -> (r: FileVerdict)
    ensures
        match r {
            FileVerdict::Skip => name@.len() > 0 && name@[0] == '.',
            FileVerdict::Malformed(reason) => file_problem(name@, game@, size) == Some(reason@),
            FileVerdict::State(t, n) => !(name@.len() > 0 && name@[0] == '.') && file_problem(
                name@,
                game@,
                size,
            ) is None && state_file_name_parts(name@) == Some((game@, t@.0, n)) && t.wf(),
        },
{
    let chars = str_chars(name);
    if chars.len() > 0 && chars[0] == '.' {
        return FileVerdict::Skip;
    }
    match parse_state_file_name(name) {
        None => FileVerdict::Malformed("name does not match the state naming scheme".to_owned()),
        Some((g, t, n)) => {
            if !str_equal(g.as_str(), game) {
                let mut m = str_chars("filename names game \"");
                push_str(&mut m, g.as_str());
                push_str(&mut m, "\", directory is \"");
                push_str(&mut m, game);
                push_str(&mut m, "\"");
                FileVerdict::Malformed(string_from_chars(&m))
            } else if size > MAX_STATE_FILE_SIZE as u64 {
                proof {
                    reveal_strlit("file is larger than 256 MiB");
                }
                FileVerdict::Malformed("file is larger than 256 MiB".to_owned())
            } else {
                FileVerdict::State(t, n)
            }
        },
    }
}

/// Whether a file name is hidden (a save in progress, say).
pub open spec fn hidden_name(name: Seq<char>) -> bool {
    name.len() > 0 && name[0] == '.'
}

/// The states among the files (name, path and size) of the directory of `game`,
/// in directory order: each one's path, timestamp text and counter.
pub open spec fn states_in(game: Seq<char>, files: Seq<(Seq<char>, Seq<char>, u64)>) -> Seq<(Seq<char>, Seq<char>, u32)>
    decreases files.len(),
{
    if files.len() == 0 {
        Seq::empty()
    } else {
        let (name, path, size) = files.last();
        states_in(game, files.drop_last()) + if !hidden_name(name) && file_problem(name, game, size) is None {
            match state_file_name_parts(name) {
                Some((_, stamp, counter)) => seq![(path, stamp, counter)],
                None => Seq::empty(),
            }
        } else {
            Seq::empty()
        }
    }
}

/// The files of the directory of `game` that do not belong there, in
/// directory order: each one's path and the reason.
pub open spec fn problems_in(game: Seq<char>, files: Seq<(Seq<char>, Seq<char>, u64)>) -> Seq<(Seq<char>, Seq<char>)>
    decreases files.len(),
{
    if files.len() == 0 {
        Seq::empty()
    } else {
        let (name, path, size) = files.last();
        problems_in(game, files.drop_last()) + match file_problem(name, game, size) {
            Some(reason) => seq![(path, reason)],
            None => Seq::empty(),
        }
    }
}

/// A file list as plain values.
pub open spec fn files_view(files: Seq<(String, String, u64)>) -> Seq<(Seq<char>, Seq<char>, u64)> {
    files.map_values(|f: (String, String, u64)| (f.0@, f.1@, f.2))
}

/// Sorts the files (name, path and size in bytes) of the directory of
/// `game` under `core` into its states and the files that do not belong
/// there; hidden files are passed over.
pub fn game_directory_states(core: &str, game: &str, files: &Vec<(String, String, u64)>) -> (r: (
    Vec<StateEntry>,
    Vec<MalformedState>,
))
    ensures
        r.0@.map_values(|e: StateEntry| (e.path@, e.timestamp@.0, e.counter)) == states_in(game@, files_view(files@)),
        forall|k: int| 0 <= k < r.0@.len() ==> (#[trigger] r.0@[k]).core@ == core@ && r.0@[k].game@ == game@,
        r.1@.map_values(|m: MalformedState| (m.path@, m.reason@)) == problems_in(game@, files_view(files@)),
{
    let ghost view = files_view(files@);
    let mut entries: Vec<StateEntry> = Vec::new();
    let mut malformed: Vec<MalformedState> = Vec::new();
    let mut i: usize = 0;
    while i < files.len()
        invariant
            i <= files@.len(),
            view == files_view(files@),
            entries@.map_values(|e: StateEntry| (e.path@, e.timestamp@.0, e.counter)) == states_in(
                game@,
                view.take(i as int),
            ),
            forall|k: int| 0 <= k < entries@.len() ==> (#[trigger] entries@[k]).core@ == core@ && entries@[k].game@ == game@,
            malformed@.map_values(|m: MalformedState| (m.path@, m.reason@)) == problems_in(game@, view.take(i as int)),
        decreases files@.len() - i,
    {
        assert(view.take(i + 1).drop_last() =~= view.take(i as int));
        assert(view.take(i + 1).last() == (files@[i as int].0@, files@[i as int].1@, files@[i as int].2));
        let (name, path, size) = &files[i];
        match classify_state_file(name.as_str(), game, *size) {
            FileVerdict::Skip => {
                assert(states_in(game@, view.take(i + 1)) =~= states_in(game@, view.take(i as int)));
                assert(problems_in(game@, view.take(i + 1)) =~= problems_in(game@, view.take(i as int)));
            },
            FileVerdict::Malformed(reason) => {
                let ghost before = malformed@.map_values(|m: MalformedState| (m.path@, m.reason@));
                malformed.push(MalformedState { path: path.clone(), reason });
                assert(malformed@.map_values(|m: MalformedState| (m.path@, m.reason@)) =~= before.push(
                    (path@, malformed@.last().reason@),
                ));
                assert(states_in(game@, view.take(i + 1)) =~= states_in(game@, view.take(i as int)));
            },
            FileVerdict::State(timestamp, counter) => {
                let ghost before = entries@.map_values(|e: StateEntry| (e.path@, e.timestamp@.0, e.counter));
                let ghost stamp = timestamp@.0;
                entries.push(StateEntry {
                    core: core.to_owned(),
                    game: game.to_owned(),
                    timestamp,
                    path: path.clone(),
                    counter,
                });
                assert(entries@.map_values(|e: StateEntry| (e.path@, e.timestamp@.0, e.counter)) =~= before.push(
                    (path@, stamp, counter),
                ));
                assert(problems_in(game@, view.take(i + 1)) =~= problems_in(game@, view.take(i as int)));
            },
        }
        i += 1;
    }
    assert(view.take(files@.len() as int) =~= view);
    (entries, malformed)
}

/// The listing order: by core, then game, then instant, then counter.
pub open spec fn entry_less(a: StateEntry, b: StateEntry) -> bool {
    ||| seq_lt(a.core@, b.core@)
    ||| (a.core@ == b.core@ && seq_lt(a.game@, b.game@))
    ||| (a.core@ == b.core@ && a.game@ == b.game@ && a.timestamp@.1 < b.timestamp@.1)
    ||| (a.core@ == b.core@ && a.game@ == b.game@ && a.timestamp@.1 == b.timestamp@.1
        && a.counter < b.counter)
}

/// Whether `entries` are in listing order.
pub open spec fn listed_in_order(entries: Seq<StateEntry>) -> bool {
    forall|p: int, q: int| 0 <= p < q < entries.len() ==> !entry_less(entries[q], entries[p])
}

/// The listing order is transitive and asymmetric.
pub proof fn lemma_entry_order(a: StateEntry, b: StateEntry, c: StateEntry)
    ensures
        entry_less(a, b) && entry_less(b, c) ==> entry_less(a, c),
        !(entry_less(a, b) && entry_less(b, a)),
{
    lemma_seq_lt_trichotomy(a.core@, b.core@);
    lemma_seq_lt_trichotomy(b.core@, c.core@);
    lemma_seq_lt_trichotomy(a.game@, b.game@);
    lemma_seq_lt_trichotomy(b.game@, c.game@);
    if seq_lt(a.core@, b.core@) && seq_lt(b.core@, c.core@) {
        lemma_seq_lt_transitive(a.core@, b.core@, c.core@);
    }
    if seq_lt(a.game@, b.game@) && seq_lt(b.game@, c.game@) {
        lemma_seq_lt_transitive(a.game@, b.game@, c.game@);
    }
}

/// The entries of `entries` that compare equal to `e` in listing order,
/// in their order.
pub open spec fn ties_of(entries: Seq<StateEntry>, e: StateEntry) -> Seq<StateEntry> {
    entries.filter(|x: StateEntry| !entry_less(x, e) && !entry_less(e, x))
}

/// The listing order is a strict weak order: an entry below another is
/// below, or above, any third one.
proof fn lemma_entry_weak(a: StateEntry, b: StateEntry, c: StateEntry)
    requires
        entry_less(a, b),
    ensures
        entry_less(a, c) || entry_less(c, b),
{
    lemma_entry_order(c, a, b);
    lemma_seq_lt_trichotomy(a.core@, c.core@);
    lemma_seq_lt_trichotomy(a.game@, c.game@);
}

fn entry_before(a: &StateEntry, b: &StateEntry) -> (r: bool)
    ensures
        r == entry_less(*a, *b),
{
    let ac = str_chars(a.core.as_str());
    let bc = str_chars(b.core.as_str());
    if chars_less(&ac, &bc) {
        return true;
    }
    if !crate::text::chars_equal(&ac, &bc) {
        return false;
    }
    let ag = str_chars(a.game.as_str());
    let bg = str_chars(b.game.as_str());
    if chars_less(&ag, &bg) {
        return true;
    }
    if !crate::text::chars_equal(&ag, &bg) {
        return false;
    }
    let am = a.timestamp.unix_millis();
    let bm = b.timestamp.unix_millis();
    am < bm || (am == bm && a.counter < b.counter)
}

/// The entries in listing order; entries that compare equal keep their
/// order.
pub fn sort_entries(entries: Vec<StateEntry>) -> (r: Vec<StateEntry>)
    ensures
        r@.to_multiset() == entries@.to_multiset(),
        listed_in_order(r@),
        forall|e: StateEntry| #[trigger] ties_of(r@, e) == ties_of(entries@, e),
{
    broadcast use vstd::multiset::group_multiset_axioms, vstd::seq_lib::to_multiset_insert, vstd::seq_lib::to_multiset_remove, vstd::seq_lib::to_multiset_len, vstd::seq_lib::to_multiset_contains;

    let mut rest = entries;
    let mut out: Vec<StateEntry> = Vec::new();
    let ghost all = rest@.to_multiset();
    assert(out@.to_multiset().len() == 0);
    assert(out@.to_multiset() =~= vstd::multiset::Multiset::empty());
    assert(out@.to_multiset().add(rest@.to_multiset()) =~= all);
    let ghost original = entries@;
    assert forall|e: StateEntry| #[trigger] ties_of(out@, e) + ties_of(rest@, e) == ties_of(original, e) by {
        reveal(Seq::filter);
        assert(ties_of(out@, e) =~= Seq::<StateEntry>::empty());
        assert(ties_of(out@, e) + ties_of(rest@, e) =~= ties_of(rest@, e));
    }
    while rest.len() > 0
        invariant
            out@.to_multiset().add(rest@.to_multiset()) == all,
            listed_in_order(out@),
            forall|e: StateEntry| #[trigger] ties_of(out@, e) + ties_of(rest@, e) == ties_of(original, e),
        decreases rest@.len(),
    {
        let ghost rest_before = rest@;
        let ghost out_before = out@;
        let x = rest.remove(0);
        assert(rest_before.contains(x)) by {
            assert(rest_before[0] == x);
        }
        proof {
            vstd::seq_lib::to_multiset_contains(rest_before, x);
            vstd::seq_lib::to_multiset_remove(rest_before, 0);
        }
        assert(rest_before.to_multiset().count(x) > 0);
        assert(rest@ == rest_before.remove(0));
        let ghost gx = x;
        let mut pos: usize = 0;
        while pos < out.len() && !entry_before(&x, &out[pos])
            invariant
                pos <= out@.len(),
                forall|p: int| 0 <= p < pos ==> !entry_less(x, #[trigger] out@[p]),
            decreases out@.len() - pos,
        {
            pos += 1;
        }
        let ghost before = out@;
        proof {
            if pos < before.len() {
                assert(entry_less(x, before[pos as int]));
                assert forall|q: int| pos <= q < before.len() implies entry_less(x, #[trigger] before[q]) by {
                    lemma_entry_weak(x, before[pos as int], before[q]);
                }
            }
        }
        out.insert(pos, x);
        assert forall|e: StateEntry| #[trigger] ties_of(out@, e) + ties_of(rest@, e) == ties_of(original, e) by {
            let p = |y: StateEntry| !entry_less(y, e) && !entry_less(e, y);
            let head = before.take(pos as int);
            let tail = before.skip(pos as int);
            assert(before =~= head + tail);
            assert(out@ =~= head + seq![gx] + tail);
            assert(rest_before =~= seq![gx] + rest@);
            vstd::seq::Seq::filter_distributes_over_add(head, tail, p);
            vstd::seq::Seq::filter_distributes_over_add(head + seq![gx], tail, p);
            vstd::seq::Seq::filter_distributes_over_add(head, seq![gx], p);
            rest@.lemma_filter_prepend(gx, p);
            seq![gx].lemma_filter_prepend(gx, p);
            if p(gx) {
                assert forall|q: int| 0 <= q < tail.len() implies !p(#[trigger] tail[q]) by {
                    assert(tail[q] == before[pos + q]);
                    lemma_entry_weak(gx, tail[q], e);
                    lemma_entry_order(e, gx, tail[q]);
                }
                assert(tail.all(|y: StateEntry| !p(y)));
                tail.lemma_all_neg_filter_empty(p);
                assert(tail.filter(p) =~= Seq::<StateEntry>::empty());
            }
            assert(ties_of(out@, e) == out@.filter(p));
            assert(ties_of(before, e) == before.filter(p));
            assert(ties_of(rest@, e) == rest@.filter(p));
            assert(ties_of(rest_before, e) == rest_before.filter(p));
            assert(ties_of(out@, e) + ties_of(rest@, e) =~= ties_of(before, e) + ties_of(rest_before, e));
        }
        assert forall|p: int, q: int| 0 <= p < q < out@.len() implies !entry_less(out@[q], out@[p]) by {
            if p == pos {
                if q - 1 >= pos {
                    lemma_entry_order(before[q - 1], x, before[pos as int]);
                    lemma_entry_order(x, before[pos as int], before[q - 1]);
                }
            } else if q == pos {
            } else if p < pos && q > pos {
            }
        }
        assert(out@ == out_before.insert(pos as int, gx));
        proof {
            vstd::seq_lib::to_multiset_insert(out_before, pos as int, gx);
        }
        assert(out@.to_multiset() == out_before.to_multiset().insert(gx));
        assert(rest@.to_multiset() == rest_before.to_multiset().remove(gx));
        assert(out@.to_multiset().add(rest@.to_multiset()) =~= out_before.to_multiset().add(
            rest_before.to_multiset(),
        ));
    }
    assert(rest@.to_multiset().len() == 0);
    assert(rest@.to_multiset() =~= vstd::multiset::Multiset::empty());
    assert forall|e: StateEntry| #[trigger] ties_of(out@, e) == ties_of(original, e) by {
        reveal(Seq::filter);
        assert(rest@.len() == 0);
        assert(ties_of(rest@, e) =~= Seq::<StateEntry>::empty());
        assert(ties_of(out@, e) + ties_of(rest@, e) =~= ties_of(out@, e));
    }
    out
}
} // verus!
