use std::cell::Cell;

use asoby::emulation::state::{
    encode, parse_state_file_name, rzip_wrap, state_file_name, StateBackend, StateError, Timestamp,
    MAX_STATE_FILE_SIZE,
};
use asoby::emulation::store::{
    check_state_file_size, game_directory_states, load_from_path, load_newest, save_state, sort_entries, StateCandidate,
    StateList,
};
use asoby::pathname::join_str;

struct FakeBackend {
    state: Cell<u64>,
}

impl StateBackend for FakeBackend {
    fn serialize(&self, data: &mut [u8]) -> bool {
        data.copy_from_slice(&self.state.get().to_le_bytes());
        true
    }

    fn unserialize(&self, data: &[u8]) -> bool {
        if data.len() < 8 || data[0] == 0xff {
            return false;
        }
        let mut bytes = [0u8; 8];
        bytes.copy_from_slice(&data[..8]);
        self.state.set(u64::from_le_bytes(bytes));
        true
    }
}

/// A file of a game's state directory: its name, its bytes, and whether it
/// is too large to be read.
struct StoredFile {
    name: String,
    bytes: Vec<u8>,
    oversized: bool,
}

impl StoredFile {
    /// The file's size on disk.
    fn size(&self) -> u64 {
        if self.oversized {
            MAX_STATE_FILE_SIZE as u64 + 1
        } else {
            self.bytes.len() as u64
        }
    }

    /// What reading the file gives.
    fn contents(&self) -> Result<Vec<u8>, StateError> {
        if self.oversized {
            Err(check_state_file_size(MAX_STATE_FILE_SIZE as u64 + 1).unwrap_err())
        } else {
            Ok(self.bytes.clone())
        }
    }
}

/// One game's state directory, held in memory; saving and loading go through
/// the library's functions the way the command-line tool's do on disk.
#[derive(Default)]
struct GameDir {
    files: Vec<StoredFile>,
}

impl GameDir {
    fn holds(&self, name: &str) -> bool {
        self.files.iter().any(|file| file.name == name)
    }

    fn write(&mut self, name: &str, bytes: Vec<u8>) {
        self.files.retain(|file| file.name != name);
        self.files.push(StoredFile { name: name.to_owned(), bytes, oversized: false });
    }

    fn write_oversized(&mut self, name: &str) {
        self.files.push(StoredFile { name: name.to_owned(), bytes: Vec::new(), oversized: true });
    }

    fn read(&self, name: &str) -> Result<Vec<u8>, StateError> {
        let file = self.files.iter().find(|file| file.name == name).unwrap();
        file.contents()
    }

    fn save_at(&mut self, game: &str, backend: &dyn StateBackend, timestamp: Timestamp) -> String {
        let bytes = save_state(backend, 8).unwrap();
        let mut counter = 1;
        loop {
            let name = state_file_name(game, &timestamp, counter);
            if !self.holds(&name) {
                self.write(&name, bytes);
                return name;
            }
            counter += 1;
        }
    }

    fn load_newest_in(&self, backend: &dyn StateBackend, game: &str) -> Result<Option<String>, StateError> {
        let mut candidates = Vec::new();
        for file in &self.files {
            if file.name.starts_with('.') {
                continue;
            }
            let Some((name_game, timestamp, counter)) = parse_state_file_name(&file.name) else { continue };
            if name_game != game {
                continue;
            }
            candidates.push(StateCandidate {
                millis: timestamp.unix_millis(),
                counter,
                path: file.name.clone(),
                contents: file.contents(),
            });
        }
        load_newest(backend, &candidates)
    }
}

fn ts(text: &str) -> Timestamp {
    Timestamp::parse(text).unwrap()
}

#[test]
fn saving_and_loading_restores_a_backend_state() {
    let mut dir = GameDir::default();
    let backend = FakeBackend { state: Cell::new(42) };
    let path = dir.save_at("game.nes", &backend, ts("20260802T151205.903+0800"));

    backend.state.set(7);
    load_from_path(&backend, dir.read(&path)).unwrap();

    assert_eq!(backend.state.get(), 42);
}

#[test]
fn each_save_creates_a_new_timestamped_file() {
    let mut dir = GameDir::default();
    let backend = FakeBackend { state: Cell::new(1) };
    let first = dir.save_at("game.nes", &backend, ts("20260802T151205.903+0800"));
    let second = dir.save_at("game.nes", &backend, ts("20260802T154831.027+0800"));

    assert_ne!(first, second);
    assert!(dir.holds(&first));
    assert!(dir.holds(&second));
    let loaded = dir.load_newest_in(&backend, "game.nes").unwrap().unwrap();
    assert_eq!(loaded, second);
}

#[test]
fn timestamp_collisions_get_deterministic_suffixes() {
    let mut dir = GameDir::default();
    let backend = FakeBackend { state: Cell::new(1) };
    let first = dir.save_at("game.nes", &backend, ts("20260802T151205.903+0800"));
    let second = dir.save_at("game.nes", &backend, ts("20260802T151205.903+0800"));
    let third = dir.save_at("game.nes", &backend, ts("20260802T151205.903+0800"));

    assert_eq!(first, "game.nes.20260802T151205.903+0800.state");
    assert_eq!(second, "game.nes.20260802T151205.903+0800-2.state");
    assert_eq!(third, "game.nes.20260802T151205.903+0800-3.state");
}

#[test]
fn save_never_overwrites_a_pre_existing_file() {
    let mut dir = GameDir::default();
    let target = "game.nes.20260802T151205.903+0800.state";
    dir.write(target, b"pre-existing".to_vec());
    let backend = FakeBackend { state: Cell::new(1) };

    let path = dir.save_at("game.nes", &backend, ts("20260802T151205.903+0800"));

    assert_eq!(path, "game.nes.20260802T151205.903+0800-2.state");
    assert_eq!(dir.read(target).unwrap(), b"pre-existing");
}

#[test]
fn newest_state_prefers_absolute_instants_over_wall_clock_order() {
    let mut dir = GameDir::default();
    let backend = FakeBackend { state: Cell::new(1) };
    // During the 2026 US fall-back, 01:00 PST (-0800) occurs after
    // 01:30 PDT (-0700) even though its wall-clock time is earlier.
    dir.save_at("game.nes", &backend, ts("20261101T013000.000-0700"));
    let later = dir.save_at("game.nes", &backend, ts("20261101T010000.000-0800"));

    let loaded = dir.load_newest_in(&backend, "game.nes").unwrap().unwrap();
    assert_eq!(loaded, later);
}

#[test]
fn load_newest_skips_a_corrupt_newest_and_loads_the_older_valid_state() {
    let mut dir = GameDir::default();
    let backend = FakeBackend { state: Cell::new(1) };
    let older = dir.save_at("game.nes", &backend, ts("20260802T151205.903+0800"));
    let newest = dir.save_at("game.nes", &backend, ts("20260802T154831.027+0800"));
    dir.write(&newest, b"corrupt contents".to_vec());

    let loaded = dir.load_newest_in(&backend, "game.nes").unwrap().unwrap();

    assert_eq!(loaded, older);
    assert_eq!(backend.state.get(), 1);
}

#[test]
fn load_newest_skips_rastate_files_without_a_mem_block() {
    let mut dir = GameDir::default();
    let backend = FakeBackend { state: Cell::new(1) };
    let older = dir.save_at("game.nes", &backend, ts("20260802T151205.903+0800"));
    let mut headerless = Vec::new();
    headerless.extend_from_slice(b"RASTATE");
    headerless.push(1);
    headerless.extend_from_slice(b"END ");
    headerless.extend_from_slice(&0u32.to_le_bytes());
    dir.write("game.nes.20260802T154831.027+0800.state", headerless);

    let loaded = dir.load_newest_in(&backend, "game.nes").unwrap().unwrap();

    assert_eq!(loaded, older);
    assert_eq!(backend.state.get(), 1);
}

#[test]
fn load_newest_stops_on_unserialize_failure() {
    let mut dir = GameDir::default();
    let backend = FakeBackend { state: Cell::new(1) };
    dir.save_at("game.nes", &backend, ts("20260802T151205.903+0800"));
    // A newer file with a valid container whose payload the core rejects.
    dir.write("game.nes.20260802T154831.027+0800.state", encode(&[0xff; 8]).unwrap());

    let error = dir.load_newest_in(&backend, "game.nes").unwrap_err();

    assert!(matches!(error, StateError::UnserializationFailed));
    assert_eq!(backend.state.get(), 1);
}

#[test]
fn load_newest_reports_when_every_candidate_is_invalid() {
    let mut dir = GameDir::default();
    let backend = FakeBackend { state: Cell::new(1) };
    let path = dir.save_at("game.nes", &backend, ts("20260802T151205.903+0800"));
    dir.write(&path, b"corrupt contents".to_vec());

    let error = dir.load_newest_in(&backend, "game.nes").unwrap_err();

    assert!(matches!(error, StateError::NotAState));
}

#[test]
fn load_newest_returns_none_when_no_states_exist() {
    let dir = GameDir::default();
    let backend = FakeBackend { state: Cell::new(1) };

    assert!(dir.load_newest_in(&backend, "game.nes").unwrap().is_none());
}

#[test]
fn load_newest_skips_corrupt_rzip_states() {
    let mut dir = GameDir::default();
    let backend = FakeBackend { state: Cell::new(1) };
    let older = dir.save_at("game.nes", &backend, ts("20260802T151205.903+0800"));
    let mut corrupt = rzip_wrap(&encode(&[7u8; 8]).unwrap());
    let last = corrupt.len() - 1;
    corrupt[last] ^= 0xff;
    dir.write("game.nes.20260802T154831.027+0800.state", corrupt);

    let loaded = dir.load_newest_in(&backend, "game.nes").unwrap().unwrap();

    assert_eq!(loaded, older);
    assert_eq!(backend.state.get(), 1);
}

#[test]
fn load_newest_skips_oversized_candidates() {
    let mut dir = GameDir::default();
    let backend = FakeBackend { state: Cell::new(1) };
    let valid = dir.save_at("game.nes", &backend, ts("20260802T151205.903+0800"));
    dir.write_oversized("game.nes.20260802T160000.000+0800.state");

    let loaded = dir.load_newest_in(&backend, "game.nes").unwrap().unwrap();

    assert_eq!(loaded, valid);
    assert_eq!(backend.state.get(), 1);
}

#[test]
fn newest_state_handles_counter_suffixes() {
    let mut dir = GameDir::default();
    let backend = FakeBackend { state: Cell::new(1) };
    dir.save_at("game.nes", &backend, ts("20260802T151205.903+0800"));
    let suffixed = dir.save_at("game.nes", &backend, ts("20260802T151205.903+0800"));

    let loaded = dir.load_newest_in(&backend, "game.nes").unwrap().unwrap();
    assert_eq!(loaded, suffixed);
}

#[test]
fn load_rejects_unknown_rzip_versions() {
    let backend = FakeBackend { state: Cell::new(1) };
    let mut wrapped = rzip_wrap(&encode(&[1u8; 8]).unwrap());
    wrapped[6] = 2;

    let error = load_from_path(&backend, Ok(wrapped)).unwrap_err();

    assert!(matches!(error, StateError::NotAState));
}

#[test]
fn read_state_file_rejects_oversized_files() {
    let error = check_state_file_size(MAX_STATE_FILE_SIZE as u64 + 1).unwrap_err();

    assert!(matches!(error, StateError::TooLarge { .. }));
}

#[test]
fn load_from_path_accepts_renamed_files() {
    let mut dir = GameDir::default();
    let backend = FakeBackend { state: Cell::new(42) };
    let path = dir.save_at("game.nes", &backend, ts("20260802T151205.903+0800"));
    let copy = dir.read(&path).unwrap();
    dir.write("my-backup.state", copy);
    backend.state.set(7);

    load_from_path(&backend, dir.read("my-backup.state")).unwrap();

    assert_eq!(backend.state.get(), 42);
}

const ROOT: &str = "/tmp/states";

/// Lists a states tree held in memory: for each core and game, the game
/// directory's files, gathered and ordered as `state list` does.
fn list_tree(tree: &[(&str, &str, &GameDir)]) -> StateList {
    let mut entries = Vec::new();
    let mut malformed = Vec::new();
    for (core, game, dir) in tree {
        let base = join_str(&join_str(ROOT, core), game);
        let files: Vec<(String, String, u64)> =
            dir.files.iter().map(|f| (f.name.clone(), join_str(&base, &f.name), f.size())).collect();
        let (states, problems) = game_directory_states(core, game, &files);
        entries.extend(states);
        malformed.extend(problems);
    }
    StateList { entries: sort_entries(entries), malformed }
}

fn full_path(core: &str, game: &str, name: &str) -> String {
    join_str(&join_str(&join_str(ROOT, core), game), name)
}

#[test]
fn list_states_skips_temp_files_and_reports_malformed_names() {
    let mut dir = GameDir::default();
    let backend = FakeBackend { state: Cell::new(1) };
    let name = dir.save_at("game.nes", &backend, ts("20260802T151205.903+0800"));
    dir.write(".asobou-state-abc", b"x".to_vec());
    dir.write("garbage.bin", b"x".to_vec());

    let list = list_tree(&[("fceumm", "game.nes", &dir)]);

    assert_eq!(list.entries.len(), 1);
    assert_eq!(list.entries[0].core, "fceumm");
    assert_eq!(list.entries[0].game, "game.nes");
    assert_eq!(list.entries[0].timestamp.filename(), ts("20260802T151205.903+0800").filename());
    assert_eq!(list.entries[0].path, full_path("fceumm", "game.nes", &name));
    assert_eq!(list.malformed.len(), 1);
    assert_eq!(list.malformed[0].path, full_path("fceumm", "game.nes", "garbage.bin"));
    assert!(list.malformed[0].reason.contains("naming scheme"));
}

#[test]
fn list_states_reports_states_in_the_wrong_game_directory() {
    let mut game = GameDir::default();
    let backend = FakeBackend { state: Cell::new(1) };
    let name = game.save_at("game.nes", &backend, ts("20260802T151205.903+0800"));
    // A state file whose filename names a different game than its
    // directory cannot be distinguished from a foreign copy.
    let mut other = GameDir::default();
    other.write(&name, game.read(&name).unwrap());

    let list = list_tree(&[("fceumm", "game.nes", &game), ("fceumm", "other.nes", &other)]);

    assert_eq!(list.entries.len(), 1);
    assert_eq!(list.malformed.len(), 1);
    assert_eq!(list.malformed[0].path, full_path("fceumm", "other.nes", &name));
    assert!(list.malformed[0].reason.contains("game.nes"));
}

#[test]
fn list_states_parses_counter_suffixes_and_dotted_rom_names() {
    let mut dir = GameDir::default();
    let backend = FakeBackend { state: Cell::new(1) };
    dir.save_at("Super Mario Bros.nes", &backend, ts("20260802T151205.903+0800"));
    dir.save_at("Super Mario Bros.nes", &backend, ts("20260802T151205.903+0800"));

    let list = list_tree(&[("fceumm", "Super Mario Bros.nes", &dir)]);

    assert_eq!(list.entries.len(), 2);
    assert!(list.entries[0].path.ends_with("/Super Mario Bros.nes.20260802T151205.903+0800.state"));
    assert!(list.entries[1].path.ends_with("/Super Mario Bros.nes.20260802T151205.903+0800-2.state"));
    assert_eq!(list.entries[0].game, "Super Mario Bros.nes");
    assert_eq!(list.entries[1].game, "Super Mario Bros.nes");
}

#[test]
fn unicode_rom_names_are_preserved() {
    let mut dir = GameDir::default();
    let backend = FakeBackend { state: Cell::new(1) };
    let game = "ドンキーコング (J).nes";
    let path = dir.save_at(game, &backend, ts("20260802T151205.903+0800"));

    let list = list_tree(&[("fceumm", game, &dir)]);
    assert_eq!(list.entries[0].game, game);
    let loaded = dir.load_newest_in(&backend, game).unwrap().unwrap();
    assert_eq!(loaded, path);
}

#[test]
fn state_paths_preserve_full_rom_names_and_arbitrary_cores() {
    let mut dir = GameDir::default();
    let backend = FakeBackend { state: Cell::new(1) };
    let game = "My Game (v1.2) [rev A].nes";
    let name = dir.save_at(game, &backend, ts("20260802T151205.903+0800"));

    let path = full_path("some_core", game, &name);
    assert!(path.starts_with(&format!("{ROOT}/some_core/My Game (v1.2) [rev A].nes/")));
    assert!(path.ends_with("My Game (v1.2) [rev A].nes.20260802T151205.903+0800.state"));
}

#[test]
fn list_states_reports_oversized_state_files_as_malformed() {
    let mut dir = GameDir::default();
    let backend = FakeBackend { state: Cell::new(1) };
    let kept = dir.save_at("game.nes", &backend, ts("20260802T151205.903+0800"));
    dir.write_oversized("game.nes.20260802T160000.000+0800.state");

    let list = list_tree(&[("fceumm", "game.nes", &dir)]);

    assert_eq!(list.entries.len(), 1);
    assert_eq!(list.entries[0].path, full_path("fceumm", "game.nes", &kept));
    assert_eq!(list.malformed.len(), 1);
    assert_eq!(list.malformed[0].path, full_path("fceumm", "game.nes", "game.nes.20260802T160000.000+0800.state"));
    assert_eq!(list.malformed[0].reason, "file is larger than 256 MiB");
}
