use std::io::Write;

use asoby::archive::{plan_core_install, zip_file_entries, CoreInstall};
use asoby::cores::{
    classify_archive_entry, core_extension, detect_by_extension, detect_by_signature, detect_rom,
    detect_zip_entries, installed_cores, normalize_core_name, resolve_core_library_path, resolve_core_path, choose_core, CoreChoice,
    validate_core_name, ArchiveEntry, Detection,
};

#[test]
fn nes_extension_selects_nestopia() {
    let Detection::Detected { core_name } = detect_by_extension("nes") else {
        panic!("expected a detected core");
    };
    assert_eq!(core_name, "nestopia");
}

#[test]
fn bin_extension_returns_core_candidates() {
    let Detection::Ambiguous { candidates } = detect_by_extension("bin") else {
        panic!("expected ambiguous core candidates");
    };
    assert_eq!(candidates, vec!["genesis_plus_gx", "stella"]);
}

#[test]
fn sfc_extension_selects_snes9x() {
    let Detection::Detected { core_name } = detect_by_extension("sfc") else {
        panic!("expected a detected core");
    };
    assert_eq!(core_name, "snes9x");
}

#[test]
fn extension_matching_is_case_insensitive() {
    let Detection::Detected { core_name } = detect_by_extension("SMS") else {
        panic!("expected a detected core");
    };
    assert_eq!(core_name, "genesis_plus_gx");
}

#[test]
fn unknown_extension_is_unknown() {
    assert!(matches!(detect_by_extension("xyz"), Detection::Unknown));
}

#[test]
fn nes_signature_detects_nestopia() {
    let header = b"NES\x1a\x02\x03\x04";
    let Detection::Detected { core_name } = detect_by_signature(header).unwrap() else {
        panic!("expected a detected core");
    };
    assert_eq!(core_name, "nestopia");
}

#[test]
fn sega_signature_at_offset_0x100_detects_genesis() {
    let mut data = vec![0u8; 0x100];
    data.extend_from_slice(b"SEGA GENESIS");
    let Detection::Detected { core_name } = detect_by_signature(&data).unwrap() else {
        panic!("expected a detected core");
    };
    assert_eq!(core_name, "genesis_plus_gx");
}

#[test]
fn unknown_signature_returns_none() {
    assert!(detect_by_signature(b"\x00\x01\x02\x03\x04\x05").is_none());
}

#[test]
fn truncated_signature_region_returns_none() {
    assert!(detect_by_signature(b"SEGA").is_none());
}

#[test]
fn signature_takes_precedence_over_extension() {
    let header: &[u8] = b"NES\x1a\x02\x03\x04";
    let Detection::Detected { core_name } = detect_rom("game.bin", Some(header), None) else {
        panic!("expected a detected core");
    };
    assert_eq!(core_name, "nestopia");
}

#[test]
fn extension_detection_does_not_require_the_file() {
    let Detection::Detected { core_name } = detect_rom("/missing/missing.nes", None, None) else {
        panic!("expected a detected core");
    };
    assert_eq!(core_name, "nestopia");
}

fn make_zip(entries: &[(&str, &[u8])]) -> Vec<u8> {
    let mut buf = std::io::Cursor::new(Vec::new());
    {
        let mut writer = zip::ZipWriter::new(&mut buf);
        for (name, data) in entries {
            let options =
                zip::write::SimpleFileOptions::default().compression_method(zip::CompressionMethod::Stored);
            writer.start_file(*name, options).unwrap();
            writer.write_all(data).unwrap();
        }
        writer.finish().unwrap();
    }
    buf.into_inner()
}

/// Detects the core of a zipped ROM whose archive holds `data`.
fn detect_zipped(path: &str, data: &[u8]) -> Detection {
    let entries = zip_file_entries(data);
    detect_rom(path, None, entries.as_ref())
}

#[test]
fn zip_with_single_rom_detects_its_core() {
    let Detection::Detected { core_name } = detect_zipped("game.zip", &make_zip(&[("game.sfc", b"ROM")])) else {
        panic!("expected a detected core");
    };
    assert_eq!(core_name, "snes9x");
}

#[test]
fn zip_extension_matching_is_case_insensitive() {
    let Detection::Detected { core_name } = detect_zipped("game.zip", &make_zip(&[("GAME.SFC", b"ROM")])) else {
        panic!("expected a detected core");
    };
    assert_eq!(core_name, "snes9x");
}

#[test]
fn zip_with_multiple_systems_is_ambiguous() {
    let zip = make_zip(&[("a.nes", b"1"), ("b.sfc", b"2")]);
    let Detection::Ambiguous { candidates } = detect_zipped("multi.zip", &zip) else {
        panic!("expected ambiguous core candidates");
    };
    assert_eq!(candidates, vec!["nestopia", "snes9x"]);
}

#[test]
fn zip_with_unmatched_files_is_unknown() {
    assert!(matches!(detect_zipped("data.zip", &make_zip(&[("readme.txt", b"hi")])), Detection::Unknown));
}

#[test]
fn invalid_zip_is_unknown() {
    assert!(matches!(detect_zipped("broken.zip", b"not a zip"), Detection::Unknown));
}

#[test]
fn zip_entries_skip_directories_when_detecting() {
    let listing = vec![("roms.sfc/".to_string(), true), ("game.nes".to_string(), false)];
    let Detection::Detected { core_name } = detect_zip_entries(&listing) else {
        panic!("expected a detected core");
    };
    assert_eq!(core_name, "nestopia");
}

#[test]
fn zip_file_entries_list_names_in_archive_order() {
    let zip = make_zip(&[("b.sfc", b"2"), ("a.nes", b"1")]);
    assert_eq!(
        zip_file_entries(&zip),
        Some(vec![("b.sfc".to_string(), false), ("a.nes".to_string(), false)])
    );
    assert_eq!(zip_file_entries(b"not a zip"), None);
}

#[test]
fn installed_cores_lists_only_present_core_files() {
    let files = vec!["nestopia_libretro.so".to_string(), "readme.txt".to_string()];
    assert_eq!(installed_cores(&files, "so"), vec!["nestopia".to_string()]);
}

#[test]
fn installed_cores_accepts_any_core_name() {
    let files = vec![
        "fceumm_libretro.so".to_string(),
        "readme.txt".to_string(),
        "fceumm_libretro.so".to_string(),
    ];
    assert_eq!(installed_cores(&files, "so"), vec!["fceumm".to_string()]);
}

#[test]
fn resolve_core_library_path_joins_artifact_and_extension() {
    assert_eq!(resolve_core_library_path("mgba", "/cores", "so"), "/cores/mgba_libretro.so");
    assert_eq!(resolve_core_library_path(" FCEUMM ", "/cores", "so"), "/cores/fceumm_libretro.so");
}

#[test]
fn core_extension_follows_the_platform() {
    assert_eq!(core_extension("macos"), "dylib");
    assert_eq!(core_extension("windows"), "dll");
    assert_eq!(core_extension("linux"), "so");
}

#[test]
fn core_names_are_trimmed_and_lowercased() {
    assert_eq!(normalize_core_name("  Snes9x "), "snes9x");
    assert!(validate_core_name("   ").is_err());
    assert_eq!(validate_core_name("Mgba").unwrap(), "mgba");
}

#[test]
fn classify_marks_the_expected_core_file() {
    match classify_archive_entry("nestopia_libretro.so", "so", "nestopia_libretro.so") {
        ArchiveEntry::Extract { file_name, primary } => {
            assert_eq!(file_name, "nestopia_libretro.so");
            assert!(primary);
        }
        ArchiveEntry::Skip => panic!("expected an extracted entry"),
    }
}

#[test]
fn classify_skips_traversal_and_non_library_entries() {
    assert!(matches!(classify_archive_entry("../evil.so", "so", "mgba_libretro.so"), ArchiveEntry::Skip));
    assert!(matches!(classify_archive_entry("readme.txt", "so", "mgba_libretro.so"), ArchiveEntry::Skip));
}

#[test]
fn classify_keeps_companion_dlls_as_secondary_files() {
    match classify_archive_entry("lib/SDL2.DLL", "so", "mgba_libretro.so") {
        ArchiveEntry::Extract { file_name, primary } => {
            assert_eq!(file_name, "SDL2.DLL");
            assert!(!primary);
        }
        ArchiveEntry::Skip => panic!("expected an extracted entry"),
    }
}

fn installed_core(plan: &CoreInstall) -> (&str, &[u8]) {
    let (name, data) = &plan.files[plan.primary];
    (name.as_str(), data.as_slice())
}

#[test]
fn extract_installs_the_expected_core_file() {
    let ext = core_extension("linux");
    let zip_bytes = make_zip(&[(&format!("nestopia_libretro.{ext}"), b"\x7fELF fake core")]);

    let plan = plan_core_install(&zip_bytes, ext, &format!("nestopia_libretro.{ext}")).unwrap();
    assert_eq!(installed_core(&plan), (format!("nestopia_libretro.{ext}").as_str(), &b"\x7fELF fake core"[..]));
}

#[test]
fn extract_installs_matching_extension_files_even_with_wrong_name() {
    let ext = core_extension("linux");
    let zip_bytes = make_zip(&[(&format!("libsomething.{ext}"), b"data")]);

    let plan = plan_core_install(&zip_bytes, ext, &format!("nestopia_libretro.{ext}")).unwrap();
    assert_eq!(installed_core(&plan).0, format!("libsomething.{ext}"));
}

#[test]
fn extract_matches_expected_name_case_insensitively() {
    let ext = core_extension("linux");
    let stored_name = format!("NESTopia_Libretro.{ext}");
    let zip_bytes = make_zip(&[(&stored_name, b"core")]);

    let plan = plan_core_install(&zip_bytes, ext, &format!("nestopia_libretro.{ext}")).unwrap();
    assert_eq!(installed_core(&plan).0, stored_name);
}

#[test]
fn extract_skips_path_traversal_entries() {
    let ext = core_extension("linux");
    let zip_bytes = make_zip(&[(&format!("../evil.{ext}"), b"boom"), (&format!("mgba_libretro.{ext}"), b"core")]);

    let plan = plan_core_install(&zip_bytes, ext, &format!("mgba_libretro.{ext}")).unwrap();
    assert_eq!(plan.files, vec![(format!("mgba_libretro.{ext}"), b"core".to_vec())]);
}

#[test]
fn extract_rejects_zip_without_core_files() {
    let ext = core_extension("linux");
    let zip_bytes = make_zip(&[("readme.txt", b"hello")]);

    let err = plan_core_install(&zip_bytes, ext, "nestopia_libretro.dylib").err().unwrap();
    assert!(err.contains(&format!("No .{} file found", ext)));
}

#[test]
fn extract_rejects_invalid_zip_data() {
    let err = plan_core_install(b"garbage", core_extension("linux"), "x.dylib").err().unwrap();
    assert!(err.contains("Invalid zip"));
}

#[test]
fn extract_marks_the_last_matching_file_as_the_core() {
    let zip_bytes = make_zip(&[("SDL2.dll", b"sdl"), ("first.so", b"1"), ("second.so", b"2")]);

    let plan = plan_core_install(&zip_bytes, "so", "mgba_libretro.so").unwrap();
    assert_eq!(plan.files.len(), 3);
    assert_eq!(installed_core(&plan), ("second.so", &b"2"[..]));
}

#[test]
fn extract_falls_back_to_the_first_file_without_a_core() {
    let zip_bytes = make_zip(&[("a.dll", b"a"), ("b.dll", b"b")]);

    let plan = plan_core_install(&zip_bytes, "so", "mgba_libretro.so").unwrap();
    assert_eq!(installed_core(&plan), ("a.dll", &b"a"[..]));
}

#[test]
fn resolve_core_path_defaults_to_named_core_in_cores_dir() {
    let ext = core_extension("linux");
    assert_eq!(
        resolve_core_path(None, false, "/tmp/cores", "nestopia", ext, &vec![]),
        format!("/tmp/cores/nestopia_libretro.{ext}")
    );
}

#[test]
fn resolve_core_path_returns_existing_absolute_path() {
    let ext = core_extension("linux");
    let core_file = format!("/tmp/cores/mycore.{ext}");
    let files = vec![format!("mycore.{ext}")];
    assert_eq!(resolve_core_path(Some(&core_file), true, "/tmp/cores", "nestopia", ext, &files), core_file);
}

#[test]
fn resolve_core_path_finds_bare_name_in_cores_dir() {
    let ext = core_extension("linux");
    let files = vec![format!("stella_libretro.{ext}")];
    assert_eq!(
        resolve_core_path(Some("stella"), false, "/tmp/cores", "nestopia", ext, &files),
        format!("/tmp/cores/stella_libretro.{ext}")
    );
}

#[test]
fn resolve_core_path_matches_prefix_when_exact_name_missing() {
    let ext = core_extension("linux");
    let files = vec![format!("nestopia_libretro.{ext}")];
    assert_eq!(
        resolve_core_path(Some("nes"), false, "/tmp/cores", "nestopia", ext, &files),
        format!("/tmp/cores/nestopia_libretro.{ext}")
    );
}

#[test]
fn resolve_core_path_keeps_missing_paths_and_unmatched_names() {
    let files = vec!["readme.txt".to_string()];
    assert_eq!(resolve_core_path(Some("lib/x.so"), false, "/c", "d", "so", &files), "lib/x.so");
    assert_eq!(resolve_core_path(Some("mgba"), false, "/c", "d", "so", &files), "/c/mgba_libretro.so");
}

#[test]
fn choosing_a_core_uses_existing_files_and_installs_missing_names() {
    let choose = |input, exists, installed, candidate_exists| {
        choose_core(input, exists, installed, "/c/nestopia_libretro.so", candidate_exists, "/c", "so")
    };
    assert!(matches!(choose("/x/core.so", true, false, false), CoreChoice::Use(p) if p == "/x/core.so"));
    assert!(matches!(choose("Mgba", false, true, false), CoreChoice::Use(p) if p == "/c/mgba_libretro.so"));
    assert!(matches!(choose("nes", false, false, true), CoreChoice::Use(p) if p == "/c/nestopia_libretro.so"));
    assert!(matches!(choose("mgba", false, false, false), CoreChoice::Install(p) if p == "/c/mgba_libretro.so"));
    assert!(matches!(choose("lib/x.so", false, false, false), CoreChoice::NotFound(m) if m == "Core not found: lib/x.so"));
}
