//! Zip archives: the entries of a zipped ROM, and the files a downloaded
//! core archive installs. The archive format is read by the `zip` crate.
use vstd::prelude::*;
use crate::brew::MAX_DOWNLOAD_BYTES;
use crate::cores::{archive_entry_choice, archive_entry_view, classify_archive_entry};
use crate::text::push_str;

verus! {

// ── What the zip crate reads ───────────────────────────────────────────────

/// What `zip` reads of an archive held in `data`: the archive's error text
/// when it cannot be opened, else for each entry its name and whether it
/// is a directory, or the error text of reading that entry's header.
pub uninterp spec fn zip_directory(data: Seq<u8>) -> Result<Seq<Result<(Seq<char>, bool), Seq<char>>>, Seq<char>>;

/// What `zip` reads of entry `index` of the archive in `data`: its first
/// `limit` bytes (all of them when it is shorter), or an error text.
pub uninterp spec fn zip_entry_data(data: Seq<u8>, index: int, limit: int) -> Result<Seq<u8>, Seq<char>>;

/// A directory listing as plain values.
pub open spec fn directory_view(r: Result<Vec<Result<(String, bool), String>>, String>) -> Result<
    Seq<Result<(Seq<char>, bool), Seq<char>>>,
    Seq<char>,
> {
    match r {
        Ok(entries) => Ok(
            entries@.map_values(
                |e: Result<(String, bool), String>|
                    match e {
                        Ok((name, is_dir)) => Ok((name@, is_dir)),
                        Err(message) => Err(message@),
                    },
            ),
        ),
        Err(message) => Err(message@),
    }
}

/// `zip::ZipArchive::new` over `data`, then `ZipArchive::by_index` for each
/// of its `len()` entries, of which `ZipFile::name` and `ZipFile::is_dir`
/// are kept; errors are kept as their display text. The contract names the
/// outcome, a function of the bytes alone.
#[verifier::external_body]
fn read_zip_directory(data: &[u8]) -> (r: Result<Vec<Result<(String, bool), String>>, String>)
    ensures
        directory_view(r) == zip_directory(data@),
{
    let mut archive = zip::ZipArchive::new(std::io::Cursor::new(data)).map_err(|e| e.to_string())?;
    let mut entries = Vec::new();
    for i in 0..archive.len() {
        entries.push(archive.by_index(i).map(|f| (f.name().to_string(), f.is_dir())).map_err(|e| e.to_string()));
    }
    Ok(entries)
}

/// `zip::ZipArchive::new` over `data` and `ZipArchive::by_index(index)`,
/// whose contents are read through `std::io::Read::take(limit)`; errors
/// are kept as their display text. The outcome is named; that it holds at
/// most `limit` bytes is what `take` documents.
#[verifier::external_body]
fn read_zip_entry(data: &[u8], index: usize, limit: u64) -> (r: Result<Vec<u8>, String>)
    ensures
        match r {
            Ok(bytes) => zip_entry_data(data@, index as int, limit as int) == Ok::<Seq<u8>, Seq<char>>(bytes@)
                && bytes@.len() <= limit,
            Err(message) => zip_entry_data(data@, index as int, limit as int) == Err::<Seq<u8>, Seq<char>>(
                message@,
            ),
        },
{
    let mut archive = zip::ZipArchive::new(std::io::Cursor::new(data)).map_err(|e| e.to_string())?;
    let file = archive.by_index(index).map_err(|e| e.to_string())?;
    let mut bytes = Vec::new();
    std::io::Read::read_to_end(&mut std::io::Read::take(file, limit), &mut bytes).map_err(|e| e.to_string())?;
    Ok(bytes)
}

// ── A zipped ROM ───────────────────────────────────────────────────────────

/// The entries whose headers could be read, in archive order.
pub open spec fn readable_entries(list: Seq<Result<(Seq<char>, bool), Seq<char>>>) -> Seq<(Seq<char>, bool)>
    decreases list.len(),
{
    if list.len() == 0 {
        Seq::empty()
    } else {
        readable_entries(list.drop_last()) + match list.last() {
            Ok(entry) => seq![entry],
            Err(_) => Seq::empty(),
        }
    }
}

/// The entries of the zip archive in `data` whose headers can be read (an
/// entry that cannot be read is passed over), with whether each is a
/// directory; `None` when `data` is not a zip archive.
pub fn zip_file_entries(data: &[u8]) -> (r: Option<Vec<(String, bool)>>)
    ensures
        match zip_directory(data@) {
            Err(_) => r is None,
            Ok(list) => r matches Some(entries) && entries@.map_values(|e: (String, bool)| (e.0@, e.1))
                == readable_entries(list),
        },
{
    let listing = read_zip_directory(data);
    let list = match listing {
        Err(_) => return None,
        Ok(list) => list,
    };
    let ghost view = directory_view(Ok::<Vec<Result<(String, bool), String>>, String>(list))->Ok_0;
    let mut entries: Vec<(String, bool)> = Vec::new();
    let mut i: usize = 0;
    while i < list.len()
        invariant
            i <= list@.len(),
            view == directory_view(Ok::<Vec<Result<(String, bool), String>>, String>(list))->Ok_0,
            entries@.map_values(|e: (String, bool)| (e.0@, e.1)) == readable_entries(view.take(i as int)),
        decreases list@.len() - i,
    {
        assert(view.take(i + 1).drop_last() =~= view.take(i as int));
        match &list[i] {
            Ok((name, is_dir)) => {
                entries.push((name.clone(), *is_dir));
            },
            Err(_) => {},
        }
        assert(entries@.map_values(|e: (String, bool)| (e.0@, e.1)) =~= readable_entries(
            view.take(i + 1),
        ));
        i += 1;
    }
    assert(view.take(list@.len() as int) =~= view);
    Some(entries)
}

// ── A downloaded core archive ──────────────────────────────────────────────

/// The files a core archive installs, in archive order, and which of them
/// is the core itself.
pub struct CoreInstall {
    pub files: Vec<(String, Vec<u8>)>,
    pub primary: usize,
}

/// The files as plain values.
pub open spec fn install_files_view(files: Seq<(String, Vec<u8>)>) -> Seq<(Seq<char>, Seq<u8>)> {
    files.map_values(|f: (String, Vec<u8>)| (f.0@, f.1@))
}

/// The largest extracted file read, one byte over the limit so that an
/// oversized file is seen.
pub open spec fn extract_read_limit() -> int {
    MAX_DOWNLOAD_BYTES + 1
}

/// Going through the first entries of `list` (the archive in `data`): the
/// files to install so far, with the position of the last one marked as
/// the core, or the error that stops the installation.
pub open spec fn install_plan(
    data: Seq<u8>,
    list: Seq<Result<(Seq<char>, bool), Seq<char>>>,
    ext: Seq<char>,
    expected: Seq<char>,
) -> Result<(Seq<(Seq<char>, Seq<u8>)>, Option<int>), Seq<char>>
    decreases list.len(),
{
    if list.len() == 0 {
        Ok((Seq::empty(), None))
    } else {
        match install_plan(data, list.drop_last(), ext, expected) {
            Err(e) => Err(e),
            Ok((files, primary)) => match list.last() {
                Err(e) => Err("Zip read error: "@ + e),
                Ok((name, _)) => match archive_entry_choice(name, ext, expected) {
                    None => Ok((files, primary)),
                    Some((file_name, is_primary)) => match zip_entry_data(
                        data,
                        list.len() - 1,
                        extract_read_limit(),
                    ) {
                        Err(e) => Err("Extract failed: "@ + e),
                        Ok(bytes) => if bytes.len() > MAX_DOWNLOAD_BYTES {
                            Err("Extracted file exceeds maximum size"@)
                        } else {
                            Ok(
                                (
                                    files.push((file_name, bytes)),
                                    if is_primary {
                                        Some(files.len() as int)
                                    } else {
                                        primary
                                    },
                                ),
                            )
                        },
                    },
                },
            },
        }
    }
}

/// What installing the core archive `data` comes to: the files and the
/// position of the core among them (the last file marked as the core, else
/// the first file), or the error text.
pub open spec fn core_install_outcome(data: Seq<u8>, ext: Seq<char>, expected: Seq<char>) -> Result<
    (Seq<(Seq<char>, Seq<u8>)>, int),
    Seq<char>,
> {
    match zip_directory(data) {
        Err(e) => Err("Invalid zip: "@ + e),
        Ok(list) => match install_plan(data, list, ext, expected) {
            Err(e) => Err(e),
            Ok((files, primary)) => if files.len() == 0 {
                Err("No ."@ + ext + " file found in downloaded zip"@)
            } else {
                Ok(
                    (
                        files,
                        match primary {
                            Some(p) => p,
                            None => 0,
                        },
                    ),
                )
            },
        },
    }
}

/// Plans the installation of a downloaded core archive: the library files
/// it holds (see `classify_archive_entry`), read in archive order, each no
/// larger than the download limit, and which of them is the core named by
/// `expected` on a platform whose library extension is `ext`.
pub fn plan_core_install(data: &[u8], ext: &str, expected: &str) -> (r: Result<CoreInstall, String>)
    ensures
        match core_install_outcome(data@, ext@, expected@) {
            Ok((files, primary)) => r matches Ok(plan) && install_files_view(plan.files@) == files
                && plan.primary == primary,
            Err(e) => r matches Err(m) && m@ == e,
        },
{
    let list = match read_zip_directory(data) {
        Err(e) => {
            let mut text = crate::text::str_chars("Invalid zip: ");
            push_str(&mut text, e.as_str());
            return Err(crate::text::string_from_chars(&text));
        },
        Ok(list) => list,
    };
    let ghost view = directory_view(Ok::<Vec<Result<(String, bool), String>>, String>(list))->Ok_0;
    let mut files: Vec<(String, Vec<u8>)> = Vec::new();
    let mut primary: Option<usize> = None;
    let mut i: usize = 0;
    assert(view.take(0) =~= Seq::<Result<(Seq<char>, bool), Seq<char>>>::empty());
    assert(install_files_view(files@) =~= Seq::<(Seq<char>, Seq<u8>)>::empty());
    while i < list.len()
        invariant
            i <= list@.len(),
            view == directory_view(Ok::<Vec<Result<(String, bool), String>>, String>(list))->Ok_0,
            directory_view(Ok::<Vec<Result<(String, bool), String>>, String>(list)) == zip_directory(data@),
            install_plan(data@, view.take(i as int), ext@, expected@) == Ok::<
                (Seq<(Seq<char>, Seq<u8>)>, Option<int>),
                Seq<char>,
            >(
                (
                    install_files_view(files@),
                    match primary {
                        Some(p) => Some(p as int),
                        None => None,
                    },
                ),
            ),
            primary matches Some(p) ==> p < files@.len(),
        decreases list@.len() - i,
    {
        assert(view.take(i + 1).drop_last() =~= view.take(i as int));
        assert(view.take(i + 1).last() == view[i as int]);
        let name = match &list[i] {
            Err(e) => {
                assert(view[i as int] == Err::<(Seq<char>, bool), Seq<char>>(e@));
                let mut text = crate::text::str_chars("Zip read error: ");
                push_str(&mut text, e.as_str());
                proof {
                    lemma_plan_stops(data@, view, i as int, ext@, expected@);
                }
                return Err(crate::text::string_from_chars(&text));
            },
            Ok((name, is_dir)) => {
                assert(view[i as int] == Ok::<(Seq<char>, bool), Seq<char>>((name@, *is_dir)));
                name
            },
        };
        let ghost before = install_plan(data@, view.take(i as int), ext@, expected@);
        let choice = classify_archive_entry(name.as_str(), ext, expected);
        match choice {
            crate::cores::ArchiveEntry::Skip => {
                assert(install_plan(data@, view.take(i + 1), ext@, expected@) == before);
            },
            crate::cores::ArchiveEntry::Extract { file_name, primary: is_primary } => {
                let bytes = match read_zip_entry(data, i, MAX_DOWNLOAD_BYTES + 1) {
                    Err(e) => {
                        let mut text = crate::text::str_chars("Extract failed: ");
                        push_str(&mut text, e.as_str());
                        proof {
                            lemma_plan_stops(data@, view, i as int, ext@, expected@);
                        }
                        return Err(crate::text::string_from_chars(&text));
                    },
                    Ok(bytes) => bytes,
                };
                if bytes.len() as u64 > MAX_DOWNLOAD_BYTES {
                    proof {
                        lemma_plan_stops(data@, view, i as int, ext@, expected@);
                    }
                    return Err(crate::text::string_from_chars(
                        &crate::text::str_chars("Extracted file exceeds maximum size"),
                    ));
                }
                let ghost entry = (file_name@, bytes@);
                assert(archive_entry_choice(name@, ext@, expected@) == Some((file_name@, is_primary)));
                assert(zip_entry_data(data@, i as int, extract_read_limit()) == Ok::<Seq<u8>, Seq<char>>(
                    bytes@,
                ));
                let ghost old_files = install_files_view(files@);
                if is_primary {
                    primary = Some(files.len());
                }
                files.push((file_name, bytes));
                assert(install_files_view(files@) =~= old_files.push(entry));
                assert(install_plan(data@, view.take(i + 1), ext@, expected@) == Ok::<
                    (Seq<(Seq<char>, Seq<u8>)>, Option<int>),
                    Seq<char>,
                >(
                    (
                        install_files_view(files@),
                        match primary {
                            Some(p) => Some(p as int),
                            None => None,
                        },
                    ),
                ));
            },
        }
        i += 1;
    }
    assert(view.take(list@.len() as int) =~= view);
    if files.len() == 0 {
        let mut text = crate::text::str_chars("No .");
        push_str(&mut text, ext);
        push_str(&mut text, " file found in downloaded zip");
        return Err(crate::text::string_from_chars(&text));
    }
    let primary = match primary {
        Some(p) => p,
        None => 0,
    };
    Ok(CoreInstall { files, primary })
}

/// Once an entry stops the installation, no later entry changes that.
proof fn lemma_plan_stops(
    data: Seq<u8>,
    list: Seq<Result<(Seq<char>, bool), Seq<char>>>,
    i: int,
    ext: Seq<char>,
    expected: Seq<char>,
)
    requires
        0 <= i < list.len(),
        install_plan(data, list.take(i + 1), ext, expected) is Err,
    ensures
        install_plan(data, list, ext, expected) == install_plan(data, list.take(i + 1), ext, expected),
    decreases list.len() - i,
{
    if i + 1 < list.len() {
        let shorter = list.drop_last();
        assert(shorter.take(i + 1) =~= list.take(i + 1));
        lemma_plan_stops(data, shorter, i, ext, expected);
    } else {
        assert(list.take(i + 1) =~= list);
    }
}

} // verus!
