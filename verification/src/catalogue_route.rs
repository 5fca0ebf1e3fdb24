//! Routes from a workspace root to its catalogue: locators, the discovery of
//! catalogues that have none yet, and the checks of what was found.
use vstd::prelude::*;

use crate::error;
use crate::error::AtlasError;
use crate::paths;
use crate::paths::{last_name_of, leads_to_entry, path_below};
use crate::text;
use crate::text::{
    append_decimal, join3, text_begins_with, text_ends_with, text_eq,
};

verus! {

pub const CATALOGUE_LOCATOR_SCHEMA_VERSION: u32 = 1;

/// The largest catalogue that is inspected without being named.
pub const LEGACY_DISCOVERY_MAX_BYTES: u64 = 268_435_456;

/// A registered workspace.
#[derive(Debug)]
pub struct WorkspaceRecord {
    pub workspace_id: String,
    pub display_name: String,
    pub canonical_root: String,
    pub catalogue_path: String,
    pub configuration_hash: String,
    pub active_generation_id: Option<String>,
    pub created_at: String,
}

/// The workspace, which must be registered.
pub fn required_workspace(workspace: Option<WorkspaceRecord>) -> (r: Result<
    WorkspaceRecord,
    AtlasError,
>)
    ensures
        match workspace {
            Some(workspace) => r == Ok::<WorkspaceRecord, AtlasError>(workspace),
            None => r matches Err(AtlasError::WorkspaceNotFound { workspace_id }) && workspace_id@
                == "<by root>"@,
        },
{
    match workspace {
        Some(workspace) => Ok(workspace),
        None => Err(AtlasError::WorkspaceNotFound { workspace_id: "<by root>".to_string() }),
    }
}

/// The name of a workspace that was given none: that of its directory.
pub fn workspace_default_display_name(workspace_root: &str) -> (r: String)
    ensures
        r@ == (match paths::last_name(workspace_root@) {
            Some(name) => name,
            None => "workspace"@,
        }),
{
    match last_name_of(workspace_root) {
        Some(name) => name,
        None => "workspace".to_string(),
    }
}

// ---------------------------------------------------------------------------
// Locators
// ---------------------------------------------------------------------------

/// Where the catalogue of a workspace root is.
#[derive(Debug)]
pub struct CatalogueLocator {
    pub schema_version: u32,
    pub canonical_root: String,
    pub workspace_id: String,
    pub catalogue_path: String,
}

/// The values of a locator.
pub ghost struct LocatorView {
    pub schema_version: u32,
    pub canonical_root: Seq<char>,
    pub workspace_id: Seq<char>,
    pub catalogue_path: Seq<char>,
}

impl View for CatalogueLocator {
    type V = LocatorView;

    open spec fn view(&self) -> LocatorView {
        LocatorView {
            schema_version: self.schema_version,
            canonical_root: self.canonical_root@,
            workspace_id: self.workspace_id@,
            catalogue_path: self.catalogue_path@,
        }
    }
}

/// Whether the paths of two locators are the same places.
#[derive(Debug, Clone, Copy, PartialEq, Eq, Structural)]
pub struct SamePlaces {
    pub roots: bool,
    pub catalogues: bool,
}

/// Two locators lead the same workspace to the same catalogue.
pub open spec fn same_route(a: LocatorView, b: LocatorView, places: SamePlaces) -> bool {
    a.schema_version == b.schema_version && a.workspace_id == b.workspace_id && places.roots
        && places.catalogues
}

impl CatalogueLocator {
    pub fn new(canonical_root: &str, workspace_id: &str, catalogue_path: &str) -> (r: Self)
        ensures
            r@ == (LocatorView {
                schema_version: CATALOGUE_LOCATOR_SCHEMA_VERSION,
                canonical_root: canonical_root@,
                workspace_id: workspace_id@,
                catalogue_path: catalogue_path@,
            }),
    {
        CatalogueLocator {
            schema_version: CATALOGUE_LOCATOR_SCHEMA_VERSION,
            canonical_root: canonical_root.to_string(),
            workspace_id: workspace_id.to_string(),
            catalogue_path: catalogue_path.to_string(),
        }
    }

    pub fn has_same_route(&self, other: &Self, places: SamePlaces) -> (r: bool)
        ensures
            r == same_route(self@, other@, places),
    {
        self.schema_version == other.schema_version && text_eq(
            self.workspace_id.as_str(),
            other.workspace_id.as_str(),
        ) && places.roots && places.catalogues
    }

    fn duplicate(&self) -> (r: Self)
        ensures
            r@ == self@,
    {
        CatalogueLocator {
            schema_version: self.schema_version,
            canonical_root: self.canonical_root.clone(),
            workspace_id: self.workspace_id.clone(),
            catalogue_path: self.catalogue_path.clone(),
        }
    }
}

/// Checks a locator that was read: its version, and that it is about the root that
/// it was found under. `same_root` tells whether the two roots are the same place.
pub fn check_catalogue_locator(
    path: &str,
    locator: &CatalogueLocator,
    expected_root: &str,
    same_root: bool,
) -> (r: Result<(), AtlasError>)
    ensures
        if locator.schema_version != CATALOGUE_LOCATOR_SCHEMA_VERSION {
            error::failed(
                r,
                "catalogue locator "@ + path@ + " has unsupported schema version "@ + text::decimal(
                    locator.schema_version as nat,
                ),
            )
        } else if !same_root {
            error::failed(
                r,
                "catalogue locator "@ + path@ + " canonical root mismatch: expected "@
                    + expected_root@ + ", found "@ + locator.canonical_root@,
            )
        } else {
            r is Ok
        },
{
    if locator.schema_version != CATALOGUE_LOCATOR_SCHEMA_VERSION {
        let mut message = join3("catalogue locator ", path, " has unsupported schema version ");
        append_decimal(&mut message, locator.schema_version as u64);
        return Err(AtlasError::Other(message));
    }
    if !same_root {
        let mut message = join3("catalogue locator ", path, " canonical root mismatch: expected ");
        message.append(expected_root);
        message.append(", found ");
        message.append(locator.canonical_root.as_str());
        return Err(AtlasError::Other(message));
    }
    Ok(())
}

/// What becomes of a locator where one exists already: it stays if it is the same
/// route. `concurrently` tells whether the existing one appeared while the new one
/// was being written.
pub fn settle_existing_locator(
    existing: &CatalogueLocator,
    locator: &CatalogueLocator,
    places: SamePlaces,
    concurrently: bool,
) -> (r: Result<(), AtlasError>)
    ensures
        if same_route(existing@, locator@, places) {
            r is Ok
        } else if concurrently {
            error::failed(
                r,
                "catalogue locator for "@ + locator.canonical_root@
                    + " concurrently changed to workspace "@ + existing.workspace_id@,
            )
        } else {
            error::failed(
                r,
                "catalogue locator for "@ + locator.canonical_root@
                    + " already points to workspace "@ + existing.workspace_id@,
            )
        },
{
    if existing.has_same_route(locator, places) {
        return Ok(());
    }
    let mut message = if concurrently {
        join3(
            "catalogue locator for ",
            locator.canonical_root.as_str(),
            " concurrently changed to workspace ",
        )
    } else {
        join3(
            "catalogue locator for ",
            locator.canonical_root.as_str(),
            " already points to workspace ",
        )
    };
    message.append(existing.workspace_id.as_str());
    Err(AtlasError::Other(message))
}

/// A workspace that is stored under the identity that its root and name derive.
pub fn validate_workspace_identity(workspace_id: &str, derived: &str) -> (r: Result<
    (),
    AtlasError,
>)
    ensures
        if workspace_id@ == derived@ {
            r is Ok
        } else {
            error::failed(
                r,
                "catalogue workspace identity mismatch: stored "@ + workspace_id@ + ", derived "@
                    + derived@,
            )
        },
{
    if !text_eq(workspace_id, derived) {
        let mut message = join3(
            "catalogue workspace identity mismatch: stored ",
            workspace_id,
            ", derived ",
        );
        message.append(derived);
        return Err(AtlasError::Other(message));
    }
    Ok(())
}

// ---------------------------------------------------------------------------
// Physical files
// ---------------------------------------------------------------------------

/// What a file that escapes its directory is refused with.
pub open spec fn escape_message(
    role: Seq<char>,
    expected_path: Seq<char>,
    canonical_file: Seq<char>,
    expected_file: Seq<char>,
) -> Seq<char> {
    role + " "@ + expected_path
        + " physically escapes the canonical Atlas catalogue directory; resolved to "@
        + canonical_file + " instead of "@ + expected_file
}

/// Checks that a file is a regular file and physically in its directory, under its
/// own name.
pub fn validate_resolved_file(
    expected_path: &str,
    canonical_parent: &str,
    canonical_file: &str,
    is_regular_file: bool,
    role: &str,
) -> (r: Result<(), AtlasError>)
    ensures
        match paths::last_name(expected_path@) {
            None => error::failed(r, role@ + " "@ + expected_path@ + " has no file name"@),
            Some(name) => if is_regular_file && paths::is_entry_of(
                canonical_file@,
                canonical_parent@,
                name,
            ) {
                r is Ok
            } else {
                error::failed(
                    r,
                    escape_message(
                        role@,
                        expected_path@,
                        canonical_file@,
                        paths::below(canonical_parent@, name),
                    ),
                )
            },
        },
{
    let name = match last_name_of(expected_path) {
        Some(name) => name,
        None => {
            let mut message = join3(role, " ", expected_path);
            message.append(" has no file name");
            return Err(AtlasError::Other(message));
        },
    };
    if !is_regular_file || !leads_to_entry(canonical_file, canonical_parent, name.as_str()) {
        let mut message = join3(role, " ", expected_path);
        message.append(
            " physically escapes the canonical Atlas catalogue directory; resolved to ",
        );
        message.append(canonical_file);
        message.append(" instead of ");
        message.append(path_below(canonical_parent, name.as_str()).as_str());
        return Err(AtlasError::Other(message));
    }
    Ok(())
}

/// Checks that the locator directory is physically in the catalogue directory.
pub fn check_locator_directory(
    directory: &str,
    canonical_catalogue_directory: &str,
    canonical_locator_directory: &str,
) -> (r: Result<(), AtlasError>)
    ensures
        if paths::is_entry_of(
            canonical_locator_directory@,
            canonical_catalogue_directory@,
            "locators"@,
        ) {
            r is Ok
        } else {
            error::failed(
                r,
                escape_message(
                    "catalogue locator directory"@,
                    directory@,
                    canonical_locator_directory@,
                    paths::below(canonical_catalogue_directory@, "locators"@),
                ),
            )
        },
{
    if leads_to_entry(canonical_locator_directory, canonical_catalogue_directory, "locators") {
        return Ok(());
    }
    let mut message = join3("catalogue locator directory", " ", directory);
    message.append(" physically escapes the canonical Atlas catalogue directory; resolved to ");
    message.append(canonical_locator_directory);
    message.append(" instead of ");
    message.append(path_below(canonical_catalogue_directory, "locators").as_str());
    Err(AtlasError::Other(message))
}

/// A regular file at its own name in its directory is accepted, and no file that
/// resolves anywhere else is, whatever its name.
pub proof fn law_only_files_in_place_are_accepted(
    expected_path: Seq<char>,
    canonical_parent: Seq<char>,
    canonical_file: Seq<char>,
)
    requires
        paths::last_name(expected_path) is Some,
    ensures
        paths::is_entry_of(
            paths::below(canonical_parent, paths::last_name(expected_path)->0),
            canonical_parent,
            paths::last_name(expected_path)->0,
        ),
        paths::is_entry_of(
            canonical_file,
            canonical_parent,
            paths::last_name(expected_path)->0,
        ) ==> paths::components(canonical_file) == paths::components(
            paths::below(canonical_parent, paths::last_name(expected_path)->0),
        ),
{
    paths::law_last_names_are_plain(expected_path);
    paths::law_a_path_below_is_an_entry(canonical_parent, paths::last_name(expected_path)->0);
}

// ---------------------------------------------------------------------------
// Catalogues without a locator
// ---------------------------------------------------------------------------

/// A name that a catalogue without a locator can have.
pub open spec fn legacy_name(name: Seq<char>) -> bool {
    text::begins_with(name, "ws_"@) && text::ends_with(name, ".sqlite"@)
}

/// Whether a file of this name can be a catalogue without a locator.
pub fn is_legacy_catalogue_name(name: &str) -> (r: bool)
    ensures
        r == legacy_name(name@),
{
    text_begins_with(name, "ws_") && text_ends_with(name, ".sqlite")
}

/// The first sixteen bytes of a database file.
pub open spec fn header_magic() -> Seq<u8> {
    seq![
        0x53u8, 0x51u8, 0x4Cu8, 0x69u8, 0x74u8, 0x65u8, 0x20u8, 0x66u8, 0x6Fu8, 0x72u8, 0x6Du8,
        0x61u8, 0x74u8, 0x20u8, 0x33u8, 0u8,
    ]
}

/// The page size that the two bytes of a header stand for.
pub open spec fn page_size(header: Seq<u8>) -> int {
    let field = header[16] * 256 + header[17];
    if field == 1 {
        65536
    } else {
        field
    }
}

/// A page size that a database can have: a power of two.
pub open spec fn page_size_allowed(size: int) -> bool {
    size == 512 || size == 1024 || size == 2048 || size == 4096 || size == 8192 || size == 16384
        || size == 32768 || size == 65536
}

/// The number that four bytes of a header stand for, the largest first.
pub open spec fn big_endian(header: Seq<u8>, at: int) -> int {
    header[at] * 0x1000000 + header[at + 1] * 0x10000 + header[at + 2] * 0x100 + header[at + 3]
}

/// The bytes that a header keeps free are zero.
pub open spec fn reserved_bytes_zero(header: Seq<u8>) -> bool {
    forall|i: int| 72 <= i < 92 ==> header[i] == 0
}

/// What is wrong with the header of a database file of a length, first things first.
pub open spec fn header_fault(header: Seq<u8>, file_len: int) -> Option<Seq<char>> {
    if header.len() < 16 || (header.take(16) == header_magic() && header.len() < 100) {
        Some(
            " has a short SQLite header ("@ + text::decimal(header.len()) + " bytes; need 100)"@,
        )
    } else if header.take(16) != header_magic() {
        Some(" has invalid SQLite header magic"@)
    } else if !page_size_allowed(page_size(header)) {
        Some(" has invalid SQLite page size "@ + text::decimal(page_size(header) as nat))
    } else if !(header[18] == header[19] && (header[18] == 1 || header[18] == 2)) {
        Some(
            " has unsupported or mismatched SQLite format versions "@ + text::decimal(
                header[18] as nat,
            ) + "/"@ + text::decimal(header[19] as nat),
        )
    } else if page_size(header) - header[20] < 480 || header[21] != 64 || header[22] != 32
        || header[23] != 32 {
        Some(" has invalid SQLite page-reserve or payload header fields"@)
    } else if !(1 <= big_endian(header, 44) <= 4) || !(1 <= big_endian(header, 56) <= 3)
        || !reserved_bytes_zero(header) {
        Some(" has unsupported SQLite schema, encoding, or reserved header fields"@)
    } else if file_len < page_size(header) || file_len % page_size(header) != 0 {
        Some(
            " size "@ + text::decimal(file_len as nat) + " is not a complete SQLite page image"@,
        )
    } else {
        None
    }
}

fn legacy_failure(path: &str, problem: &str) -> (r: Result<bool, AtlasError>)
    ensures
        error::failed(r, "legacy catalogue "@ + path@ + problem@),
{
    Err(AtlasError::Other(join3("legacy catalogue ", path, problem)))
}

fn has_magic(header: &Vec<u8>) -> (r: bool)
    requires
        header@.len() >= 16,
    ensures
        r == (header@.take(16) == header_magic()),
{
    let magic: [u8; 16] = [
        0x53, 0x51, 0x4C, 0x69, 0x74, 0x65, 0x20, 0x66, 0x6F, 0x72, 0x6D, 0x61, 0x74, 0x20, 0x33, 0,
    ];
    assert(magic@ =~= header_magic());
    for i in 0..16usize
        invariant
            header@.len() >= 16,
            magic@ == header_magic(),
            magic@.len() == 16,
            forall|j: int| 0 <= j < i ==> header@[j] == magic@[j],
    {
        if header[i] != magic[i] {
            assert(header@.take(16)[i as int] != header_magic()[i as int]);
            return false;
        }
    }
    assert(header@.take(16) =~= header_magic());
    true
}

fn number_at(header: &Vec<u8>, at: usize) -> (r: u32)
    requires
        at + 4 <= header@.len(),
        at <= 96,
    ensures
        r == big_endian(header@, at as int),
{
    header[at] as u32 * 0x1000000 + header[at + 1] as u32 * 0x10000 + header[at + 2] as u32 * 0x100
        + header[at + 3] as u32
}

fn reserved_zero(header: &Vec<u8>) -> (r: bool)
    requires
        header@.len() >= 100,
    ensures
        r == reserved_bytes_zero(header@),
{
    for i in 72..92usize
        invariant
            header@.len() >= 100,
            forall|j: int| 72 <= j < i ==> header@[j] == 0,
    {
        if header[i] != 0 {
            return false;
        }
    }
    true
}

/// Checks the header of a database file, and tells whether the database keeps a
/// write-ahead log.
pub fn validate_legacy_header(header: &Vec<u8>, file_len: u64, path: &str) -> (r: Result<
    bool,
    AtlasError,
>)
    ensures
        match header_fault(header@, file_len as int) {
            Some(problem) => error::failed(r, "legacy catalogue "@ + path@ + problem),
            None => r matches Ok(uses_wal) && uses_wal == (header@[18] == 2),
        },
{
    if header.len() < 16 || (has_magic(header) && header.len() < 100) {
        let mut problem = " has a short SQLite header (".to_string();
        append_decimal(&mut problem, header.len() as u64);
        problem.append(" bytes; need 100)");
        return legacy_failure(path, problem.as_str());
    }
    if !has_magic(header) {
        return legacy_failure(path, " has invalid SQLite header magic");
    }
    let field: u64 = header[16] as u64 * 256 + header[17] as u64;
    let size: u64 = if field == 1 {
        65536
    } else {
        field
    };
    if !(size == 512 || size == 1024 || size == 2048 || size == 4096 || size == 8192 || size
        == 16384 || size == 32768 || size == 65536) {
        let mut problem = " has invalid SQLite page size ".to_string();
        append_decimal(&mut problem, size);
        return legacy_failure(path, problem.as_str());
    }
    if !(header[18] == header[19] && (header[18] == 1 || header[18] == 2)) {
        let mut problem = " has unsupported or mismatched SQLite format versions ".to_string();
        append_decimal(&mut problem, header[18] as u64);
        problem.append("/");
        append_decimal(&mut problem, header[19] as u64);
        return legacy_failure(path, problem.as_str());
    }
    if size - (header[20] as u64) < 480 || header[21] != 64 || header[22] != 32 || header[23]
        != 32 {
        return legacy_failure(path, " has invalid SQLite page-reserve or payload header fields");
    }
    let schema_format: u32 = number_at(header, 44);
    let encoding: u32 = number_at(header, 56);
    if schema_format < 1 || schema_format > 4 || encoding < 1 || encoding > 3 || !reserved_zero(
        header,
    ) {
        return legacy_failure(
            path,
            " has unsupported SQLite schema, encoding, or reserved header fields",
        );
    }
    if file_len < size || file_len % size != 0 {
        let mut problem = " size ".to_string();
        append_decimal(&mut problem, file_len);
        problem.append(" is not a complete SQLite page image");
        return legacy_failure(path, problem.as_str());
    }
    Ok(header[18] == 2)
}

/// Checks the length of a catalogue against the ceiling of discovery, and gives the
/// bytes that are still to be read behind the header.
pub fn legacy_snapshot_rest(file_len: u64, header_len: usize, path: &str) -> (r: Result<
    usize,
    AtlasError,
>)
    requires
        header_len <= file_len,
    ensures
        if file_len > LEGACY_DISCOVERY_MAX_BYTES {
            error::failed(
                r,
                "legacy catalogue "@ + path@ + (" is "@ + text::decimal(file_len as nat)
                    + " bytes, exceeding the legacy discovery ceiling of "@ + text::decimal(
                    LEGACY_DISCOVERY_MAX_BYTES as nat,
                ) + " bytes"@),
            )
        } else {
            r matches Ok(rest) && rest == file_len - header_len
        },
{
    if file_len > LEGACY_DISCOVERY_MAX_BYTES {
        let mut problem = " is ".to_string();
        append_decimal(&mut problem, file_len);
        problem.append(" bytes, exceeding the legacy discovery ceiling of ");
        append_decimal(&mut problem, LEGACY_DISCOVERY_MAX_BYTES);
        problem.append(" bytes");
        return Err(AtlasError::Other(join3("legacy catalogue ", path, problem.as_str())));
    }
    Ok(file_len as usize - header_len)
}

/// A private copy of a quiescent catalogue, marked as one without a write-ahead log
/// so that it can be opened from memory.
pub fn normalize_snapshot(snapshot: &mut Vec<u8>, uses_wal: bool)
    requires
        old(snapshot)@.len() >= 100,
    ensures
        final(snapshot)@ == (if uses_wal {
            old(snapshot)@.update(18, 1).update(19, 1)
        } else {
            old(snapshot)@
        }),
{
    if uses_wal {
        snapshot.set(18, 1);
        snapshot.set(19, 1);
    }
}

/// The copy of a catalogue whose header was accepted has an accepted header and no
/// write-ahead log, and differs in the two version bytes alone.
pub proof fn law_normalized_snapshots_open(snapshot: Seq<u8>, file_len: int)
    requires
        header_fault(snapshot.take(100), file_len) is None,
        snapshot.len() >= 100,
    ensures
        header_fault(snapshot.update(18, 1).update(19, 1).take(100), file_len) is None,
        snapshot.update(18, 1).update(19, 1).take(100)[18] == 1,
        forall|i: int|
            0 <= i < snapshot.len() && i != 18 && i != 19 ==> snapshot.update(18, 1).update(
                19,
                1,
            )[i] == snapshot[i],
{
    let old_header = snapshot.take(100);
    let new_header = snapshot.update(18, 1).update(19, 1).take(100);
    assert(new_header.take(16) =~= old_header.take(16));
    assert forall|i: int| 0 <= i < 100 && i != 18 && i != 19 implies new_header[i]
        == old_header[i] by {}
}

/// What tells one state of a file from another: the file, its length and the time
/// of its last change, in whole seconds and nanoseconds.
#[derive(Debug, Clone, Copy, PartialEq, Eq, Structural)]
pub struct LegacyFileState {
    pub device: u64,
    pub file: u64,
    pub len: u64,
    pub modified_secs: i64,
    pub modified_nanos: u32,
}

/// Checks that a catalogue is as it was when it was opened, both the open file and
/// the one at the path.
pub fn check_legacy_unchanged(
    path: &str,
    expected: LegacyFileState,
    open_file: LegacyFileState,
    at_path: LegacyFileState,
) -> (r: Result<(), AtlasError>)
    ensures
        if open_file == expected && at_path == expected {
            r is Ok
        } else {
            error::failed(r, "legacy catalogue "@ + path@ + " changed during inspection"@)
        },
{
    if open_file != expected || at_path != expected {
        return Err(
            AtlasError::Other(join3("legacy catalogue ", path, " changed during inspection")),
        );
    }
    Ok(())
}

/// Checks that a catalogue did not grow while it was read.
pub fn check_legacy_growth(path: &str, expected: LegacyFileState, grew: bool) -> (r: Result<
    (),
    AtlasError,
>)
    ensures
        if grew {
            error::failed(
                r,
                "legacy catalogue "@ + path@ + " grew beyond its recorded "@ + text::decimal(
                    expected.len as nat,
                ) + "-byte length during inspection"@,
            )
        } else {
            r is Ok
        },
{
    if grew {
        let mut message = join3("legacy catalogue ", path, " grew beyond its recorded ");
        append_decimal(&mut message, expected.len);
        message.append("-byte length during inspection");
        return Err(AtlasError::Other(message));
    }
    Ok(())
}

/// What is found where a sidecar of a catalogue would be.
#[derive(Debug, Clone, Copy, PartialEq, Eq, Structural)]
pub enum SidecarFinding {
    Absent,
    Irregular,
    Regular { len: u64 },
}

/// Checks what is found where a sidecar would be: only an empty write-ahead log may
/// be there. Tells whether there is one, whose state is then to be recorded.
pub fn check_legacy_sidecar(path: &str, allow_empty: bool, finding: SidecarFinding) -> (r: Result<
    bool,
    AtlasError,
>)
    ensures
        match finding {
            SidecarFinding::Absent => r == Ok::<bool, AtlasError>(false),
            SidecarFinding::Irregular => error::failed(
                r,
                "legacy catalogue sidecar "@ + path@ + " is non-regular; refusing inspection"@,
            ),
            SidecarFinding::Regular { len } => if !allow_empty {
                error::failed(
                    r,
                    "legacy catalogue has active sidecar "@ + path@
                        + "; pass --catalogue explicitly after resolving active writes"@,
                )
            } else if len != 0 {
                error::failed(
                    r,
                    "legacy catalogue has a non-empty WAL "@ + path@
                        + "; pass --catalogue explicitly after resolving active writes"@,
                )
            } else {
                r == Ok::<bool, AtlasError>(true)
            },
        },
{
    match finding {
        SidecarFinding::Absent => Ok(false),
        SidecarFinding::Irregular => Err(
            AtlasError::Other(
                join3("legacy catalogue sidecar ", path, " is non-regular; refusing inspection"),
            ),
        ),
        SidecarFinding::Regular { len } => {
            if !allow_empty {
                return Err(
                    AtlasError::Other(
                        join3(
                            "legacy catalogue has active sidecar ",
                            path,
                            "; pass --catalogue explicitly after resolving active writes",
                        ),
                    ),
                );
            }
            if len != 0 {
                return Err(
                    AtlasError::Other(
                        join3(
                            "legacy catalogue has a non-empty WAL ",
                            path,
                            "; pass --catalogue explicitly after resolving active writes",
                        ),
                    ),
                );
            }
            Ok(true)
        },
    }
}

/// Checks that an empty write-ahead log is still empty and still the one at its path.
pub fn check_sidecar_opened(
    path: &str,
    opened: LegacyFileState,
    at_path: LegacyFileState,
) -> (r: Result<(), AtlasError>)
    ensures
        if opened.len == 0 && at_path == opened {
            r is Ok
        } else {
            error::failed(r, "legacy catalogue WAL "@ + path@ + " changed during inspection"@)
        },
{
    if opened.len != 0 || at_path != opened {
        return Err(
            AtlasError::Other(join3("legacy catalogue WAL ", path, " changed during inspection")),
        );
    }
    Ok(())
}

/// A sidecar of a catalogue before and after it was inspected.
#[derive(Debug)]
pub struct SidecarWatch {
    pub path: String,
    pub before: Option<LegacyFileState>,
    pub after: Option<LegacyFileState>,
}

/// The first sidecar that changed.
pub open spec fn changed_sidecar(watches: Seq<SidecarWatch>, from: int) -> Option<Seq<char>>
    decreases watches.len() - from,
{
    if from < 0 || from >= watches.len() {
        None
    } else if watches[from].before != watches[from].after {
        Some(watches[from].path@)
    } else {
        changed_sidecar(watches, from + 1)
    }
}

fn same_state(a: Option<LegacyFileState>, b: Option<LegacyFileState>) -> (r: bool)
    ensures
        r == (a == b),
{
    match (a, b) {
        (None, None) => true,
        (Some(x), Some(y)) => x == y,
        _ => false,
    }
}

/// Checks that no sidecar of a catalogue changed while it was inspected.
pub fn verify_sidecars_unchanged(watches: &Vec<SidecarWatch>) -> (r: Result<(), AtlasError>)
    ensures
        match changed_sidecar(watches@, 0) {
            Some(path) => error::failed(
                r,
                "legacy catalogue sidecar state changed during inspection: "@ + path,
            ),
            None => r is Ok,
        },
{
    for i in 0..watches.len()
        invariant
            changed_sidecar(watches@, 0) == changed_sidecar(watches@, i as int),
    {
        if !same_state(watches[i].before, watches[i].after) {
            let mut message =
                "legacy catalogue sidecar state changed during inspection: ".to_string();
            message.append(watches[i].path.as_str());
            return Err(AtlasError::Other(message));
        }
    }
    Ok(())
}

/// A failure to inspect a catalogue, with the way out.
pub fn legacy_inspection_failure(path: &str, problem: &str) -> (r: AtlasError)
    ensures
        r matches AtlasError::Other(m) && m@ == "cannot inspect legacy catalogue "@ + path@ + ": "@
            + problem@
            + ". Re-run `atlas init <absolute-root>` or pass `--catalogue <path>` explicitly for recovery"@,
{
    let mut message = join3("cannot inspect legacy catalogue ", path, ": ");
    message.append(problem);
    message.append(
        ". Re-run `atlas init <absolute-root>` or pass `--catalogue <path>` explicitly for recovery",
    );
    AtlasError::Other(message)
}

/// What an inspected catalogue holds for a root: the workspace, the identity that
/// its root and name derive, the path that this identity asks for, and whether the
/// catalogue is at that place.
#[derive(Debug)]
pub struct LegacyFinding {
    pub workspace_id: String,
    pub derived_id: String,
    pub expected_path: String,
    pub in_place: bool,
}

/// The locator of an inspected catalogue, if it holds the workspace of the root. A
/// workspace under a wrong identity, or a catalogue out of its place, is refused.
pub fn legacy_candidate(
    canonical_root: &str,
    path: &str,
    finding: &Option<LegacyFinding>,
) -> (r: Result<Option<CatalogueLocator>, AtlasError>)
    ensures
        match *finding {
            None => r matches Ok(None),
            Some(found) => if found.workspace_id@ != found.derived_id@ {
                error::failed(
                    r,
                    "catalogue workspace identity mismatch: stored "@ + found.workspace_id@
                        + ", derived "@ + found.derived_id@,
                )
            } else if !found.in_place {
                error::failed(
                    r,
                    "legacy catalogue "@ + path@ + " for workspace "@ + found.workspace_id@
                        + " is outside its ADR-015 path "@ + found.expected_path@,
                )
            } else {
                r matches Ok(Some(locator)) && locator@ == (LocatorView {
                    schema_version: CATALOGUE_LOCATOR_SCHEMA_VERSION,
                    canonical_root: canonical_root@,
                    workspace_id: found.workspace_id@,
                    catalogue_path: path@,
                })
            },
        },
{
    let found = match finding {
        Some(found) => found,
        None => return Ok(None),
    };
    match validate_workspace_identity(found.workspace_id.as_str(), found.derived_id.as_str()) {
        Ok(()) => {},
        Err(problem) => return Err(problem),
    }
    if !found.in_place {
        let mut message = join3("legacy catalogue ", path, " for workspace ");
        message.append(found.workspace_id.as_str());
        message.append(" is outside its ADR-015 path ");
        message.append(found.expected_path.as_str());
        return Err(AtlasError::Other(message));
    }
    Ok(Some(CatalogueLocator::new(canonical_root, found.workspace_id.as_str(), path)))
}

/// The one catalogue of a root that has no locator yet.
pub fn migrate_legacy_catalogue(canonical_root: &str, matches: &Vec<CatalogueLocator>) -> (r:
    Result<CatalogueLocator, AtlasError>)
    ensures
        if matches@.len() == 0 {
            error::failed(
                r,
                "no default catalogue registered for workspace root "@ + canonical_root@,
            )
        } else if matches@.len() == 1 {
            r matches Ok(locator) && locator@ == matches@[0]@
        } else {
            error::failed(
                r,
                "multiple legacy catalogues match workspace root "@ + canonical_root@
                    + "; pass --catalogue explicitly"@,
            )
        },
{
    if matches.len() == 0 {
        let mut message = "no default catalogue registered for workspace root ".to_string();
        message.append(canonical_root);
        return Err(AtlasError::Other(message));
    }
    if matches.len() == 1 {
        return Ok(matches[0].duplicate());
    }
    Err(
        AtlasError::Other(
            join3(
                "multiple legacy catalogues match workspace root ",
                canonical_root,
                "; pass --catalogue explicitly",
            ),
        ),
    )
}

/// What the registration of a root at its default catalogue comes to.
#[derive(Debug)]
pub enum Registration {
    Keep,
    Write(CatalogueLocator),
}

/// What is known of the route of a root before it is registered: its locator, if it
/// has one, or else the catalogues that hold it, each with whether its places are
/// those of the expected route.
#[derive(Debug)]
pub enum KnownRoute {
    Located { existing: CatalogueLocator, places: SamePlaces },
    Discovered { matches: Vec<CatalogueLocator>, places: Vec<SamePlaces> },
}

/// The locator that a root has once it is registered; none where it is refused.
pub open spec fn registered(expected: LocatorView, known: KnownRoute) -> Option<LocatorView> {
    match known {
        KnownRoute::Located { existing, places } => if same_route(existing@, expected, places) {
            Some(existing@)
        } else {
            None
        },
        KnownRoute::Discovered { matches, places } => if matches@.len() == 0 {
            Some(expected)
        } else if matches@.len() == 1 && same_route(matches@[0]@, expected, places@[0]) {
            Some(matches@[0]@)
        } else {
            None
        },
    }
}

/// Prepares the registration of a root at its default catalogue. A root with another
/// route is refused, and so is one that several catalogues hold.
pub fn prepare_default_catalogue_registration(
    expected: CatalogueLocator,
    known: &KnownRoute,
) -> (r: Result<Registration, AtlasError>)
    requires
        known matches KnownRoute::Discovered { matches, places } ==> matches@.len()
            == places@.len(),
    ensures
        r is Ok <==> registered(expected@, *known) is Some,
        r matches Ok(Registration::Write(locator)) ==> registered(expected@, *known) == Some(
            locator@,
        ),
        match *known {
            KnownRoute::Located { existing, places } => if same_route(
                existing@,
                expected@,
                places,
            ) {
                r matches Ok(Registration::Keep)
            } else {
                error::failed(
                    r,
                    "workspace root "@ + expected.canonical_root@
                        + " is already routed to workspace "@ + existing.workspace_id@,
                )
            },
            KnownRoute::Discovered { matches, places } => if matches@.len() == 0 {
                r matches Ok(Registration::Write(locator)) && locator@ == expected@
            } else if matches@.len() > 1 {
                error::failed(
                    r,
                    "multiple legacy catalogues match workspace root "@ + expected.canonical_root@
                        + "; pass --catalogue explicitly"@,
                )
            } else if same_route(matches@[0]@, expected@, places@[0]) {
                r matches Ok(Registration::Write(locator)) && locator@ == matches@[0]@
            } else {
                error::failed(
                    r,
                    "workspace root "@ + expected.canonical_root@
                        + " is already registered as workspace "@ + matches@[0].workspace_id@
                        + "; pass its original display name or use --catalogue explicitly"@,
                )
            },
        },
{
    match known {
        KnownRoute::Located { existing, places } => {
            if existing.has_same_route(&expected, *places) {
                return Ok(Registration::Keep);
            }
            let mut message = join3(
                "workspace root ",
                expected.canonical_root.as_str(),
                " is already routed to workspace ",
            );
            message.append(existing.workspace_id.as_str());
            Err(AtlasError::Other(message))
        },
        KnownRoute::Discovered { matches, places } => {
            if matches.len() == 0 {
                return Ok(Registration::Write(expected));
            }
            if matches.len() > 1 {
                return Err(
                    AtlasError::Other(
                        join3(
                            "multiple legacy catalogues match workspace root ",
                            expected.canonical_root.as_str(),
                            "; pass --catalogue explicitly",
                        ),
                    ),
                );
            }
            if matches[0].has_same_route(&expected, places[0]) {
                return Ok(Registration::Write(matches[0].duplicate()));
            }
            let mut message = join3(
                "workspace root ",
                expected.canonical_root.as_str(),
                " is already registered as workspace ",
            );
            message.append(matches[0].workspace_id.as_str());
            message.append("; pass its original display name or use --catalogue explicitly");
            Err(AtlasError::Other(message))
        },
    }
}

/// Whatever route is registered for a root, it is that of the expected workspace, and
/// a root that has a locator keeps it: registration never leads a root elsewhere.
pub proof fn law_a_root_keeps_its_route(expected: LocatorView, known: KnownRoute)
    ensures
        registered(expected, known) matches Some(route) ==> route.workspace_id
            == expected.workspace_id && route.schema_version == expected.schema_version,
        known matches KnownRoute::Located { existing, .. } ==> (registered(expected, known)
            matches Some(route) ==> route == existing@),
        known matches KnownRoute::Discovered { matches, .. } ==> matches@.len() > 1
            ==> registered(expected, known) is None,
{
}

// ---------------------------------------------------------------------------
// Resolution
// ---------------------------------------------------------------------------

/// Checks that a locator leads to the place that its workspace asks for.
pub fn check_locator_target(locator: &CatalogueLocator, expected_path: &str, same_place: bool)
    -> (r: Result<(), AtlasError>)
    ensures
        if same_place {
            r is Ok
        } else {
            error::failed(
                r,
                "catalogue locator target "@ + locator.catalogue_path@
                    + " escapes or mismatches the Atlas catalogue directory; expected "@
                    + expected_path@,
            )
        },
{
    if !same_place {
        let mut message = join3(
            "catalogue locator target ",
            locator.catalogue_path.as_str(),
            " escapes or mismatches the Atlas catalogue directory; expected ",
        );
        message.append(expected_path);
        return Err(AtlasError::Other(message));
    }
    Ok(())
}

/// Checks a catalogue that was named.
pub fn check_catalogue_override(path: &str, is_file: bool) -> (r: Result<(), AtlasError>)
    ensures
        if is_file {
            r is Ok
        } else {
            error::failed(
                r,
                "catalogue override "@ + path@ + " does not exist or is not a file"@,
            )
        },
{
    if !is_file {
        return Err(
            AtlasError::Other(
                join3("catalogue override ", path, " does not exist or is not a file"),
            ),
        );
    }
    Ok(())
}

/// Checks a catalogue that was reached by a locator: the locator is still there, the
/// catalogue holds the workspace of the root under its own identity, and it is the
/// one that the locator names. `derived_id` is the identity that the root and the
/// name of the workspace derive.
pub fn check_resolved_workspace(
    canonical_root: &str,
    locator: &Option<CatalogueLocator>,
    workspace: &Option<WorkspaceRecord>,
    derived_id: &str,
) -> (r: Result<(), AtlasError>)
    ensures
        match (*locator, *workspace) {
            (None, _) => error::failed(
                r,
                "catalogue locator for "@ + canonical_root@ + " disappeared during resolution"@,
            ),
            (Some(_), None) => error::failed(
                r,
                "catalogue locator for "@ + canonical_root@
                    + " points to a catalogue without that workspace"@,
            ),
            (Some(route), Some(found)) => if found.workspace_id@ != derived_id@ {
                error::failed(
                    r,
                    "catalogue workspace identity mismatch: stored "@ + found.workspace_id@
                        + ", derived "@ + derived_id@,
                )
            } else if found.workspace_id@ != route.workspace_id@ {
                error::failed(
                    r,
                    "catalogue locator workspace mismatch: expected "@ + route.workspace_id@
                        + ", found "@ + found.workspace_id@,
                )
            } else {
                r is Ok
            },
        },
{
    let route = match locator {
        Some(route) => route,
        None => return Err(
            AtlasError::Other(
                join3("catalogue locator for ", canonical_root, " disappeared during resolution"),
            ),
        ),
    };
    let found = match workspace {
        Some(found) => found,
        None => return Err(
            AtlasError::Other(
                join3(
                    "catalogue locator for ",
                    canonical_root,
                    " points to a catalogue without that workspace",
                ),
            ),
        ),
    };
    match validate_workspace_identity(found.workspace_id.as_str(), derived_id) {
        Ok(()) => {},
        Err(problem) => return Err(problem),
    }
    if !text_eq(found.workspace_id.as_str(), route.workspace_id.as_str()) {
        let mut message = join3(
            "catalogue locator workspace mismatch: expected ",
            route.workspace_id.as_str(),
            ", found ",
        );
        message.append(found.workspace_id.as_str());
        return Err(AtlasError::Other(message));
    }
    Ok(())
}

} // verus!
