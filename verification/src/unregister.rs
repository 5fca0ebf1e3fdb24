//! The removal manifest of a registered workspace and the boundary in front of it.
//!
//! The manifest lists every file that belongs to the Atlas and to nobody else. It
//! can be looked at page by page. Applying it is refused in every case.
use vstd::prelude::*;

use crate::application_cursor;
use crate::application_cursor::{
    encode_application_cursor, ApplicationCursorBinding, ApplicationCursorError,
    ApplicationCursorFilter, ApplicationCursorOperation, ApplicationSnapshotHasher, CursorContent,
    CursorScope,
};
use crate::application_error;
use crate::application_error::{
    refuse, ApplicationBoundaryError, CatalogueContextApplicationError,
};
use crate::context_route::MAX_APPLICATION_PAGE_LIMIT;
use crate::digest;
use crate::digest::hash_of_text;
use crate::error::AtlasError;
use crate::json;
use crate::json::append_quoted;
use crate::sorted;
use crate::sorted::{rank_list, Ranked};
use crate::text;
use crate::text::{append_decimal, join2, opt_text_eq, text_eq};

verus! {

/// The literal that irreversible removal must be confirmed with.
pub const IRREVERSIBLE_CONFIRMATION: &'static str = "--irreversible";

pub const UNREGISTER_DISCLOSURE: &'static str =
    "Successful unregister may delete the complete Atlas catalogue, including indexed Truth Plane evidence and all generation history. Workspace source and caller-owned backups are excluded; Atlas creates no backup or export.";

/// The most entries of a page.
pub const MAX_UNREGISTER_PAGE: usize = 200;

/// What is to be removed: the workspace's root, its catalogue, its locator and the
/// root of the application's temporary files.
#[derive(Debug, Clone, PartialEq, Eq)]
pub struct UnregisterTarget {
    pub workspace_root: String,
    pub catalogue_path: String,
    pub locator_path: String,
    pub application_temp_root: String,
}

/// A path that was resolved: its canonical form and whether it is a directory.
#[derive(Debug)]
pub struct ResolvedRoot {
    pub canonical: String,
    pub is_dir: bool,
}

impl UnregisterTarget {
    /// A target. The root must resolve to a directory, and the locator's place must
    /// be known.
    pub fn new(
        requested_root: &str,
        resolved: Result<ResolvedRoot, String>,
        catalogue_path: String,
        locator_path: Result<String, AtlasError>,
        application_temp_root: String,
    ) -> (r: Result<Self, AtlasError>)
        ensures
            match resolved {
                Err(problem) => r matches Err(AtlasError::Other(m)) && m@
                    == "unregister workspace root "@ + requested_root@ + " cannot be resolved: "@
                    + problem@,
                Ok(root) => if !root.is_dir {
                    r matches Err(AtlasError::Other(m)) && m@ == "unregister workspace root "@
                        + root.canonical@ + " is not a directory"@
                } else {
                    match locator_path {
                        Err(problem) => r == Err::<Self, AtlasError>(problem),
                        Ok(locator) => r == Ok::<Self, AtlasError>(
                            UnregisterTarget {
                                workspace_root: root.canonical,
                                catalogue_path,
                                locator_path: locator,
                                application_temp_root,
                            },
                        ),
                    }
                },
            },
    {
        let root = match resolved {
            Ok(root) => root,
            Err(problem) => {
                let mut message = join2("unregister workspace root ", requested_root);
                message.append(" cannot be resolved: ");
                message.append(problem.as_str());
                return Err(AtlasError::Other(message));
            },
        };
        if !root.is_dir {
            let mut message = join2("unregister workspace root ", root.canonical.as_str());
            message.append(" is not a directory");
            return Err(AtlasError::Other(message));
        }
        match locator_path {
            Ok(locator) => Ok(
                UnregisterTarget {
                    workspace_root: root.canonical,
                    catalogue_path,
                    locator_path: locator,
                    application_temp_root,
                },
            ),
            Err(problem) => Err(problem),
        }
    }
}

/// What a manifest entry is.
#[derive(Debug, Clone, Copy, PartialEq, Eq, Structural)]
pub enum UnregisterPathKind {
    Catalogue,
    CatalogueWal,
    CatalogueShm,
    RegisteredConfig,
    RootLocator,
    ProviderTemp,
}

impl UnregisterPathKind {
    /// The kind's place in the manifest.
    pub open spec fn place(self) -> int {
        match self {
            UnregisterPathKind::Catalogue => 0,
            UnregisterPathKind::CatalogueWal => 1,
            UnregisterPathKind::CatalogueShm => 2,
            UnregisterPathKind::RegisteredConfig => 3,
            UnregisterPathKind::RootLocator => 4,
            UnregisterPathKind::ProviderTemp => 5,
        }
    }

    /// The kind's wire name.
    pub open spec fn name(self) -> Seq<char> {
        match self {
            UnregisterPathKind::Catalogue => "catalogue"@,
            UnregisterPathKind::CatalogueWal => "catalogue_wal"@,
            UnregisterPathKind::CatalogueShm => "catalogue_shm"@,
            UnregisterPathKind::RegisteredConfig => "registered_config"@,
            UnregisterPathKind::RootLocator => "root_locator"@,
            UnregisterPathKind::ProviderTemp => "provider_temp"@,
        }
    }

    pub fn index(&self) -> (r: u8)
        ensures
            r == self.place(),
    {
        match self {
            UnregisterPathKind::Catalogue => 0,
            UnregisterPathKind::CatalogueWal => 1,
            UnregisterPathKind::CatalogueShm => 2,
            UnregisterPathKind::RegisteredConfig => 3,
            UnregisterPathKind::RootLocator => 4,
            UnregisterPathKind::ProviderTemp => 5,
        }
    }

    pub fn as_str(&self) -> (r: &'static str)
        ensures
            r@ == self.name(),
    {
        match self {
            UnregisterPathKind::Catalogue => "catalogue",
            UnregisterPathKind::CatalogueWal => "catalogue_wal",
            UnregisterPathKind::CatalogueShm => "catalogue_shm",
            UnregisterPathKind::RegisteredConfig => "registered_config",
            UnregisterPathKind::RootLocator => "root_locator",
            UnregisterPathKind::ProviderTemp => "provider_temp",
        }
    }
}

/// The key by which paths are ordered: component by component, so that the
/// separator sorts before every other character.
pub open spec fn path_key(path: Seq<char>) -> Seq<char> {
    Seq::new(
        path.len(),
        |i: int|
            if path[i] == '/' {
                '\u{0}'
            } else {
                path[i]
            },
    )
}

fn path_key_of(path: &str) -> (r: String)
    ensures
        r@ == path_key(path@),
{
    let chars = text::chars_of(path);
    let mut out = String::new();
    for i in 0..chars.len()
        invariant
            chars@ == path@,
            out@ == path_key(path@).take(i as int),
    {
        if chars[i] == '/' {
            out.push('\u{0}');
        } else {
            out.push(chars[i]);
        }
        assert(path_key(path@).take(i + 1) =~= path_key(path@).take(i as int).push(
            path_key(path@)[i as int],
        ));
    }
    assert(path_key(path@).take(path@.len() as int) =~= path_key(path@));
    out
}

/// A path is a root or lies below it.
pub open spec fn lies_within(path: Seq<char>, root: Seq<char>) -> bool {
    path == root || root == "/"@ || (path.len() > root.len() && path.take(root.len() as int) == root
        && path[root.len() as int] == '/')
}

/// Whether a canonical absolute path is a root or lies below it.
pub fn is_within(path: &str, root: &str) -> (r: bool)
    ensures
        r == lies_within(path@, root@),
{
    if text_eq(path, root) || text_eq(root, "/") {
        return true;
    }
    let whole = text::chars_of(path);
    let head = text::chars_of(root);
    if whole.len() <= head.len() || whole[head.len()] != '/' {
        return false;
    }
    for i in 0..head.len()
        invariant
            whole@ == path@,
            head@ == root@,
            head@.len() < whole@.len(),
            path@ != root@,
            root@ != "/"@,
            forall|j: int| 0 <= j < i ==> path@[j] == root@[j],
    {
        if whole[i] != head[i] {
            assert(path@.take(root@.len() as int)[i as int] != root@[i as int]);
            return false;
        }
    }
    assert(path@.take(root@.len() as int) =~= root@);
    true
}

/// A file of the manifest.
#[derive(Debug, Clone, PartialEq, Eq)]
pub struct UnregisterManifestEntry {
    pub kind: UnregisterPathKind,
    pub path: String,
    pub byte_len: u64,
    pub content_digest: String,
}

/// The values of a manifest entry.
pub ghost struct EntryView {
    pub kind: UnregisterPathKind,
    pub path: Seq<char>,
    pub byte_len: int,
    pub content_digest: Seq<char>,
}

impl View for UnregisterManifestEntry {
    type V = EntryView;

    open spec fn view(&self) -> EntryView {
        EntryView {
            kind: self.kind,
            path: self.path@,
            byte_len: self.byte_len as int,
            content_digest: self.content_digest@,
        }
    }
}

/// The order of the manifest: by kind, then by path.
pub open spec fn manifest_ahead(
    a_kind: UnregisterPathKind,
    a_path: Seq<char>,
    b_kind: UnregisterPathKind,
    b_path: Seq<char>,
) -> bool {
    if a_kind.place() != b_kind.place() {
        a_kind.place() < b_kind.place()
    } else {
        text::text_lt(path_key(a_path), path_key(b_path))
    }
}

proof fn lemma_manifest_asymmetric(
    a_kind: UnregisterPathKind,
    a: Seq<char>,
    b_kind: UnregisterPathKind,
    b: Seq<char>,
)
    requires
        manifest_ahead(a_kind, a, b_kind, b),
    ensures
        !manifest_ahead(b_kind, b, a_kind, a),
{
    if manifest_ahead(b_kind, b, a_kind, a) {
        text::lemma_text_lt_transitive(path_key(a), path_key(b), path_key(a));
        text::lemma_text_lt_irreflexive(path_key(a));
    }
}

proof fn lemma_manifest_connected(
    a_kind: UnregisterPathKind,
    a: Seq<char>,
    b_kind: UnregisterPathKind,
    b: Seq<char>,
    c_kind: UnregisterPathKind,
    c: Seq<char>,
)
    requires
        !manifest_ahead(b_kind, b, a_kind, a),
        !manifest_ahead(c_kind, c, b_kind, b),
    ensures
        !manifest_ahead(c_kind, c, a_kind, a),
{
    if manifest_ahead(c_kind, c, a_kind, a) && c_kind.place() == a_kind.place() {
        text::lemma_text_lt_total(path_key(a), path_key(b));
        if text::text_lt(path_key(a), path_key(b)) {
            text::lemma_text_lt_transitive(path_key(c), path_key(a), path_key(b));
        }
    }
}

impl Ranked for UnregisterManifestEntry {
    open spec fn ahead(a: EntryView, b: EntryView) -> bool {
        manifest_ahead(a.kind, a.path, b.kind, b.path)
    }

    proof fn ahead_asymmetric(a: EntryView, b: EntryView) {
        lemma_manifest_asymmetric(a.kind, a.path, b.kind, b.path);
    }

    proof fn ahead_connected(a: EntryView, b: EntryView, c: EntryView) {
        lemma_manifest_connected(a.kind, a.path, b.kind, b.path, c.kind, c.path);
    }

    fn ranks_ahead(&self, other: &Self) -> (r: bool) {
        if self.kind.index() != other.kind.index() {
            self.kind.index() < other.kind.index()
        } else {
            text::text_less(
                path_key_of(self.path.as_str()).as_str(),
                path_key_of(other.path.as_str()).as_str(),
            )
        }
    }
}

/// The views of a list of entries.
pub open spec fn entries_view(items: Seq<UnregisterManifestEntry>) -> Seq<EntryView> {
    sorted::rank_views::<UnregisterManifestEntry>(items)
}

fn copy_entry(e: &UnregisterManifestEntry) -> (r: UnregisterManifestEntry)
    ensures
        r@ == e@,
{
    UnregisterManifestEntry {
        kind: e.kind,
        path: e.path.clone(),
        byte_len: e.byte_len,
        content_digest: e.content_digest.clone(),
    }
}

fn copy_range(items: &Vec<UnregisterManifestEntry>, from: usize, to: usize) -> (r: Vec<
    UnregisterManifestEntry,
>)
    requires
        from <= to <= items@.len(),
    ensures
        entries_view(r@) == entries_view(items@).subrange(from as int, to as int),
{
    let mut out: Vec<UnregisterManifestEntry> = Vec::new();
    let mut i: usize = from;
    while i < to
        invariant
            from <= i <= to <= items@.len(),
            out@.len() == i - from,
            forall|j: int| 0 <= j < out@.len() ==> (#[trigger] out@[j])@ == items@[from + j]@,
        decreases to - i,
    {
        out.push(copy_entry(&items[i]));
        i = i + 1;
    }
    assert(entries_view(out@) =~= entries_view(items@).subrange(from as int, to as int));
    out
}

// ---------------------------------------------------------------------------
// Validation and manifest
// ---------------------------------------------------------------------------

/// What the catalogue records of a workspace.
#[derive(Debug)]
pub struct WorkspaceState {
    pub canonical_root: String,
    pub configuration_hash: String,
    pub active_generation_id: Option<String>,
}

impl WorkspaceState {
    /// Both record the same root, configuration and generation.
    pub open spec fn same_as(self, other: WorkspaceState) -> bool {
        self.canonical_root@ == other.canonical_root@ && self.configuration_hash@
            == other.configuration_hash@ && text::opt_text(self.active_generation_id)
            == text::opt_text(other.active_generation_id)
    }

    fn is_same_as(&self, other: &WorkspaceState) -> (r: bool)
        ensures
            r == self.same_as(*other),
    {
        text_eq(self.canonical_root.as_str(), other.canonical_root.as_str()) && text_eq(
            self.configuration_hash.as_str(),
            other.configuration_hash.as_str(),
        ) && opt_text_eq(&self.active_generation_id, &other.active_generation_id)
    }
}

/// The workspace's root as it is found.
#[derive(Debug)]
pub struct RootFacts {
    pub is_dir: bool,
    pub same_as_registered: bool,
}

/// The locator as it is found.
#[derive(Debug)]
pub struct LocatorFacts {
    pub schema_version: u32,
    pub workspace_id: String,
    pub same_root: bool,
    pub same_catalogue: bool,
}

/// What has been found out so far. Each fact is looked up only when the step before
/// it has held.
#[derive(Debug)]
pub struct UnregisterFacts {
    pub root: Option<RootFacts>,
    pub catalogue_resolved: bool,
    pub opened_same_catalogue: Option<bool>,
    pub current: Option<Option<WorkspaceState>>,
    pub locator: Option<LocatorFacts>,
}

/// What to find out next, or the refusal.
#[derive(Debug)]
pub enum UnregisterStep {
    ResolveRoot,
    ResolveCatalogue,
    ResolveOpened,
    LoadWorkspace,
    ReadLocator,
    Fingerprint,
    Refused(AtlasError),
}

/// What to find out next, or why the removal is refused.
pub ghost enum StepSpec {
    ResolveRoot,
    ResolveCatalogue,
    ResolveOpened,
    LoadWorkspace,
    ReadLocator,
    Fingerprint,
    Refused { message: Seq<char> },
    NotFound { workspace_id: Seq<char> },
}

impl UnregisterFacts {
    /// The first thing that is unknown or wrong, in a fixed order.
    pub open spec fn next(self, workspace_id: Seq<char>, recorded: WorkspaceState) -> StepSpec {
        if self.root is None {
            StepSpec::ResolveRoot
        } else if !self.root->0.is_dir || !self.root->0.same_as_registered {
            StepSpec::Refused { message: "unregister workspace identity changed"@ }
        } else if !self.catalogue_resolved {
            StepSpec::ResolveCatalogue
        } else if self.opened_same_catalogue is None {
            StepSpec::ResolveOpened
        } else if !self.opened_same_catalogue->0 {
            StepSpec::Refused { message: "unregister catalogue identity changed"@ }
        } else if self.current is None {
            StepSpec::LoadWorkspace
        } else if self.current->0 is None {
            StepSpec::NotFound { workspace_id }
        } else if !self.current->0->0.same_as(recorded) {
            StepSpec::Refused { message: "unregister catalogue workspace state changed"@ }
        } else if self.locator is None {
            StepSpec::ReadLocator
        } else if self.locator->0.schema_version != 1 || self.locator->0.workspace_id@
            != workspace_id || !self.locator->0.same_root || !self.locator->0.same_catalogue {
            StepSpec::Refused { message: "unregister locator route changed"@ }
        } else {
            StepSpec::Fingerprint
        }
    }
}

/// A step is the one that the facts ask for.
pub open spec fn is_step(step: UnregisterStep, spec: StepSpec) -> bool {
    match spec {
        StepSpec::ResolveRoot => step is ResolveRoot,
        StepSpec::ResolveCatalogue => step is ResolveCatalogue,
        StepSpec::ResolveOpened => step is ResolveOpened,
        StepSpec::LoadWorkspace => step is LoadWorkspace,
        StepSpec::ReadLocator => step is ReadLocator,
        StepSpec::Fingerprint => step is Fingerprint,
        StepSpec::Refused { message } => step matches UnregisterStep::Refused(
            AtlasError::Other(m),
        ) && m@ == message,
        StepSpec::NotFound { workspace_id } => step matches UnregisterStep::Refused(
            AtlasError::WorkspaceNotFound { workspace_id: id },
        ) && id@ == workspace_id,
    }
}

fn refused_step(message: &str) -> (r: UnregisterStep)
    ensures
        r matches UnregisterStep::Refused(AtlasError::Other(m)) && m@ == message@,
{
    UnregisterStep::Refused(AtlasError::Other(message.to_string()))
}

/// What to find out next before the manifest can be made, or the refusal.
pub fn next_unregister_step(
    facts: &UnregisterFacts,
    workspace_id: &str,
    recorded: &WorkspaceState,
) -> (r: UnregisterStep)
    ensures
        is_step(r, facts.next(workspace_id@, *recorded)),
{
    let root = match &facts.root {
        Some(root) => root,
        None => return UnregisterStep::ResolveRoot,
    };
    if !root.is_dir || !root.same_as_registered {
        return refused_step("unregister workspace identity changed");
    }
    if !facts.catalogue_resolved {
        return UnregisterStep::ResolveCatalogue;
    }
    match facts.opened_same_catalogue {
        None => return UnregisterStep::ResolveOpened,
        Some(same) => if !same {
            return refused_step("unregister catalogue identity changed");
        },
    }
    let current = match &facts.current {
        Some(current) => current,
        None => return UnregisterStep::LoadWorkspace,
    };
    match current {
        None => return UnregisterStep::Refused(
            AtlasError::WorkspaceNotFound { workspace_id: workspace_id.to_string() },
        ),
        Some(state) => if !state.is_same_as(recorded) {
            return refused_step("unregister catalogue workspace state changed");
        },
    }
    let locator = match &facts.locator {
        Some(locator) => locator,
        None => return UnregisterStep::ReadLocator,
    };
    if locator.schema_version != 1 || !text_eq(locator.workspace_id.as_str(), workspace_id)
        || !locator.same_root || !locator.same_catalogue {
        return refused_step("unregister locator route changed");
    }
    UnregisterStep::Fingerprint
}

/// A file that may belong to the manifest.
#[derive(Debug)]
pub struct UnregisterCandidate {
    pub kind: UnregisterPathKind,
    pub path: String,
    pub allow_directory: bool,
}

/// The values of a candidate.
pub ghost struct UnregisterCandidateView {
    pub kind: UnregisterPathKind,
    pub path: Seq<char>,
    pub allow_directory: bool,
}

impl View for UnregisterCandidate {
    type V = UnregisterCandidateView;

    open spec fn view(&self) -> UnregisterCandidateView {
        UnregisterCandidateView {
            kind: self.kind,
            path: self.path@,
            allow_directory: self.allow_directory,
        }
    }
}

impl Ranked for UnregisterCandidate {
    open spec fn ahead(a: UnregisterCandidateView, b: UnregisterCandidateView) -> bool {
        manifest_ahead(a.kind, a.path, b.kind, b.path)
    }

    proof fn ahead_asymmetric(a: UnregisterCandidateView, b: UnregisterCandidateView) {
        lemma_manifest_asymmetric(a.kind, a.path, b.kind, b.path);
    }

    proof fn ahead_connected(
        a: UnregisterCandidateView,
        b: UnregisterCandidateView,
        c: UnregisterCandidateView,
    ) {
        lemma_manifest_connected(a.kind, a.path, b.kind, b.path, c.kind, c.path);
    }

    fn ranks_ahead(&self, other: &Self) -> (r: bool) {
        if self.kind.index() != other.kind.index() {
            self.kind.index() < other.kind.index()
        } else {
            text::text_less(
                path_key_of(self.path.as_str()).as_str(),
                path_key_of(other.path.as_str()).as_str(),
            )
        }
    }
}

/// A file next to the catalogue.
pub fn sqlite_sidecar(path: &str, suffix: &str) -> (r: String)
    ensures
        r@ == path@ + suffix@,
{
    join2(path, suffix)
}

/// The candidates before they are put in order: the catalogue and its two sidecars,
/// the registered configuration, the locator, and the temporary files of providers,
/// which alone may be directories.
pub open spec fn listed_candidates(
    catalogue: Seq<char>,
    target_catalogue: Seq<char>,
    registered_config: Seq<char>,
    locator: Seq<char>,
    provider_temps: Seq<Seq<char>>,
) -> Seq<UnregisterCandidateView> {
    seq![
        UnregisterCandidateView {
            kind: UnregisterPathKind::Catalogue,
            path: catalogue,
            allow_directory: false,
        },
        UnregisterCandidateView {
            kind: UnregisterPathKind::CatalogueWal,
            path: target_catalogue + "-wal"@,
            allow_directory: false,
        },
        UnregisterCandidateView {
            kind: UnregisterPathKind::CatalogueShm,
            path: target_catalogue + "-shm"@,
            allow_directory: false,
        },
        UnregisterCandidateView {
            kind: UnregisterPathKind::RegisteredConfig,
            path: registered_config,
            allow_directory: false,
        },
        UnregisterCandidateView {
            kind: UnregisterPathKind::RootLocator,
            path: locator,
            allow_directory: false,
        },
    ] + Seq::new(
        provider_temps.len(),
        |i: int|
            UnregisterCandidateView {
                kind: UnregisterPathKind::ProviderTemp,
                path: provider_temps[i],
                allow_directory: true,
            },
    )
}

/// The files that may belong to the manifest, in its order.
pub fn unregister_candidates(
    catalogue: &str,
    target: &UnregisterTarget,
    registered_config: &str,
    locator: &str,
    provider_temps: &Vec<String>,
) -> (r: Vec<UnregisterCandidate>)
    ensures
        sorted::rank_views::<UnregisterCandidate>(r@) == sorted::ranked_list::<
            UnregisterCandidate,
        >(
            listed_candidates(
                catalogue@,
                target.catalogue_path@,
                registered_config@,
                locator@,
                text::texts(provider_temps@),
            ),
        ),
{
    let mut out: Vec<UnregisterCandidate> = Vec::new();
    out.push(
        UnregisterCandidate {
            kind: UnregisterPathKind::Catalogue,
            path: catalogue.to_string(),
            allow_directory: false,
        },
    );
    out.push(
        UnregisterCandidate {
            kind: UnregisterPathKind::CatalogueWal,
            path: sqlite_sidecar(target.catalogue_path.as_str(), "-wal"),
            allow_directory: false,
        },
    );
    out.push(
        UnregisterCandidate {
            kind: UnregisterPathKind::CatalogueShm,
            path: sqlite_sidecar(target.catalogue_path.as_str(), "-shm"),
            allow_directory: false,
        },
    );
    out.push(
        UnregisterCandidate {
            kind: UnregisterPathKind::RegisteredConfig,
            path: registered_config.to_string(),
            allow_directory: false,
        },
    );
    out.push(
        UnregisterCandidate {
            kind: UnregisterPathKind::RootLocator,
            path: locator.to_string(),
            allow_directory: false,
        },
    );
    let ghost listed = listed_candidates(
        catalogue@,
        target.catalogue_path@,
        registered_config@,
        locator@,
        text::texts(provider_temps@),
    );
    assert(sorted::rank_views::<UnregisterCandidate>(out@) =~= listed.take(5));
    for i in 0..provider_temps.len()
        invariant
            listed == listed_candidates(
                catalogue@,
                target.catalogue_path@,
                registered_config@,
                locator@,
                text::texts(provider_temps@),
            ),
            sorted::rank_views::<UnregisterCandidate>(out@) == listed.take(5 + i),
    {
        let ghost before = sorted::rank_views::<UnregisterCandidate>(out@);
        let candidate = UnregisterCandidate {
            kind: UnregisterPathKind::ProviderTemp,
            path: provider_temps[i].clone(),
            allow_directory: true,
        };
        assert(listed[5 + i] == candidate@);
        out.push(candidate);
        assert(sorted::rank_views::<UnregisterCandidate>(out@) =~= before.push(listed[5 + i]));
        assert(listed.take(5 + i + 1) =~= listed.take(5 + i).push(listed[5 + i]));
    }
    assert(listed.take(5 + provider_temps@.len() as int) =~= listed);
    rank_list(out)
}

/// What was found of a candidate: its canonical path, length and digest.
#[derive(Debug)]
pub struct Fingerprint {
    pub kind: UnregisterPathKind,
    pub canonical: String,
    pub byte_len: u64,
    pub content_digest: String,
}

impl Fingerprint {
    /// The manifest entry of a file.
    pub open spec fn entry(self) -> EntryView {
        EntryView {
            kind: self.kind,
            path: self.canonical@,
            byte_len: self.byte_len as int,
            content_digest: self.content_digest@,
        }
    }
}

/// The entries of a list of fingerprints.
pub open spec fn entries_of(found: Seq<Fingerprint>) -> Seq<EntryView> {
    Seq::new(found.len(), |i: int| found[i].entry())
}

/// The first file, from `from` on, that lies within the workspace.
pub open spec fn first_source(found: Seq<Fingerprint>, root: Seq<char>, from: int) -> int
    decreases found.len() - from,
{
    if from >= found.len() || lies_within(found[from].canonical@, root) {
        from
    } else {
        first_source(found, root, from + 1)
    }
}

/// The manifest of the files that were found, in its order. A file of the workspace
/// itself is never listed: meeting one refuses the whole manifest.
pub fn manifest_entries(root: &str, found: &Vec<Fingerprint>) -> (r: Result<
    Vec<UnregisterManifestEntry>,
    AtlasError,
>)
    ensures
        ({
            let at = first_source(found@, root@, 0);
            if at < found@.len() {
                r matches Err(AtlasError::Other(m)) && m@
                    == "unregister manifest cannot include workspace source "@
                    + found@[at].canonical@
            } else {
                r matches Ok(entries) && entries_view(entries@) == sorted::ranked_list::<
                    UnregisterManifestEntry,
                >(entries_of(found@))
            }
        }),
{
    let mut out: Vec<UnregisterManifestEntry> = Vec::new();
    for i in 0..found.len()
        invariant
            out@.len() == i,
            forall|j: int| 0 <= j < i ==> (#[trigger] out@[j])@ == found@[j].entry(),
            first_source(found@, root@, 0) == first_source(found@, root@, i as int),
    {
        let f = &found[i];
        if is_within(f.canonical.as_str(), root) {
            return Err(
                AtlasError::Other(
                    join2(
                        "unregister manifest cannot include workspace source ",
                        f.canonical.as_str(),
                    ),
                ),
            );
        }
        out.push(
            UnregisterManifestEntry {
                kind: f.kind,
                path: f.canonical.clone(),
                byte_len: f.byte_len,
                content_digest: f.content_digest.clone(),
            },
        );
    }
    assert(entries_view(out@) =~= entries_of(found@));
    Ok(rank_list(out))
}

proof fn lemma_first_source(found: Seq<Fingerprint>, root: Seq<char>, from: int)
    requires
        0 <= from <= found.len(),
    ensures
        from <= first_source(found, root, from) <= found.len(),
        forall|i: int|
            from <= i < first_source(found, root, from) ==> !lies_within(
                (#[trigger] found[i]).canonical@,
                root,
            ),
    decreases found.len() - from,
{
    if from < found.len() && !lies_within(found[from].canonical@, root) {
        lemma_first_source(found, root, from + 1);
    }
}

/// A manifest that was made lists exactly the files that were found, by kind and
/// path, and none of them lies within the workspace.
pub proof fn law_manifest_excludes_the_workspace(root: Seq<char>, found: Seq<Fingerprint>)
    requires
        first_source(found, root, 0) >= found.len(),
    ensures
        ({
            let entries = sorted::ranked_list::<UnregisterManifestEntry>(entries_of(found));
            &&& entries.to_multiset() == entries_of(found).to_multiset()
            &&& sorted::in_rank_order::<UnregisterManifestEntry>(entries)
            &&& forall|i: int|
                0 <= i < entries.len() ==> !lies_within((#[trigger] entries[i]).path, root)
        }),
{
    broadcast use vstd::seq_lib::group_to_multiset_ensures;

    let listed = entries_of(found);
    let entries = sorted::ranked_list::<UnregisterManifestEntry>(listed);
    sorted::law_ranking_sorts::<UnregisterManifestEntry>(listed);
    lemma_first_source(found, root, 0);
    assert forall|i: int| 0 <= i < entries.len() implies !lies_within(
        (#[trigger] entries[i]).path,
        root,
    ) by {
        assert(entries.to_multiset().contains(entries[i]));
        assert(listed.to_multiset().contains(entries[i]));
        let k = choose|k: int| 0 <= k < listed.len() && listed[k] == entries[i];
        assert(listed[k] == found[k].entry());
        assert(!lies_within(found[k].canonical@, root));
    }
}

impl EntryView {
    /// The entry as canonical JSON.
    pub open spec fn json_text(self) -> Seq<char> {
        "{\"byte_len\":"@ + text::decimal(self.byte_len as nat) + ",\"content_digest\":"@
            + json::quoted(self.content_digest) + ",\"kind\":"@ + json::quoted(self.kind.name())
            + ",\"path\":"@ + json::quoted(self.path) + "}"@
    }

    /// What tells entries apart in a cursor: the kind and the digest of the path.
    pub open spec fn key(self) -> OrderingKeyView {
        OrderingKeyView {
            kind: self.kind.place(),
            path_hash: digest::content_hash(digest::text_field(self.path)),
        }
    }
}

fn append_entry_json(out: &mut String, entry: &UnregisterManifestEntry)
    ensures
        final(out)@ == old(out)@ + entry@.json_text(),
{
    let ghost before = out@;
    out.append("{\"byte_len\":");
    append_decimal(out, entry.byte_len);
    out.append(",\"content_digest\":");
    append_quoted(out, entry.content_digest.as_str());
    out.append(",\"kind\":");
    append_quoted(out, entry.kind.as_str());
    out.append(",\"path\":");
    append_quoted(out, entry.path.as_str());
    out.append("}");
    assert(out@ =~= before + entry@.json_text());
}

/// The entries as the items of a JSON array.
pub open spec fn entries_json(items: Seq<EntryView>) -> Seq<char>
    decreases items.len(),
{
    if items.len() == 0 {
        Seq::empty()
    } else if items.len() == 1 {
        items[0].json_text()
    } else {
        entries_json(items.drop_last()) + ","@ + items.last().json_text()
    }
}

/// A path as it enters the manifest's identity: with forward slashes.
pub open spec fn identity_text(path: Seq<char>) -> Seq<char> {
    Seq::new(
        path.len(),
        |i: int|
            if path[i] == '\\' {
                '/'
            } else {
                path[i]
            },
    )
}

/// A path as it enters the manifest's identity.
pub fn canonical_identity_text(path: &str) -> (r: String)
    ensures
        r@ == identity_text(path@),
{
    let chars = text::chars_of(path);
    let mut out = String::new();
    for i in 0..chars.len()
        invariant
            chars@ == path@,
            out@ == identity_text(path@).take(i as int),
    {
        if chars[i] == '\\' {
            out.push('/');
        } else {
            out.push(chars[i]);
        }
        assert(identity_text(path@).take(i + 1) =~= identity_text(path@).take(i as int).push(
            identity_text(path@)[i as int],
        ));
    }
    assert(identity_text(path@).take(path@.len() as int) =~= identity_text(path@));
    out
}

/// The manifest's identity as canonical JSON.
pub open spec fn manifest_json(
    workspace_id: Seq<char>,
    root: Seq<char>,
    catalogue: Seq<char>,
    entries: Seq<EntryView>,
) -> Seq<char> {
    "{\"canonical_root\":"@ + json::quoted(identity_text(root)) + ",\"catalogue_path\":"@
        + json::quoted(identity_text(catalogue)) + ",\"entries\":["@ + entries_json(entries)
        + "],\"schema\":\"unregister-manifest-v1\",\"workspace_id\":"@ + json::quoted(workspace_id)
        + "}"@
}

/// The digest of a manifest.
pub open spec fn manifest_digest_of(
    workspace_id: Seq<char>,
    root: Seq<char>,
    catalogue: Seq<char>,
    entries: Seq<EntryView>,
) -> Seq<char> {
    digest::content_hash(
        digest::text_field(manifest_json(workspace_id, root, catalogue, entries)),
    )
}

/// The digest of a manifest: of the workspace, its root, its catalogue and the
/// entries in order.
pub fn manifest_digest(
    workspace_id: &str,
    root: &str,
    catalogue: &str,
    entries: &Vec<UnregisterManifestEntry>,
) -> (r: String)
    ensures
        r@ == manifest_digest_of(workspace_id@, root@, catalogue@, entries_view(entries@)),
        text::hex64(r@),
{
    let mut list = String::new();
    let ghost all = entries_view(entries@);
    for i in 0..entries.len()
        invariant
            all == entries_view(entries@),
            list@ == entries_json(all.take(i as int)),
    {
        let ghost before = list@;
        if i > 0 {
            list.append(",");
        }
        append_entry_json(&mut list, &entries[i]);
        proof {
            let head = all.take(i + 1);
            assert(head.drop_last() =~= all.take(i as int));
            assert(head.last() == entries@[i as int]@);
            if i == 0 {
                assert(list@ =~= head[0].json_text());
            } else {
                assert(list@ =~= before + ","@ + head.last().json_text());
            }
        }
    }
    assert(all.take(entries@.len() as int) =~= all);
    let mut line = String::new();
    line.append("{\"canonical_root\":");
    append_quoted(&mut line, canonical_identity_text(root).as_str());
    line.append(",\"catalogue_path\":");
    append_quoted(&mut line, canonical_identity_text(catalogue).as_str());
    line.append(",\"entries\":[");
    line.append(list.as_str());
    line.append("],\"schema\":\"unregister-manifest-v1\",\"workspace_id\":");
    append_quoted(&mut line, workspace_id);
    line.append("}");
    assert(line@ =~= manifest_json(workspace_id@, root@, catalogue@, all));
    hash_of_text(line.as_str())
}

// ---------------------------------------------------------------------------
// Pages
// ---------------------------------------------------------------------------

/// A page of the manifest.
#[derive(Debug)]
pub struct UnregisterPage {
    pub workspace_id: String,
    pub catalogue_path: String,
    pub manifest_digest: String,
    pub total_entries: usize,
    pub entries: Vec<UnregisterManifestEntry>,
    pub next_cursor: Option<usize>,
    pub disclosure: &'static str,
}

/// Where a page that starts at a place ends.
pub open spec fn page_end(start: int, limit: int, total: int) -> int {
    if start + limit < total {
        start + limit
    } else {
        total
    }
}

fn end_of_page(start: usize, limit: usize, total: usize) -> (r: usize)
    requires
        start <= total,
    ensures
        r == page_end(start as int, limit as int, total as int),
        start <= r <= total,
{
    if limit < total - start {
        start + limit
    } else {
        total
    }
}

/// A bounded page over the complete manifest.
pub fn unregister_preview(
    workspace_id: &str,
    catalogue_path: &str,
    manifest_digest: &str,
    entries: &Vec<UnregisterManifestEntry>,
    limit: usize,
    cursor: Option<usize>,
) -> (r: Result<UnregisterPage, AtlasError>)
    ensures
        ({
            let start = match cursor {
                Some(at) => at as int,
                None => 0,
            };
            let total = entries@.len() as int;
            let end = page_end(start, limit as int, total);
            if !(1 <= limit <= MAX_UNREGISTER_PAGE) {
                r matches Err(AtlasError::Other(m)) && m@
                    == "unregister preview limit must be in 1..=200"@
            } else if start > total {
                r matches Err(AtlasError::Other(m)) && m@
                    == "unregister preview cursor is invalid"@
            } else {
                r matches Ok(page) && page.workspace_id@ == workspace_id@ && page.catalogue_path@
                    == catalogue_path@ && page.manifest_digest@ == manifest_digest@
                    && page.total_entries == total && entries_view(page.entries@) == entries_view(
                    entries@,
                ).subrange(start, end) && page.next_cursor == (if end < total {
                    Some(end as usize)
                } else {
                    None
                }) && page.disclosure@ == UNREGISTER_DISCLOSURE@
            }
        }),
{
    if limit < 1 || limit > MAX_UNREGISTER_PAGE {
        return Err(
            AtlasError::Other("unregister preview limit must be in 1..=200".to_string()),
        );
    }
    let start: usize = match cursor {
        Some(at) => at,
        None => 0,
    };
    if start > entries.len() {
        return Err(AtlasError::Other("unregister preview cursor is invalid".to_string()));
    }
    let end: usize = end_of_page(start, limit, entries.len());
    Ok(
        UnregisterPage {
            workspace_id: workspace_id.to_string(),
            catalogue_path: catalogue_path.to_string(),
            manifest_digest: manifest_digest.to_string(),
            total_entries: entries.len(),
            entries: copy_range(entries, start, end),
            next_cursor: if end < entries.len() {
                Some(end)
            } else {
                None
            },
            disclosure: UNREGISTER_DISCLOSURE,
        },
    )
}

/// A page of the manifest with an opaque cursor.
#[derive(Debug)]
pub struct ApplicationUnregisterPage {
    pub workspace_id: String,
    pub catalogue_path: String,
    pub manifest_digest: String,
    pub total_entries: usize,
    pub entries: Vec<UnregisterManifestEntry>,
    pub next_cursor: Option<String>,
    pub disclosure: &'static str,
}

/// The state that a cursor captures: the digest of the manifest and of the entries
/// up to the position.
#[derive(Debug)]
pub struct UnregisterCursorState {
    pub manifest_digest: String,
    pub prefix_digest: String,
}

/// The position that a cursor holds.
#[derive(Debug)]
pub struct UnregisterOrderingKey {
    pub kind: u8,
    pub path_hash: String,
}

/// The values of a position.
pub ghost struct OrderingKeyView {
    pub kind: int,
    pub path_hash: Seq<char>,
}

impl View for UnregisterOrderingKey {
    type V = OrderingKeyView;

    open spec fn view(&self) -> OrderingKeyView {
        OrderingKeyView { kind: self.kind as int, path_hash: self.path_hash@ }
    }
}

impl UnregisterOrderingKey {
    fn same(&self, other: &UnregisterOrderingKey) -> (r: bool)
        ensures
            r == (self@ == other@),
    {
        self.kind == other.kind && text_eq(self.path_hash.as_str(), other.path_hash.as_str())
    }
}

/// The position of an entry.
pub fn unregister_entry_key(entry: &UnregisterManifestEntry) -> (r: UnregisterOrderingKey)
    ensures
        r@ == entry@.key(),
{
    UnregisterOrderingKey {
        kind: entry.kind.index(),
        path_hash: hash_of_text(entry.path.as_str()),
    }
}

/// The place of the first entry with a key, from `from` on; the number of entries
/// where none has it.
pub open spec fn place_of_key(items: Seq<EntryView>, key: OrderingKeyView, from: int) -> int
    decreases items.len() - from,
{
    if from >= items.len() || items[from].key() == key {
        from
    } else {
        place_of_key(items, key, from + 1)
    }
}

/// The canonical JSON records of entries.
pub open spec fn entry_records(items: Seq<EntryView>) -> Seq<Seq<u8>> {
    Seq::new(items.len(), |i: int| digest::text_field(items[i].json_text()))
}

/// The digest of the entries up to and including a key; none where no entry has it.
pub open spec fn prefix_digest_of(items: Seq<EntryView>, through: OrderingKeyView) -> Option<
    Seq<char>,
> {
    let at = place_of_key(items, through, 0);
    if at < items.len() {
        Some(
            application_cursor::snapshot_digest(
                digest::text_field("unregister-manifest-prefix"@),
                entry_records(items.take(at + 1)),
            ),
        )
    } else {
        None
    }
}

/// The digest of the entries up to and including a key.
pub fn unregister_prefix_digest(
    entries: &Vec<UnregisterManifestEntry>,
    through: &UnregisterOrderingKey,
) -> (r: Option<String>)
    ensures
        text::opt_text(r) == prefix_digest_of(entries_view(entries@), through@),
{
    let ghost all = entries_view(entries@);
    let mut hasher = ApplicationSnapshotHasher::new("unregister-manifest-prefix");
    assert(entry_records(all.take(0)) =~= Seq::empty());
    for i in 0..entries.len()
        invariant
            all == entries_view(entries@),
            hasher.domain() == digest::text_field("unregister-manifest-prefix"@),
            hasher.records() == entry_records(all.take(i as int)),
            place_of_key(all, through@, 0) == place_of_key(all, through@, i as int),
    {
        let mut line = String::new();
        append_entry_json(&mut line, &entries[i]);
        assert(line@ =~= all[i as int].json_text());
        hasher.record(&digest::bytes_of_text(line.as_str()));
        proof {
            assert(entry_records(all.take(i + 1)) =~= entry_records(all.take(i as int)).push(
                digest::text_field(all[i as int].json_text()),
            ));
        }
        if unregister_entry_key(&entries[i]).same(through) {
            return Some(hasher.finish());
        }
    }
    None
}

/// Where the next page starts, given what a cursor holds: none without a cursor.
/// A cursor that cannot be read is invalid; one whose manifest or prefix has
/// changed is stale.
pub fn resume_unregister(
    entries: &Vec<UnregisterManifestEntry>,
    manifest_digest: &str,
    state: &Option<UnregisterCursorState>,
    ordering: &Option<UnregisterOrderingKey>,
) -> (r: Result<usize, ApplicationCursorError>)
    ensures
        match (*state, *ordering) {
            (Some(s), Some(key)) => {
                let at = place_of_key(entries_view(entries@), key@, 0);
                if s.manifest_digest@ == manifest_digest@ && prefix_digest_of(
                    entries_view(entries@),
                    key@,
                ) == Some(s.prefix_digest@) {
                    r == Ok::<usize, ApplicationCursorError>((at + 1) as usize) && at
                        < entries@.len()
                } else {
                    r matches Err(e) && e is Stale
                }
            },
            _ => r matches Err(e) && e is Invalid,
        },
{
    let held = match state {
        Some(held) => held,
        None => return Err(ApplicationCursorError::Invalid),
    };
    let key = match ordering {
        Some(key) => key,
        None => return Err(ApplicationCursorError::Invalid),
    };
    if !text_eq(held.manifest_digest.as_str(), manifest_digest) {
        return Err(ApplicationCursorError::Stale);
    }
    match unregister_prefix_digest(entries, key) {
        Some(found) => if !text_eq(found.as_str(), held.prefix_digest.as_str()) {
            return Err(ApplicationCursorError::Stale);
        },
        None => return Err(ApplicationCursorError::Stale),
    }
    let ghost all = entries_view(entries@);
    let total: usize = entries.len();
    let mut at: usize = 0;
    while !unregister_entry_key(&entries[at]).same(key)
        invariant
            all == entries_view(entries@),
            total == entries@.len(),
            at < total,
            place_of_key(all, key@, 0) == place_of_key(all, key@, at as int),
            place_of_key(all, key@, 0) < all.len(),
        ensures
            total == entries@.len(),
            at < total,
            place_of_key(all, key@, 0) == at,
        decreases entries@.len() - at,
    {
        proof {
            assert(all[at as int] == entries@[at as int]@);
            lemma_place_holds(all, key@, at + 1);
        }
        at = at + 1;
    }
    Ok(at + 1)
}

/// The limit of a page is within what the application advertises.
pub fn check_page_limit(limit: usize) -> (r: Result<(), CatalogueContextApplicationError>)
    ensures
        if 1 <= limit <= MAX_APPLICATION_PAGE_LIMIT {
            r is Ok
        } else {
            application_error::refused(r, "limit must be within 1..=200"@)
        },
{
    if limit < 1 || limit > MAX_APPLICATION_PAGE_LIMIT {
        return Err(refuse("limit must be within 1..=200"));
    }
    Ok(())
}

/// The captured state as the cursor carries it.
pub open spec fn cursor_state_json(manifest_digest: Seq<char>, prefix: Seq<char>) -> Seq<char> {
    "{\"manifest_digest\":"@ + json::quoted(manifest_digest) + ",\"prefix_digest\":"@
        + json::quoted(prefix) + "}"@
}

impl OrderingKeyView {
    /// The position as the cursor carries it.
    pub open spec fn json_text(self) -> Seq<char> {
        "{\"kind\":"@ + text::decimal(self.kind as nat) + ",\"path_hash\":"@ + json::quoted(
            self.path_hash,
        ) + "}"@
    }
}

/// The token of the cursor behind an entry of the manifest.
pub open spec fn next_token(
    scope: CursorScope<'_>,
    manifest_digest: Seq<char>,
    items: Seq<EntryView>,
    last: int,
) -> Seq<char> {
    application_cursor::token_of(
        digest::text_field(
            json::record_text(
                application_cursor::cursor_labels(),
                seq![
                    cursor_state_json(
                        manifest_digest,
                        prefix_digest_of(items, items[last].key())->0,
                    ),
                    digest::content_hash(digest::text_field(scope.catalogue_identity@)),
                    "unregister-manifest-v1"@,
                    digest::content_hash(digest::text_field("{\"kind\":\"unregister\"}"@)),
                    "unregister_preview"@,
                    items[last].key().json_text(),
                    application_cursor::APPLICATION_CURSOR_VERSION@,
                    digest::content_hash(digest::text_field(scope.workspace_id@)),
                ],
            ),
        ),
    )
}

fn key_json(key: &UnregisterOrderingKey) -> (r: String)
    ensures
        r@ == key@.json_text(),
{
    let mut out = String::new();
    out.append("{\"kind\":");
    append_decimal(&mut out, key.kind as u64);
    out.append(",\"path_hash\":");
    append_quoted(&mut out, key.path_hash.as_str());
    out.append("}");
    assert(out@ =~= key@.json_text());
    out
}

/// The page that starts at a place, with a cursor behind its last entry where more
/// entries follow. The page fails only where that cursor cannot be made.
pub fn application_unregister_preview(
    scope: &CursorScope<'_>,
    catalogue_path: &str,
    manifest_digest: &str,
    entries: &Vec<UnregisterManifestEntry>,
    limit: usize,
    start: usize,
) -> (r: Result<ApplicationUnregisterPage, CatalogueContextApplicationError>)
    requires
        start <= entries@.len(),
    ensures
        ({
            let total = entries@.len() as int;
            let end = page_end(start as int, limit as int, total);
            let all = entries_view(entries@);
            if !(1 <= limit <= MAX_APPLICATION_PAGE_LIMIT) {
                application_error::refused(r, "limit must be within 1..=200"@)
            } else {
                match r {
                    Ok(page) => {
                        &&& page.workspace_id@ == scope.workspace_id@
                        &&& page.catalogue_path@ == catalogue_path@
                        &&& page.manifest_digest@ == manifest_digest@
                        &&& page.total_entries == total
                        &&& entries_view(page.entries@) == all.subrange(start as int, end)
                        &&& page.disclosure@ == UNREGISTER_DISCLOSURE@
                        &&& end < total ==> (page.next_cursor matches Some(token) && token@
                            == next_token(*scope, manifest_digest@, all, end - 1))
                        &&& end >= total ==> page.next_cursor is None
                    },
                    Err(e) => end < total && e == CatalogueContextApplicationError::Cursor(
                        ApplicationCursorError::Invalid,
                    ) && !(digest::text_field(
                        next_token(*scope, manifest_digest@, all, end - 1),
                    ).len() <= crate::context_route::MAX_APPLICATION_CURSOR_BYTES
                        && application_cursor::plain_key(all[end - 1].key().json_text())
                        && digest::text_field(all[end - 1].key().json_text()).len()
                        <= crate::context_route::MAX_APPLICATION_CURSOR_BYTES / 2),
                }
            }
        }),
{
    match check_page_limit(limit) {
        Ok(()) => {},
        Err(problem) => return Err(problem),
    }
    let end: usize = end_of_page(start, limit, entries.len());
    let ghost all = entries_view(entries@);
    let next_cursor: Option<String> = if end < entries.len() {
        let ordering = unregister_entry_key(&entries[end - 1]);
        proof {
            assert(all[end - 1] == entries@[end - 1]@);
            lemma_place_of_key(all, ordering@, end - 1);
        }
        let prefix = match unregister_prefix_digest(entries, &ordering) {
            Some(prefix) => prefix,
            None => {
                assert(false);
                String::new()
            },
        };
        let mut state = String::new();
        state.append("{\"manifest_digest\":");
        append_quoted(&mut state, manifest_digest);
        state.append(",\"prefix_digest\":");
        append_quoted(&mut state, prefix.as_str());
        state.append("}");
        assert(state@ =~= cursor_state_json(manifest_digest@, prefix@));
        let binding = ApplicationCursorBinding {
            workspace_id: scope.workspace_id,
            operation: ApplicationCursorOperation::UnregisterPreview,
            contract_version: "unregister-manifest-v1",
            filter: ApplicationCursorFilter::Unregister {  },
            captured_state: state.as_str(),
        };
        let position = key_json(&ordering);
        proof {
            let content = CursorContent { captured_state: state@, ordering_key: position@ };
            assert(application_cursor::cursor_token(*scope, binding, content) == next_token(
                *scope,
                manifest_digest@,
                all,
                end - 1,
            ));
        }
        match encode_application_cursor(scope, &binding, position.as_str()) {
            Ok(token) => Some(token),
            Err(problem) => {
                return Err(CatalogueContextApplicationError::Cursor(problem));
            },
        }
    } else {
        None
    };
    Ok(
        ApplicationUnregisterPage {
            workspace_id: scope.workspace_id.to_string(),
            catalogue_path: catalogue_path.to_string(),
            manifest_digest: manifest_digest.to_string(),
            total_entries: entries.len(),
            entries: copy_range(entries, start, end),
            next_cursor,
            disclosure: UNREGISTER_DISCLOSURE,
        },
    )
}

proof fn lemma_place_of_key(items: Seq<EntryView>, key: OrderingKeyView, at: int)
    requires
        0 <= at < items.len(),
        items[at].key() == key,
    ensures
        0 <= place_of_key(items, key, 0) <= at,
{
    lemma_place_from(items, key, 0, at);
}

proof fn lemma_place_from(items: Seq<EntryView>, key: OrderingKeyView, from: int, at: int)
    requires
        0 <= from <= at < items.len(),
        items[at].key() == key,
    ensures
        from <= place_of_key(items, key, from) <= at,
    decreases at - from,
{
    if items[from].key() != key {
        lemma_place_from(items, key, from + 1, at);
    }
}

/// Where no two entries share a key, the cursor behind an entry leads to the entry
/// after it: pages neither repeat nor skip an entry.
pub proof fn law_pages_follow_each_other(items: Seq<EntryView>, last: int)
    requires
        0 <= last < items.len(),
        forall|i: int, j: int|
            0 <= i < j < items.len() ==> (#[trigger] items[i]).key() != (#[trigger] items[j]).key(),
    ensures
        place_of_key(items, items[last].key(), 0) == last,
        prefix_digest_of(items, items[last].key()) is Some,
{
    lemma_place_of_key(items, items[last].key(), last);
    let at = place_of_key(items, items[last].key(), 0);
    lemma_place_holds(items, items[last].key(), 0);
    if at < last {
        assert(items[at].key() != items[last].key());
    }
}

proof fn lemma_place_holds(items: Seq<EntryView>, key: OrderingKeyView, from: int)
    requires
        0 <= from <= items.len(),
    ensures
        from <= place_of_key(items, key, from) <= items.len(),
        place_of_key(items, key, from) < items.len() ==> items[place_of_key(items, key, from)].key()
            == key,
    decreases items.len() - from,
{
    if from < items.len() && items[from].key() != key {
        lemma_place_holds(items, key, from + 1);
    }
}

// ---------------------------------------------------------------------------
// The removal boundary
// ---------------------------------------------------------------------------

/// A fault that a rehearsal of the removal injects.
#[derive(Debug, Clone, Copy, PartialEq, Eq, Structural)]
pub enum UnregisterFault {
    NoFault,
    BeforeQuarantine,
    DuringQuarantine,
    DuringRemoval,
}

/// Why a removal is refused.
#[derive(Debug)]
pub enum UnregisterApplyError {
    Atlas(AtlasError),
    LiteralConfirmation,
    ManifestMismatch { expected: String, found: String },
    LockUnavailable(String),
    ActiveWriter,
    AtomicUnavailable(String),
}

/// The outcome of asking for the exclusion lock.
#[derive(Debug)]
pub enum LockOutcome {
    Acquired,
    Unavailable(String),
}

/// What has been found out on the way to a removal.
#[derive(Debug)]
pub struct ApplyFacts {
    pub lock: Option<LockOutcome>,
    pub manifest_digest: Option<String>,
    pub active_writer: Option<bool>,
    pub closed: bool,
}

/// What to do next on the way to a removal. There is no step that removes anything.
#[derive(Debug)]
pub enum ApplyStep {
    AcquireLock,
    ValidateManifest,
    CheckWriter,
    CloseConnection,
    Refused(UnregisterApplyError),
}

/// The reason that a removal which got this far is refused for.
pub open spec fn unavailable_reason(fault: UnregisterFault) -> Seq<char> {
    (if fault == UnregisterFault::DuringRemoval {
        "removal fault boundary"@
    } else {
        "atomic removal protocol"@
    })
        + " cannot preserve all-or-nothing logical registration for the current multi-root storage layout"@
}

/// What to do next on the way to a removal: the confirmation must be the literal,
/// the lock must be had, the manifest must be the expected one and no writer may be
/// active. Even then the removal is refused.
pub fn next_apply_step(
    facts: &ApplyFacts,
    expected_digest: &str,
    confirmation: &str,
    fault: UnregisterFault,
) -> (r: ApplyStep)
    ensures
        if confirmation@ != IRREVERSIBLE_CONFIRMATION@ {
            r == ApplyStep::Refused(UnregisterApplyError::LiteralConfirmation)
        } else {
            match facts.lock {
                None => r == ApplyStep::AcquireLock,
                Some(LockOutcome::Unavailable(reason)) => r matches ApplyStep::Refused(
                    UnregisterApplyError::LockUnavailable(found),
                ) && found@ == reason@,
                Some(LockOutcome::Acquired) => match facts.manifest_digest {
                    None => r == ApplyStep::ValidateManifest,
                    Some(found) => if found@ != expected_digest@ {
                        r matches ApplyStep::Refused(
                            UnregisterApplyError::ManifestMismatch { expected, found: f },
                        ) && expected@ == expected_digest@ && f@ == found@
                    } else {
                        match facts.active_writer {
                            None => r == ApplyStep::CheckWriter,
                            Some(true) => r == ApplyStep::Refused(
                                UnregisterApplyError::ActiveWriter,
                            ),
                            Some(false) => if fault == UnregisterFault::BeforeQuarantine {
                                r matches ApplyStep::Refused(
                                    UnregisterApplyError::Atlas(AtlasError::Other(m)),
                                ) && m@ == "injected unregister fault before quarantine"@
                            } else if fault == UnregisterFault::DuringQuarantine {
                                r matches ApplyStep::Refused(
                                    UnregisterApplyError::Atlas(AtlasError::Other(m)),
                                ) && m@ == "injected unregister fault during quarantine"@
                            } else if !facts.closed {
                                r == ApplyStep::CloseConnection
                            } else {
                                r matches ApplyStep::Refused(
                                    UnregisterApplyError::AtomicUnavailable(m),
                                ) && m@ == unavailable_reason(fault)
                            },
                        }
                    },
                },
            }
        },
{
    if !text_eq(confirmation, IRREVERSIBLE_CONFIRMATION) {
        return ApplyStep::Refused(UnregisterApplyError::LiteralConfirmation);
    }
    match &facts.lock {
        None => return ApplyStep::AcquireLock,
        Some(LockOutcome::Unavailable(reason)) => return ApplyStep::Refused(
            UnregisterApplyError::LockUnavailable(reason.clone()),
        ),
        Some(LockOutcome::Acquired) => {},
    }
    match &facts.manifest_digest {
        None => return ApplyStep::ValidateManifest,
        Some(found) => if !text_eq(found.as_str(), expected_digest) {
            return ApplyStep::Refused(
                UnregisterApplyError::ManifestMismatch {
                    expected: expected_digest.to_string(),
                    found: found.clone(),
                },
            );
        },
    }
    match facts.active_writer {
        None => return ApplyStep::CheckWriter,
        Some(active) => if active {
            return ApplyStep::Refused(UnregisterApplyError::ActiveWriter);
        },
    }
    if fault == UnregisterFault::BeforeQuarantine {
        return ApplyStep::Refused(
            UnregisterApplyError::Atlas(
                AtlasError::Other("injected unregister fault before quarantine".to_string()),
            ),
        );
    }
    if fault == UnregisterFault::DuringQuarantine {
        return ApplyStep::Refused(
            UnregisterApplyError::Atlas(
                AtlasError::Other("injected unregister fault during quarantine".to_string()),
            ),
        );
    }
    if !facts.closed {
        return ApplyStep::CloseConnection;
    }
    let boundary = if fault == UnregisterFault::DuringRemoval {
        "removal fault boundary"
    } else {
        "atomic removal protocol"
    };
    ApplyStep::Refused(
        UnregisterApplyError::AtomicUnavailable(
            join2(
                boundary,
                " cannot preserve all-or-nothing logical registration for the current multi-root storage layout",
            ),
        ),
    )
}

impl UnregisterApplyError {
    /// The refusal as the application reports it.
    pub fn into_application_error(self) -> (r: CatalogueContextApplicationError)
        ensures
            match self {
                UnregisterApplyError::Atlas(error) => r == CatalogueContextApplicationError::Atlas(
                    error,
                ),
                UnregisterApplyError::LiteralConfirmation => r matches
                    CatalogueContextApplicationError::Boundary(
                    ApplicationBoundaryError::LiteralConfirmation { operation, required },
                ) && operation@ == "unregister"@ && required@ == IRREVERSIBLE_CONFIRMATION@,
                UnregisterApplyError::ManifestMismatch { expected, found } => r matches
                    CatalogueContextApplicationError::Boundary(
                    ApplicationBoundaryError::ManifestMismatch {
                        operation,
                        expected: e,
                        found: f,
                    },
                ) && operation@ == "unregister"@ && e == expected && f == found,
                UnregisterApplyError::LockUnavailable(reason) => r
                    == CatalogueContextApplicationError::Boundary(
                    ApplicationBoundaryError::UnregisterUnavailable { reason },
                ),
                UnregisterApplyError::ActiveWriter => r matches
                    CatalogueContextApplicationError::Boundary(
                    ApplicationBoundaryError::UnregisterUnavailable { reason },
                ) && reason@ == "a catalogue writer is active"@,
                UnregisterApplyError::AtomicUnavailable(reason) => r
                    == CatalogueContextApplicationError::Boundary(
                    ApplicationBoundaryError::UnregisterUnavailable { reason },
                ),
            },
    {
        match self {
            UnregisterApplyError::Atlas(error) => CatalogueContextApplicationError::Atlas(error),
            UnregisterApplyError::LiteralConfirmation => CatalogueContextApplicationError::Boundary(
                ApplicationBoundaryError::LiteralConfirmation {
                    operation: "unregister",
                    required: IRREVERSIBLE_CONFIRMATION,
                },
            ),
            UnregisterApplyError::ManifestMismatch { expected, found } => {
                CatalogueContextApplicationError::Boundary(
                    ApplicationBoundaryError::ManifestMismatch {
                        operation: "unregister",
                        expected,
                        found,
                    },
                )
            },
            UnregisterApplyError::LockUnavailable(reason) => {
                CatalogueContextApplicationError::Boundary(
                    ApplicationBoundaryError::UnregisterUnavailable { reason },
                )
            },
            UnregisterApplyError::ActiveWriter => CatalogueContextApplicationError::Boundary(
                ApplicationBoundaryError::UnregisterUnavailable {
                    reason: "a catalogue writer is active".to_string(),
                },
            ),
            UnregisterApplyError::AtomicUnavailable(reason) => {
                CatalogueContextApplicationError::Boundary(
                    ApplicationBoundaryError::UnregisterUnavailable { reason },
                )
            },
        }
    }

    /// The refusal as a catalogue error.
    pub fn into_atlas_error(self) -> (r: AtlasError)
        ensures
            match self {
                UnregisterApplyError::Atlas(error) => r == error,
                UnregisterApplyError::LiteralConfirmation => r matches AtlasError::Other(m) && m@
                    == "unregister requires literal --irreversible confirmation"@,
                UnregisterApplyError::ManifestMismatch { expected, found } => r matches
                    AtlasError::Other(m) && m@ == "unregister manifest mismatch: expected "@
                    + expected@ + ", found "@ + found@,
                UnregisterApplyError::LockUnavailable(reason) => r == AtlasError::Other(reason),
                UnregisterApplyError::ActiveWriter => r matches AtlasError::Other(m) && m@
                    == "unregister unavailable while a catalogue writer is active"@,
                UnregisterApplyError::AtomicUnavailable(reason) => r matches AtlasError::Other(m)
                    && m@ == "unregister_unavailable: "@ + reason@,
            },
    {
        match self {
            UnregisterApplyError::Atlas(error) => error,
            UnregisterApplyError::LiteralConfirmation => AtlasError::Other(
                "unregister requires literal --irreversible confirmation".to_string(),
            ),
            UnregisterApplyError::ManifestMismatch { expected, found } => {
                let mut message = join2(
                    "unregister manifest mismatch: expected ",
                    expected.as_str(),
                );
                message.append(", found ");
                message.append(found.as_str());
                AtlasError::Other(message)
            },
            UnregisterApplyError::LockUnavailable(reason) => AtlasError::Other(reason),
            UnregisterApplyError::ActiveWriter => AtlasError::Other(
                "unregister unavailable while a catalogue writer is active".to_string(),
            ),
            UnregisterApplyError::AtomicUnavailable(reason) => AtlasError::Other(
                join2("unregister_unavailable: ", reason.as_str()),
            ),
        }
    }
}

/// The most files that a provider's temporary directory may hold.
pub const MAX_TEMP_MANIFEST_FILES: usize = 10_000;

/// A file of a provider's temporary directory, by its path below the directory.
#[derive(Debug)]
pub struct TempFile {
    pub relative: String,
    pub byte_len: u64,
    pub content_hash: String,
}

/// The values of a temporary file.
pub ghost struct TempFileView {
    pub relative: Seq<char>,
    pub byte_len: int,
    pub content_hash: Seq<char>,
}

impl View for TempFile {
    type V = TempFileView;

    open spec fn view(&self) -> TempFileView {
        TempFileView {
            relative: self.relative@,
            byte_len: self.byte_len as int,
            content_hash: self.content_hash@,
        }
    }
}

impl TempFileView {
    /// The file as an item of a JSON array.
    pub open spec fn json_text(self) -> Seq<char> {
        "["@ + json::quoted(self.relative) + ","@ + text::decimal(self.byte_len as nat) + ","@
            + json::quoted(self.content_hash) + "]"@
    }
}

impl Ranked for TempFile {
    /// By path, then length, then digest.
    open spec fn ahead(a: TempFileView, b: TempFileView) -> bool {
        if a.relative != b.relative {
            text::text_lt(a.relative, b.relative)
        } else if a.byte_len != b.byte_len {
            a.byte_len < b.byte_len
        } else {
            text::text_lt(a.content_hash, b.content_hash)
        }
    }

    proof fn ahead_asymmetric(a: TempFileView, b: TempFileView) {
        if Self::ahead(b, a) {
            if a.relative != b.relative {
                text::lemma_text_lt_transitive(a.relative, b.relative, a.relative);
                text::lemma_text_lt_irreflexive(a.relative);
            } else {
                text::lemma_text_lt_transitive(a.content_hash, b.content_hash, a.content_hash);
                text::lemma_text_lt_irreflexive(a.content_hash);
            }
        }
    }

    proof fn ahead_connected(a: TempFileView, b: TempFileView, c: TempFileView) {
        text::lemma_text_lt_total(a.relative, b.relative);
        text::lemma_text_lt_total(b.relative, c.relative);
        text::lemma_text_lt_total(a.content_hash, b.content_hash);
        text::lemma_text_lt_total(b.content_hash, c.content_hash);
        if Self::ahead(c, a) {
            if c.relative != a.relative {
                if text::text_lt(a.relative, b.relative) {
                    text::lemma_text_lt_transitive(c.relative, a.relative, b.relative);
                    if b.relative != c.relative {
                        text::lemma_text_lt_transitive(b.relative, c.relative, b.relative);
                    }
                    text::lemma_text_lt_irreflexive(b.relative);
                }
            } else {
                if a.relative != b.relative {
                    text::lemma_text_lt_transitive(a.relative, b.relative, a.relative);
                    text::lemma_text_lt_irreflexive(a.relative);
                }
                if text::text_lt(a.content_hash, b.content_hash) && c.byte_len == a.byte_len {
                    text::lemma_text_lt_transitive(c.content_hash, a.content_hash, b.content_hash);
                }
            }
        }
    }

    fn ranks_ahead(&self, other: &Self) -> (r: bool) {
        if !text_eq(self.relative.as_str(), other.relative.as_str()) {
            text::text_less(self.relative.as_str(), other.relative.as_str())
        } else if self.byte_len != other.byte_len {
            self.byte_len < other.byte_len
        } else {
            text::text_less(self.content_hash.as_str(), other.content_hash.as_str())
        }
    }
}

/// The files as the items of a JSON array.
pub open spec fn temp_files_json(items: Seq<TempFileView>) -> Seq<char>
    decreases items.len(),
{
    if items.len() == 0 {
        Seq::empty()
    } else if items.len() == 1 {
        items[0].json_text()
    } else {
        temp_files_json(items.drop_last()) + ","@ + items.last().json_text()
    }
}

/// The bytes of a list of files.
pub open spec fn total_bytes(items: Seq<TempFileView>) -> int
    decreases items.len(),
{
    if items.len() == 0 {
        0
    } else {
        total_bytes(items.drop_last()) + items.last().byte_len
    }
}

/// The length and the digest of a temporary directory, given its files as they were
/// met. Too many files, or more bytes than can be counted, are refused; the digest
/// does not depend on the order.
pub fn directory_fingerprint(files: Vec<TempFile>) -> (r: Result<(u64, String), AtlasError>)
    ensures
        ({
            let all = sorted::rank_views::<TempFile>(files@);
            let counted = if all.len() > MAX_TEMP_MANIFEST_FILES {
                all.take(MAX_TEMP_MANIFEST_FILES as int)
            } else {
                all
            };
            if total_bytes(counted) > u64::MAX {
                r matches Err(AtlasError::Other(m)) && m@
                    == "unregister provider temporary byte count overflow"@
            } else if all.len() > MAX_TEMP_MANIFEST_FILES {
                r matches Err(AtlasError::Other(m)) && m@
                    == "unregister provider temporary state exceeds 10000 files"@
            } else {
                r matches Ok((bytes, hash)) && bytes == total_bytes(all) && hash@
                    == digest::content_hash(
                    digest::text_field(
                        "["@ + temp_files_json(sorted::ranked_list::<TempFile>(all)) + "]"@,
                    ),
                )
            }
        }),
{
    let ghost all = sorted::rank_views::<TempFile>(files@);
    let count: usize = if files.len() > MAX_TEMP_MANIFEST_FILES {
        MAX_TEMP_MANIFEST_FILES
    } else {
        files.len()
    };
    let mut bytes: u64 = 0;
    let mut i: usize = 0;
    while i < count
        invariant
            all == sorted::rank_views::<TempFile>(files@),
            i <= count <= files@.len(),
            count == (if files@.len() > MAX_TEMP_MANIFEST_FILES {
                MAX_TEMP_MANIFEST_FILES as int
            } else {
                files@.len() as int
            }),
            bytes == total_bytes(all.take(i as int)),
        decreases count - i,
    {
        proof {
            assert(all.take(i + 1).drop_last() =~= all.take(i as int));
            assert(all.take(i + 1).last() == files@[i as int]@);
        }
        match bytes.checked_add(files[i].byte_len) {
            Some(sum) => {
                bytes = sum;
            },
            None => {
                proof {
                    lemma_total_grows(all, i + 1, count as int);
                    assert(all.take(all.len() as int) =~= all);
                }
                return Err(
                    AtlasError::Other(
                        "unregister provider temporary byte count overflow".to_string(),
                    ),
                );
            },
        }
        i = i + 1;
    }
    assert(all.take(all.len() as int) =~= all);
    if files.len() > MAX_TEMP_MANIFEST_FILES {
        return Err(
            AtlasError::Other(
                "unregister provider temporary state exceeds 10000 files".to_string(),
            ),
        );
    }
    let ordered = rank_list(files);
    let ghost ranked = sorted::rank_views::<TempFile>(ordered@);
    let mut list = String::new();
    for j in 0..ordered.len()
        invariant
            ranked == sorted::rank_views::<TempFile>(ordered@),
            list@ == temp_files_json(ranked.take(j as int)),
    {
        let ghost before = list@;
        if j > 0 {
            list.append(",");
        }
        let ghost joined = list@;
        list.append("[");
        append_quoted(&mut list, ordered[j].relative.as_str());
        list.append(",");
        append_decimal(&mut list, ordered[j].byte_len);
        list.append(",");
        append_quoted(&mut list, ordered[j].content_hash.as_str());
        list.append("]");
        proof {
            let head = ranked.take(j + 1);
            assert(head.drop_last() =~= ranked.take(j as int));
            assert(head.last() == ordered@[j as int]@);
            assert(list@ =~= joined + head.last().json_text());
            if j == 0 {
                assert(list@ =~= head[0].json_text());
            } else {
                assert(list@ =~= before + ","@ + head.last().json_text());
            }
        }
    }
    assert(ranked.take(ordered@.len() as int) =~= ranked);
    let mut line = join2("[", list.as_str());
    line.append("]");
    Ok((bytes, hash_of_text(line.as_str())))
}

proof fn lemma_total_grows(items: Seq<TempFileView>, from: int, to: int)
    requires
        0 <= from <= to <= items.len(),
        forall|i: int| 0 <= i < items.len() ==> (#[trigger] items[i]).byte_len >= 0,
    ensures
        total_bytes(items.take(from)) <= total_bytes(items.take(to)),
    decreases to - from,
{
    if from < to {
        lemma_total_grows(items, from, to - 1);
        assert(items.take(to).drop_last() =~= items.take(to - 1));
        assert(items.take(to).last() == items[to - 1]);
    }
}

} // verus!
