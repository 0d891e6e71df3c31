use vstd::prelude::*;
use crate::path::{
    candidate_of, candidate_path, is_contained, join_path, joined, joined_all, lemma_normalize_contained,
    normalize,
};

verus! {

/// How a request path is mapped to a file to serve.
#[derive(Clone, Copy, Debug, PartialEq, Eq, Structural)]
pub enum ServeMode {
    /// Every request gets the entry file.
    Single,
    /// The file under the root that the path names, if it is a regular file;
    /// otherwise the entry file.
    Mixed,
    /// The file under the root that the path names, if it is a regular file;
    /// otherwise nothing (a 404).
    Direct,
}

/// What a metadata lookup of a path reported. Symbolic links are followed.
#[derive(Clone, Copy, Debug, PartialEq, Eq, Structural)]
pub enum FileKind {
    /// A regular file.
    File,
    /// A directory.
    Directory,
    /// Something else that exists (a socket, a device, ...).
    Other,
    /// Nothing could be found there, or it could not be looked at.
    Missing,
}

/// The configuration of a running server, fixed once it is validated.
pub struct ServerConfig {
    pub root: String,
    pub entry: String,
    pub mode: ServeMode,
    pub port: u16,
}

/// The outcome of resolving one request.
pub enum ResolvedTarget {
    /// Serve the file at this path.
    Found(String),
    /// No file: answer with the not-found catcher.
    NotFound,
}

impl View for ResolvedTarget {
    type V = Option<Seq<char>>;

    open spec fn view(&self) -> Option<Seq<char>> {
        match self {
            ResolvedTarget::Found(p) => Some(p@),
            ResolvedTarget::NotFound => None,
        }
    }
}

/// The file that a request resolves to (`None`: not found), where `kind` is
/// what a lookup of the request's candidate path under `root` reported.
pub open spec fn resolution(
    mode: ServeMode,
    root: Seq<char>,
    entry: Seq<char>,
    request: Seq<Seq<char>>,
    kind: FileKind,
) -> Option<Seq<char>> {
    match mode {
        ServeMode::Single => Some(entry),
        ServeMode::Mixed => match candidate_of(root, request) {
            Some(c) => if kind == FileKind::File {
                Some(c)
            } else {
                Some(entry)
            },
            None => Some(entry),
        },
        ServeMode::Direct => match candidate_of(root, request) {
            Some(c) => if kind == FileKind::File {
                Some(c)
            } else {
                None
            },
            None => None,
        },
    }
}

/// Why a server refused to start.
#[derive(Clone, Copy, Debug, PartialEq, Eq, Structural)]
pub enum StartupError {
    /// The root is not an existing directory.
    InvalidRoot,
    /// The entry, joined onto the root, is not an existing regular file.
    InvalidEntry,
}

/// The outcome of validating a configuration, from what lookups of the root
/// and of the entry joined onto it reported: the root is checked first.
pub open spec fn startup_outcome(root_kind: FileKind, entry_kind: FileKind) -> Result<(), StartupError> {
    if root_kind != FileKind::Directory {
        Err(StartupError::InvalidRoot)
    } else if entry_kind != FileKind::File {
        Err(StartupError::InvalidEntry)
    } else {
        Ok(())
    }
}

impl StartupError {
    /// The diagnostic line reported to the operator.
    pub fn message(&self) -> (r: &'static str)
        ensures
            r@ == match self {
                StartupError::InvalidRoot => "Invalid root (root is not a directory)"@,
                StartupError::InvalidEntry => "Invalid entry (entry is not a file)"@,
            },
    {
        match self {
            StartupError::InvalidRoot => "Invalid root (root is not a directory)",
            StartupError::InvalidEntry => "Invalid entry (entry is not a file)",
        }
    }
}

/// Starting a file server.
pub struct ServeImpl;

impl ServeImpl {
    /// The path of the entry file: `entry` joined onto `root` (an absolute
    /// `entry` stands alone). This is the path whose kind `startup` is given.
    pub fn entry_path(root: &str, entry: &str) -> (r: String)
        ensures
            r@ == joined(root@, entry@),
    {
        join_path(root, entry)
    }

    /// Validates a configuration and fixes it for the server's lifetime.
    /// `root_kind` is what a lookup of `root` reported, `entry_kind` what a
    /// lookup of `entry_path(root, entry)` reported.
    pub fn startup(
        root: &str,
        entry: &str,
        port: u16,
        mode: ServeMode,
        root_kind: FileKind,
        entry_kind: FileKind,
    ) -> (r: Result<ServerConfig, StartupError>)
        ensures
            match r {
                Ok(config) => {
                    &&& startup_outcome(root_kind, entry_kind) is Ok
                    &&& config.root@ == root@
                    &&& config.entry@ == joined(root@, entry@)
                    &&& config.mode == mode
                    &&& config.port == port
                },
                Err(e) => startup_outcome(root_kind, entry_kind) == Err::<(), StartupError>(e),
            },
    {
        if root_kind != FileKind::Directory {
            return Err(StartupError::InvalidRoot);
        }
        if entry_kind != FileKind::File {
            return Err(StartupError::InvalidEntry);
        }
        Ok(ServerConfig { root: String::from_str(root), entry: Self::entry_path(root, entry), mode, port })
    }
}

impl ServerConfig {
    /// The path under the root that `request` names, whose kind a caller
    /// looks up before calling `resolve`; `None` when the request path is
    /// rejected (then no lookup is needed).
    pub fn candidate(&self, request: &Vec<String>) -> (r: Option<String>)
        ensures
            match r {
                Some(p) => candidate_of(self.root@, request.deep_view()) == Some(p@),
                None => candidate_of(self.root@, request.deep_view()) is None,
            },
    {
        candidate_path(self.root.as_str(), request)
    }

    /// Whether `resolve` reads the lookup of the candidate path at all.
    pub fn needs_lookup(&self) -> (r: bool)
        ensures
            r == (self.mode != ServeMode::Single),
    {
        match self.mode {
            ServeMode::Single => false,
            _ => true,
        }
    }

    /// Resolves a request path (already split into decoded segments) to the
    /// file to serve. `kind` is what a lookup of `self.candidate(request)`
    /// reported; it is not read when there is no candidate or in `Single`
    /// mode.
    pub fn resolve(&self, request: &Vec<String>, kind: FileKind) -> (r: ResolvedTarget)
        ensures
            r@ == resolution(self.mode, self.root@, self.entry@, request.deep_view(), kind),
    {
        match self.mode {
            ServeMode::Single => ResolvedTarget::Found(self.entry.clone()),
            ServeMode::Mixed => match self.candidate(request) {
                Some(c) => if kind == FileKind::File {
                    ResolvedTarget::Found(c)
                } else {
                    ResolvedTarget::Found(self.entry.clone())
                },
                None => ResolvedTarget::Found(self.entry.clone()),
            },
            ServeMode::Direct => match self.candidate(request) {
                Some(c) => if kind == FileKind::File {
                    ResolvedTarget::Found(c)
                } else {
                    ResolvedTarget::NotFound
                },
                None => ResolvedTarget::NotFound,
            },
        }
    }
}

/// In `Single` mode every request resolves to the entry file, whatever its
/// path (traversal segments included) and whatever lies on disk.
pub proof fn lemma_single_serves_entry(
    root: Seq<char>,
    entry: Seq<char>,
    request: Seq<Seq<char>>,
    kind: FileKind,
)
    ensures
        resolution(ServeMode::Single, root, entry, request, kind) == Some(entry),
{
}

/// In `Mixed` mode a request resolves to the file its path names under the
/// root when that is a regular file, and to the entry file otherwise (an
/// empty path, a directory, a missing name, a rejected path). The file
/// served from the path is the root with plain components joined on: it
/// cannot lie outside the root.
pub proof fn lemma_mixed_falls_back(
    root: Seq<char>,
    entry: Seq<char>,
    request: Seq<Seq<char>>,
    kind: FileKind,
)
    ensures
        resolution(ServeMode::Mixed, root, entry, request, kind) == (match candidate_of(root, request) {
            Some(c) => if kind == FileKind::File {
                Some(c)
            } else {
                Some(entry)
            },
            None => Some(entry),
        }),
        normalize(request) matches Some(segs) ==> is_contained(segs) && candidate_of(root, request)
            == Some(joined_all(root, segs)),
{
    lemma_normalize_contained(request);
}

/// In `Direct` mode a request resolves to a file exactly when its path names
/// a regular file under the root, and then to that file; otherwise it is not
/// found (and answered with the 404 catcher). The file lies under the root.
pub proof fn lemma_direct_serves_only_files(
    root: Seq<char>,
    entry: Seq<char>,
    request: Seq<Seq<char>>,
    kind: FileKind,
)
    ensures
        resolution(ServeMode::Direct, root, entry, request, kind) is Some <==> (candidate_of(
            root,
            request,
        ) is Some && kind == FileKind::File),
        resolution(ServeMode::Direct, root, entry, request, kind) is Some ==> resolution(
            ServeMode::Direct,
            root,
            entry,
            request,
            kind,
        ) == candidate_of(root, request),
        normalize(request) matches Some(segs) ==> is_contained(segs),
{
    lemma_normalize_contained(request);
}

/// Resolution depends on the configuration, the request path and what the
/// filesystem reports alone: identical requests against an unchanged
/// filesystem resolve identically.
pub proof fn lemma_resolution_repeatable(
    mode: ServeMode,
    root: Seq<char>,
    entry: Seq<char>,
    first: Seq<Seq<char>>,
    second: Seq<Seq<char>>,
    first_kind: FileKind,
    second_kind: FileKind,
)
    requires
        first == second,
        first_kind == second_kind,
    ensures
        resolution(mode, root, entry, first, first_kind) == resolution(mode, root, entry, second, second_kind),
{
}

/// A server only gets a configuration, and so only listens, when its root is
/// a directory and its entry a regular file; a root that is not a directory
/// is reported as such before the entry is looked at, and a missing entry
/// under a valid root is reported as an entry fault.
pub proof fn lemma_startup_rejects(root_kind: FileKind, entry_kind: FileKind)
    ensures
        startup_outcome(root_kind, entry_kind) is Ok <==> (root_kind == FileKind::Directory
            && entry_kind == FileKind::File),
        root_kind != FileKind::Directory ==> startup_outcome(root_kind, entry_kind) == Err::<
            (),
            StartupError,
        >(StartupError::InvalidRoot),
        root_kind == FileKind::Directory && entry_kind != FileKind::File ==> startup_outcome(
            root_kind,
            entry_kind,
        ) == Err::<(), StartupError>(StartupError::InvalidEntry),
{
}

} // verus!
