//! The file operations: what each decides before the file system is
//! touched, and what it makes of what the file system answers.
//!
//! An operation verifies the caller's credential, confines the path to the
//! caller's directory and, where it would change anything, asks the guard
//! first. What it hands back is the path to act on. The caller performs the
//! one file-system call and reports how it went.

use crate::config::{guarded, read_only_guard, Config, ConfigView};
use crate::credentials::{authenticate, authenticated};
use crate::error::{ErrorView, ServiceError};
use crate::response::{success, Response, ResponseView};
use crate::sandbox::{confined, plan_view, resolve_path, PathView, ResolvedPath};
use crate::text::texts;
use vstd::prelude::*;

verus! {

/// The value of a header, if there is one.
pub open spec fn header_view(header: Option<&str>) -> Option<Seq<char>> {
    match header {
        Some(value) => Some(value@),
        None => None,
    }
}

/// What an operation that only reads decides: without valid claims the
/// request is unauthenticated; with them, the path is confined to the
/// caller's directory.
pub open spec fn reading(
    config: ConfigView,
    authorization: Option<Seq<char>>,
    path: Seq<char>,
    now: u64,
) -> Result<PathView, ErrorView> {
    match authenticated(authorization, config.jwt_secret, now) {
        Err(_) => Err(ErrorView::Unauthenticated),
        Ok(claims) => confined(claims.id, path),
    }
}

/// What an operation on one path that changes the file system decides: the
/// guard is asked before anything else.
pub open spec fn changing(
    config: ConfigView,
    authorization: Option<Seq<char>>,
    path: Seq<char>,
    now: u64,
) -> Result<PathView, ErrorView> {
    match guarded(config) {
        Err(e) => Err(e),
        Ok(_) => reading(config, authorization, path, now),
    }
}

/// What a move decides: the guard is asked first, then both paths are
/// confined to the caller's directory, the source before the destination.
pub open spec fn moving(
    config: ConfigView,
    authorization: Option<Seq<char>>,
    from: Seq<char>,
    to: Seq<char>,
    now: u64,
) -> Result<(PathView, PathView), ErrorView> {
    match guarded(config) {
        Err(e) => Err(e),
        Ok(_) => match authenticated(authorization, config.jwt_secret, now) {
            Err(_) => Err(ErrorView::Unauthenticated),
            Ok(claims) => match confined(claims.id, from) {
                Err(e) => Err(e),
                Ok(source) => match confined(claims.id, to) {
                    Err(e) => Err(e),
                    Ok(destination) => Ok((source, destination)),
                },
            },
        },
    }
}

/// A request without valid claims is answered as unauthenticated by every
/// operation that gets as far as asking for them.
pub proof fn lemma_unauthenticated_is_refused(
    config: ConfigView,
    authorization: Option<Seq<char>>,
    from: Seq<char>,
    to: Seq<char>,
    now: u64,
)
    requires
        authenticated(authorization, config.jwt_secret, now) is Err,
    ensures
        reading(config, authorization, from, now) == Err::<PathView, ErrorView>(
            ErrorView::Unauthenticated,
        ),
        !config.read_only ==> changing(config, authorization, from, now) == Err::<
            PathView,
            ErrorView,
        >(ErrorView::Unauthenticated),
        !config.read_only ==> moving(config, authorization, from, to, now) == Err::<
            (PathView, PathView),
            ErrorView,
        >(ErrorView::Unauthenticated),
{
}

/// On a read-only server every operation that changes the file system is
/// refused with a violation, whatever the request holds, so that no path is
/// handed out to act on.
pub proof fn lemma_read_only_refuses_changes(
    config: ConfigView,
    authorization: Option<Seq<char>>,
    from: Seq<char>,
    to: Seq<char>,
    now: u64,
)
    requires
        config.read_only,
    ensures
        changing(config, authorization, from, now) == Err::<PathView, ErrorView>(
            ErrorView::ReadOnlyViolation,
        ),
        moving(config, authorization, from, to, now) == Err::<(PathView, PathView), ErrorView>(
            ErrorView::ReadOnlyViolation,
        ),
{
}

/// The operations that only read decide the same on a read-only server as
/// on a writable one.
pub proof fn lemma_reading_ignores_read_only(
    writable: ConfigView,
    read_only: ConfigView,
    authorization: Option<Seq<char>>,
    path: Seq<char>,
    now: u64,
)
    requires
        !writable.read_only,
        read_only.read_only,
        writable.jwt_secret == read_only.jwt_secret,
    ensures
        reading(writable, authorization, path, now) == reading(read_only, authorization, path, now),
{
}

/// Verifies the caller and confines `path` to the caller's directory.
fn plan_read(config: &Config, authorization: Option<&str>, path: &str, now: u64) -> (plan: Result<
    ResolvedPath,
    ServiceError,
>)
    ensures
        plan_view(plan) == reading(config@, header_view(authorization), path@, now),
        plan matches Ok(target) ==> target@.wf(),
{
    match authenticate(authorization, config.jwt_secret.as_slice(), now) {
        Err(_) => Err(ServiceError::Unauthenticated),
        Ok(claims) => resolve_path(claims.id, path),
    }
}

/// Lists a directory: decides which directory the caller may enumerate.
/// The entries found there go to [`partition_entries`].
pub fn list(config: &Config, authorization: Option<&str>, path: &str, now: u64) -> (plan: Result<
    ResolvedPath,
    ServiceError,
>)
    ensures
        plan_view(plan) == reading(config@, header_view(authorization), path@, now),
        plan matches Ok(target) ==> target@.wf(),
{
    plan_read(config, authorization, path, now)
}

/// Fetches a file: decides which file the caller may read.
pub fn get(config: &Config, authorization: Option<&str>, path: &str, now: u64) -> (plan: Result<
    ResolvedPath,
    ServiceError,
>)
    ensures
        plan_view(plan) == reading(config@, header_view(authorization), path@, now),
        plan matches Ok(target) ==> target@.wf(),
{
    plan_read(config, authorization, path, now)
}

/// Creates a directory with all its missing ancestors: decides which
/// directory the caller may create. On a read-only server nothing is handed
/// out, whatever the request holds.
pub fn create_dir(config: &Config, authorization: Option<&str>, path: &str, now: u64) -> (plan:
    Result<ResolvedPath, ServiceError>)
    ensures
        plan_view(plan) == changing(config@, header_view(authorization), path@, now),
        config.read_only ==> plan_view(plan) == Err::<PathView, ErrorView>(
            ErrorView::ReadOnlyViolation,
        ),
        plan matches Ok(target) ==> target@.wf(),
{
    match read_only_guard(config) {
        Err(e) => Err(e),
        Ok(_) => plan_read(config, authorization, path, now),
    }
}

/// The two paths of a move, both inside the caller's directory.
#[derive(Debug, PartialEq, Eq)]
pub struct MovePlan {
    pub source: ResolvedPath,
    pub destination: ResolvedPath,
}

/// The outcome of planning a move as a value.
pub open spec fn move_view(plan: Result<MovePlan, ServiceError>) -> Result<
    (PathView, PathView),
    ErrorView,
> {
    match plan {
        Ok(paths) => Ok((paths.source@, paths.destination@)),
        Err(e) => Err(e@),
    }
}

/// Moves or renames a file or a directory: decides from where to where the
/// caller may move. On a read-only server nothing is handed out, whatever
/// the request holds.
pub fn move_entry(
    config: &Config,
    authorization: Option<&str>,
    from: &str,
    to: &str,
    now: u64,
) -> (plan: Result<MovePlan, ServiceError>)
    ensures
        move_view(plan) == moving(config@, header_view(authorization), from@, to@, now),
        config.read_only ==> move_view(plan) == Err::<(PathView, PathView), ErrorView>(
            ErrorView::ReadOnlyViolation,
        ),
        plan matches Ok(paths) ==> paths.source@.wf() && paths.destination@.wf()
            && paths.source@.user_id == paths.destination@.user_id,
{
    match read_only_guard(config) {
        Err(e) => Err(e),
        Ok(_) => match authenticate(authorization, config.jwt_secret.as_slice(), now) {
            Err(_) => Err(ServiceError::Unauthenticated),
            Ok(claims) => match resolve_path(claims.id, from) {
                Err(e) => Err(e),
                Ok(source) => match resolve_path(claims.id, to) {
                    Err(e) => Err(e),
                    Ok(destination) => Ok(MovePlan { source, destination }),
                },
            },
        },
    }
}

/// What the file system says an entry is.
#[derive(Debug, Clone, PartialEq, Eq)]
pub enum EntryKind {
    /// A regular file.
    File,
    /// Anything else: a directory, a link.
    Other,
    /// The file system could not tell; the text is its error.
    Unknown(String),
}

/// An entry of a directory as the file system reports it.
#[derive(Debug, Clone, PartialEq, Eq)]
pub struct RawEntry {
    pub kind: EntryKind,
    /// The name, unless it is not valid text.
    pub name: Option<String>,
}

/// The kind of an entry as a value.
pub enum KindView {
    File,
    Other,
    Unknown(Seq<char>),
}

/// An entry as a value.
pub struct RawEntryView {
    pub kind: KindView,
    pub name: Option<Seq<char>>,
}

impl View for RawEntry {
    type V = RawEntryView;

    open spec fn view(&self) -> RawEntryView {
        RawEntryView {
            kind: match self.kind {
                EntryKind::File => KindView::File,
                EntryKind::Other => KindView::Other,
                EntryKind::Unknown(text) => KindView::Unknown(text@),
            },
            name: match self.name {
                Some(name) => Some(name@),
                None => None,
            },
        }
    }
}

/// The names of the files and of the other entries of a directory, each in
/// the order in which the file system gave them.
#[derive(Debug, Clone, PartialEq, Eq)]
pub struct Listing {
    pub files: Vec<String>,
    pub dirs: Vec<String>,
}

/// A listing as a value.
pub struct ListingView {
    pub files: Seq<Seq<char>>,
    pub dirs: Seq<Seq<char>>,
}

impl View for Listing {
    type V = ListingView;

    open spec fn view(&self) -> ListingView {
        ListingView { files: texts(self.files@), dirs: texts(self.dirs@) }
    }
}

/// The entries as values, in order.
pub open spec fn entry_views(entries: Seq<RawEntry>) -> Seq<RawEntryView> {
    Seq::new(entries.len(), |i: int| entries[i]@)
}

/// What is wrong with an entry, if anything: its kind is unknown, or, its
/// kind being known, its name is not valid text.
pub open spec fn entry_fault(entry: RawEntryView) -> Option<ErrorView> {
    match entry.kind {
        KindView::Unknown(text) => Some(ErrorView::Filesystem(text)),
        _ => match entry.name {
            None => Some(ErrorView::Encoding),
            Some(_) => None,
        },
    }
}

/// The fault of the first faulty entry, if any entry is faulty.
pub open spec fn first_fault(entries: Seq<RawEntryView>) -> Option<ErrorView>
    decreases entries.len(),
{
    if entries.len() == 0 {
        None
    } else {
        match first_fault(entries.drop_last()) {
            Some(e) => Some(e),
            None => entry_fault(entries.last()),
        }
    }
}

/// The name of an entry that has one.
pub open spec fn name_of(entry: RawEntryView) -> Seq<char> {
    entry.name->0
}

/// The names of the regular files among the entries, in order.
pub open spec fn files_among(entries: Seq<RawEntryView>) -> Seq<Seq<char>> {
    entries.filter(|entry: RawEntryView| entry.kind is File).map_values(
        |entry: RawEntryView| name_of(entry),
    )
}

/// The names of the entries that are no regular files, in order.
pub open spec fn dirs_among(entries: Seq<RawEntryView>) -> Seq<Seq<char>> {
    entries.filter(|entry: RawEntryView| !(entry.kind is File)).map_values(
        |entry: RawEntryView| name_of(entry),
    )
}

/// What a directory's entries make: the first fault among them, or, where
/// none is faulty, the listing of their names.
pub open spec fn listed(entries: Seq<RawEntryView>) -> Result<ListingView, ErrorView> {
    match first_fault(entries) {
        Some(e) => Err(e),
        None => Ok(ListingView { files: files_among(entries), dirs: dirs_among(entries) }),
    }
}

/// The outcome of a listing as a value.
pub open spec fn listing_view(outcome: Result<Listing, ServiceError>) -> Result<
    ListingView,
    ErrorView,
> {
    match outcome {
        Ok(listing) => Ok(listing@),
        Err(e) => Err(e@),
    }
}

/// The file and directory names among some entries, once one more entry is
/// appended.
proof fn lemma_names_push(entries: Seq<RawEntryView>, entry: RawEntryView)
    ensures
        files_among(entries.push(entry)) == if entry.kind is File {
            files_among(entries).push(name_of(entry))
        } else {
            files_among(entries)
        },
        dirs_among(entries.push(entry)) == if entry.kind is File {
            dirs_among(entries)
        } else {
            dirs_among(entries).push(name_of(entry))
        },
{
    reveal(Seq::filter);
    assert(entries.push(entry).drop_last() == entries);
}

/// Sorts the entries of a directory into files and others, keeping the
/// order in which they came. An entry whose kind the file system could not
/// tell, or whose name is not valid text, fails the whole listing: none is
/// silently dropped.
pub fn partition_entries(entries: &Vec<RawEntry>) -> (outcome: Result<Listing, ServiceError>)
    ensures
        listing_view(outcome) == listed(entry_views(entries@)),
{
    let mut files: Vec<String> = Vec::new();
    let mut dirs: Vec<String> = Vec::new();
    let mut fault: Option<ServiceError> = None;
    let mut k: usize = 0;
    proof {
        reveal(Seq::filter);
        assert(entry_views(entries@).take(0) == Seq::<RawEntryView>::empty());
    }
    while k < entries.len()
        invariant
            k <= entries.len(),
            match fault {
                Some(e) => first_fault(entry_views(entries@).take(k as int)) == Some(e@),
                None => first_fault(entry_views(entries@).take(k as int)) is None,
            },
            fault is None ==> texts(files@) == files_among(entry_views(entries@).take(k as int)),
            fault is None ==> texts(dirs@) == dirs_among(entry_views(entries@).take(k as int)),
        decreases entries.len() - k,
    {
        let entry = &entries[k];
        let ghost seen = entry_views(entries@).take(k as int);
        let ghost file_names = texts(files@);
        let ghost dir_names = texts(dirs@);
        proof {
            assert(entry_views(entries@).take(k + 1) == seen.push(entry@));
            assert(seen.push(entry@).drop_last() == seen);
            lemma_names_push(seen, entry@);
        }
        match &entry.kind {
            EntryKind::Unknown(text) => {
                if fault.is_none() {
                    fault = Some(ServiceError::Filesystem(text.clone()));
                }
            },
            EntryKind::File => match &entry.name {
                None => {
                    if fault.is_none() {
                        fault = Some(ServiceError::Encoding);
                    }
                },
                Some(name) => {
                    files.push(name.clone());
                    assert(texts(files@) == file_names.push(name@));
                },
            },
            EntryKind::Other => match &entry.name {
                None => {
                    if fault.is_none() {
                        fault = Some(ServiceError::Encoding);
                    }
                },
                Some(name) => {
                    dirs.push(name.clone());
                    assert(texts(dirs@) == dir_names.push(name@));
                },
            },
        }
        k += 1;
    }
    proof {
        assert(entry_views(entries@).take(k as int) == entry_views(entries@));
    }
    match fault {
        Some(e) => Err(e),
        None => Ok(Listing { files, dirs }),
    }
}

/// What the client is told once the directory stands.
pub fn created_response() -> (response: Response)
    ensures
        response@ == success("directory successfully created!"@),
{
    Response { status: 200, body: "directory successfully created!".to_owned(), location: None }
}

/// What the client is told once the move is done; the words depend on what
/// was moved.
pub fn moved_response(is_dir: bool) -> (response: Response)
    ensures
        response@ == success(
            if is_dir {
                "Directory successfully moved"@
            } else {
                "File successfully moved"@
            },
        ),
{
    if is_dir {
        Response { status: 200, body: "Directory successfully moved".to_owned(), location: None }
    } else {
        Response { status: 200, body: "File successfully moved".to_owned(), location: None }
    }
}

} // verus!
