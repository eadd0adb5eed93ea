//! Listing a directory.
//!
//! [`ReadTree`] says which part of the repository it needs next; the caller reads that part and
//! hands it in, until the listing is done.
use vstd::prelude::*;
use vstd::string::*;
use vstd::utf8::{encode_utf8, valid_utf8};

use crate::decode::{
    entries_in, law_well_formed_bytes_are_shown_as_text, lossy_text, read_entries, text_of,
    to_text, tree_entries, EntryRead, RawEntry, RawEntryView,
};
use crate::error::{AppError, AppErrorView};
use crate::object_id::ObjectId;
use crate::repo::{
    blob_at, entry_kind, found_view, law_kind_is_in_the_mode, law_normalize_is_idempotent,
    normal_path, normalize, EntryKind, FoundEntry, Kind,
};
use crate::text::{lemma_filter_front, lemma_views_push, views};

verus! {

/// A line of a directory listing.
#[derive(Debug)]
pub struct TreeEntry {
    pub name: String,
    pub kind: Kind,
    pub mode: String,
    pub oid: String,
    pub size: Option<u64>,
}

/// The view of a [`TreeEntry`].
#[verifier::ext_equal]
pub struct TreeEntryView {
    pub name: Seq<char>,
    pub kind: Kind,
    pub mode: Seq<char>,
    pub oid: Seq<char>,
    pub size: Option<u64>,
}

impl View for TreeEntry {
    type V = TreeEntryView;

    open spec fn view(&self) -> TreeEntryView {
        TreeEntryView {
            name: self.name@,
            kind: self.kind,
            mode: self.mode@,
            oid: self.oid@,
            size: self.size,
        }
    }
}

/// The line for an entry of a tree.
pub open spec fn row(raw: RawEntryView, size: Option<u64>) -> TreeEntryView {
    TreeEntryView {
        name: text_of(raw.name),
        kind: EntryKind::of_mode(raw.mode).public_kind(),
        mode: EntryKind::of_mode(raw.mode).octal(),
        oid: raw.id.hex(),
        size,
    }
}

/// What a finished listing gave.
pub type Listing = Result<Seq<TreeEntryView>, AppErrorView>;

/// How far reading a tree has come.
pub enum TreeState {
    /// The tree of this commit is needed.
    Root(ObjectId),
    /// The entry at the path in the tree of this commit is needed.
    Lookup(ObjectId),
    /// The tree with this id is needed.
    Subtree(ObjectId),
    /// The size of the entry `reads[rows.len()]` is needed; the entries before it are listed, and
    /// those of them without contents in the cache are `missing`.
    Sizes {
        reads: Seq<Result<RawEntryView, Seq<char>>>,
        rows: Seq<TreeEntryView>,
        missing: Seq<ObjectId>,
    },
    Done(Listing),
}

/// Whether the size of an entry has to be read.
pub open spec fn needs_size(read: Result<RawEntryView, Seq<char>>) -> bool {
    read is Ok && EntryKind::of_mode(read->Ok_0.mode).has_size()
}

/// Lists entries until the size of one is needed, or to the end.
pub open spec fn list_from(
    reads: Seq<Result<RawEntryView, Seq<char>>>,
    rows: Seq<TreeEntryView>,
    missing: Seq<ObjectId>,
) -> TreeState
    decreases reads.len() - rows.len(),
{
    if rows.len() >= reads.len() {
        if missing.len() == 0 {
            TreeState::Done(Ok(rows))
        } else {
            TreeState::Done(Err(AppErrorView::MissingObjects(missing)))
        }
    } else {
        match reads[rows.len() as int] {
            Err(e) => TreeState::Done(Err(AppErrorView::Internal(e))),
            Ok(raw) => if needs_size(reads[rows.len() as int]) {
                TreeState::Sizes { reads, rows, missing }
            } else {
                list_from(reads, rows.push(row(raw, None)), missing)
            },
        }
    }
}

impl TreeState {
    /// Goes on with the bytes of the tree of the commit.
    pub open spec fn after_root(
        self,
        path: Seq<char>,
        data: Result<Seq<u8>, Seq<char>>,
    ) -> TreeState {
        match data {
            Err(e) => TreeState::Done(Err(AppErrorView::Internal(e))),
            Ok(data) => if path.len() == 0 {
                list_from(entries_in(data), Seq::empty(), Seq::empty())
            } else {
                TreeState::Lookup(self->Root_0)
            },
        }
    }

    /// Goes on with the entry at the path.
    pub open spec fn after_lookup(
        self,
        path: Seq<char>,
        found: Result<Option<FoundEntry>, Seq<char>>,
    ) -> TreeState {
        match found {
            Err(e) => TreeState::Done(Err(AppErrorView::Internal(e))),
            Ok(None) => TreeState::Done(Err(AppErrorView::PathNotFound(path))),
            Ok(Some(entry)) => if EntryKind::of_mode(entry.mode) is Tree {
                TreeState::Subtree(entry.id)
            } else {
                TreeState::Done(Err(AppErrorView::BadRequest("not a directory: "@ + path)))
            },
        }
    }

    /// Goes on with the bytes of the tree that the entry names.
    pub open spec fn after_subtree(self, data: Result<Seq<u8>, Seq<char>>) -> TreeState {
        match data {
            Err(e) => TreeState::Done(Err(AppErrorView::Internal(e))),
            Ok(data) => list_from(entries_in(data), Seq::empty(), Seq::empty()),
        }
    }

    /// Goes on with the size of the entry, which is absent if the cache lacks its contents.
    pub open spec fn after_size(self, size: Result<Option<u64>, Seq<char>>) -> TreeState {
        match self {
            TreeState::Sizes { reads, rows, missing } => match size {
                Err(e) => TreeState::Done(Err(AppErrorView::Internal(e))),
                Ok(size) => {
                    let raw = reads[rows.len() as int]->Ok_0;
                    list_from(
                        reads,
                        rows.push(row(raw, size)),
                        if size is None {
                            missing.push(raw.id)
                        } else {
                            missing
                        },
                    )
                },
            },
            _ => self,
        }
    }

    /// Whether a size is needed, and of which object.
    pub open spec fn wanted_size(self) -> Option<ObjectId> {
        match self {
            TreeState::Sizes { reads, rows, .. } => Some(reads[rows.len() as int]->Ok_0.id),
            _ => None,
        }
    }
}

enum Phase {
    Root(ObjectId),
    Lookup(ObjectId),
    Subtree(ObjectId),
    Sizes { reads: Vec<EntryRead>, rows: Vec<TreeEntry>, missing: Vec<ObjectId> },
    Done(Result<Vec<TreeEntry>, AppError>),
}

/// A directory that is being listed.
pub struct ReadTree {
    path: String,
    phase: Phase,
}

/// The part of the repository that a listing needs next.
#[derive(Debug)]
pub enum TreeNeed {
    /// The bytes of the tree of this commit.
    Root(ObjectId),
    /// The entry at this path in the tree of this commit.
    Entry { commit: ObjectId, path: String },
    /// The bytes of this tree.
    Subtree(ObjectId),
    /// The size of this object, if the cache holds it.
    Size(ObjectId),
    /// Nothing: the listing is finished.
    Nothing,
}

/// The view of a finished listing.
pub open spec fn listing_view(r: Result<Vec<TreeEntry>, AppError>) -> Listing {
    match r {
        Ok(rows) => Ok(views(rows@)),
        Err(e) => Err(e@),
    }
}

/// The view of bytes that may not have been read.
pub open spec fn data_view(data: Result<Vec<u8>, String>) -> Result<Seq<u8>, Seq<char>> {
    match data {
        Ok(data) => Ok(data@),
        Err(e) => Err(e@),
    }
}

/// The view of a size that may not have been read.
pub open spec fn size_view(size: Result<Option<u64>, String>) -> Result<Option<u64>, Seq<char>> {
    match size {
        Ok(size) => Ok(size),
        Err(e) => Err(e@),
    }
}

fn make_row(raw: &RawEntry, size: Option<u64>) -> (r: TreeEntry)
    ensures
        r@ == row(raw@, size),
{
    let kind = EntryKind::from_mode(raw.mode);
    TreeEntry {
        name: to_text(raw.name.as_slice()),
        kind: entry_kind(kind),
        mode: kind.as_octal_str().to_owned(),
        oid: raw.id.to_hex(),
        size,
    }
}

impl ReadTree {
    /// The normalized path of the directory.
    pub closed spec fn dir(&self) -> Seq<char> {
        self.path@
    }

    /// How far the listing has come.
    pub closed spec fn state(&self) -> TreeState {
        match self.phase {
            Phase::Root(commit) => TreeState::Root(commit),
            Phase::Lookup(commit) => TreeState::Lookup(commit),
            Phase::Subtree(id) => TreeState::Subtree(id),
            Phase::Sizes { reads, rows, missing } => TreeState::Sizes {
                reads: views(reads@),
                rows: views(rows@),
                missing: missing@,
            },
            Phase::Done(r) => TreeState::Done(listing_view(r)),
        }
    }

    /// While a size is needed, there is an entry that it is the size of.
    #[verifier::type_invariant]
    closed spec fn wf(&self) -> bool {
        match self.phase {
            Phase::Sizes { reads, rows, .. } => rows@.len() < reads@.len() && needs_size(
                reads@[rows@.len() as int]@,
            ),
            _ => true,
        }
    }

    /// What the listing needs next.
    pub fn need(&self) -> (r: TreeNeed)
        ensures
            match self.state() {
                TreeState::Root(commit) => r == TreeNeed::Root(commit),
                TreeState::Lookup(at) => r matches TreeNeed::Entry { commit, path } && commit == at
                    && path@ == self.dir(),
                TreeState::Subtree(id) => r == TreeNeed::Subtree(id),
                TreeState::Sizes { .. } => r == TreeNeed::Size(self.state().wanted_size()->0),
                TreeState::Done(_) => r is Nothing,
            },
    {
        proof {
            use_type_invariant(self);
        }
        match &self.phase {
            Phase::Root(commit) => TreeNeed::Root(*commit),
            Phase::Lookup(commit) => TreeNeed::Entry {
                commit: *commit,
                path: self.path.clone(),
            },
            Phase::Subtree(id) => TreeNeed::Subtree(*id),
            Phase::Sizes { reads, rows, .. } => {
                let at: usize = rows.len();
                assert(views(reads@)[at as int] == reads@[at as int]@);
                match &reads[at].result {
                    Ok(raw) => TreeNeed::Size(raw.id),
                    Err(_) => TreeNeed::Nothing,
                }
            },
            Phase::Done(_) => TreeNeed::Nothing,
        }
    }

    fn list(
        path: String,
        reads: Vec<EntryRead>,
        listed: Vec<TreeEntry>,
        missing: Vec<ObjectId>,
    ) -> (r: ReadTree)
        requires
            listed@.len() <= reads@.len(),
        ensures
            r.dir() == path@,
            r.state() == list_from(views(reads@), views(listed@), missing@),
    {
        let ghost goal = list_from(views(reads@), views(listed@), missing@);
        let ghost all = views(reads@);
        let mut rows = listed;
        let len: usize = reads.len();
        while rows.len() < len
            invariant
                len == reads@.len(),
                all == views(reads@),
                rows@.len() <= len,
                goal == list_from(all, views(listed@), missing@),
                goal == list_from(all, views(rows@), missing@),
            ensures
                rows@.len() == len,
            decreases len - rows@.len(),
        {
            let at: usize = rows.len();
            assert(all[at as int] == reads@[at as int]@);
            let raw: &RawEntry = match &reads[at].result {
                Ok(raw) => raw,
                Err(e) => {
                    return ReadTree {
                        path,
                        phase: Phase::Done(Err(AppError::internal(e.clone()))),
                    };
                },
            };
            if EntryKind::from_mode(raw.mode).is_blob_or_symlink() {
                return ReadTree { path, phase: Phase::Sizes { reads, rows, missing } };
            }
            let next = make_row(raw, None);
            proof {
                lemma_views_push(rows@, next);
            }
            rows.push(next);
        }
        if missing.len() == 0 {
            ReadTree { path, phase: Phase::Done(Ok(rows)) }
        } else {
            ReadTree { path, phase: Phase::Done(Err(AppError::MissingObjects(missing))) }
        }
    }

    /// Goes on with the bytes of the tree of the commit.
    pub fn on_root(self, data: Result<Vec<u8>, String>) -> (r: ReadTree)
        requires
            self.state() is Root,
        ensures
            r.dir() == self.dir(),
            r.state() == self.state().after_root(self.dir(), data_view(data)),
    {
        let path = self.path;
        match (self.phase, data) {
            (Phase::Root(_), Err(e)) => {
                ReadTree { path, phase: Phase::Done(Err(AppError::internal(e))) }
            },
            (Phase::Root(commit), Ok(data)) => if path.as_str().is_empty() {
                Self::of_entries(path, read_entries(data.as_slice()))
            } else {
                ReadTree { path, phase: Phase::Lookup(commit) }
            },
            (phase, _) => ReadTree { path, phase },
        }
    }

    /// Lists the directory at the normalized `path`, of whose tree these entries were read.
    pub fn of_entries(path: String, reads: Vec<EntryRead>) -> (r: ReadTree)
        ensures
            r.dir() == path@,
            r.state() == list_from(views(reads@), Seq::empty(), Seq::empty()),
    {
        let rows: Vec<TreeEntry> = Vec::new();
        let missing: Vec<ObjectId> = Vec::new();
        assert(views(rows@) =~= Seq::<TreeEntryView>::empty());
        Self::list(path, reads, rows, missing)
    }

    /// Goes on with the entry at the path.
    pub fn on_entry(self, found: Result<Option<FoundEntry>, String>) -> (r: ReadTree)
        requires
            self.state() is Lookup,
        ensures
            r.dir() == self.dir(),
            r.state() == self.state().after_lookup(self.dir(), found_view(found)),
    {
        let phase: Phase = match found {
            Err(e) => Phase::Done(Err(AppError::internal(e))),
            Ok(None) => Phase::Done(Err(AppError::PathNotFound(self.path.clone()))),
            Ok(Some(entry)) => match EntryKind::from_mode(entry.mode) {
                EntryKind::Tree => Phase::Subtree(entry.id),
                _ => Phase::Done(
                    Err(
                        AppError::BadRequest(
                            "not a directory: ".to_owned().concat(self.path.as_str()),
                        ),
                    ),
                ),
            },
        };
        ReadTree { path: self.path, phase }
    }

    /// Goes on with the bytes of the tree that the entry names.
    pub fn on_subtree(self, data: Result<Vec<u8>, String>) -> (r: ReadTree)
        requires
            self.state() is Subtree,
        ensures
            r.dir() == self.dir(),
            r.state() == self.state().after_subtree(data_view(data)),
    {
        match data {
            Err(e) => ReadTree { path: self.path, phase: Phase::Done(Err(AppError::internal(e))) },
            Ok(data) => Self::of_entries(self.path, read_entries(data.as_slice())),
        }
    }

    /// Goes on with the size of the entry, which is absent if the cache lacks its contents.
    pub fn on_size(self, size: Result<Option<u64>, String>) -> (r: ReadTree)
        requires
            self.state() is Sizes,
        ensures
            r.dir() == self.dir(),
            r.state() == self.state().after_size(size_view(size)),
    {
        proof {
            use_type_invariant(&self);
        }
        let path = self.path;
        match self.phase {
            Phase::Sizes { reads, rows, missing } => {
                let mut rows = rows;
                let mut missing = missing;
                let size: Option<u64> = match size {
                    Ok(size) => size,
                    Err(e) => {
                        return ReadTree { path, phase: Phase::Done(Err(AppError::internal(e))) };
                    },
                };
                let at: usize = rows.len();
                assert(views(reads@)[at as int] == reads@[at as int]@);
                match &reads[at].result {
                    Ok(raw) => {
                        if size.is_none() {
                            missing.push(raw.id);
                        }
                        let next = make_row(raw, size);
                        proof {
                            lemma_views_push(rows@, next);
                        }
                        rows.push(next);
                    },
                    Err(_) => {},
                }
                Self::list(path, reads, rows, missing)
            },
            phase => ReadTree { path, phase },
        }
    }

    /// The listing, once nothing more is needed.
    pub fn finish(self) -> (r: Result<Vec<TreeEntry>, AppError>)
        requires
            self.state() is Done,
        ensures
            self.state() == TreeState::Done(listing_view(r)),
    {
        match self.phase {
            Phase::Done(r) => r,
            _ => Ok(Vec::new()),
        }
    }
}

/// Begins to list the directory at `path` (empty for the root) in `commit`.
pub fn read_tree(commit: ObjectId, path: &str) -> (r: ReadTree)
    ensures
        r.dir() == normal_path(path@),
        r.state() == TreeState::Root(commit),
{
    ReadTree { path: normalize(path).to_owned(), phase: Phase::Root(commit) }
}

/// A repository as a listing sees it: the answer to each of its needs.
pub struct TreeAnswers {
    /// The bytes of the tree of a commit.
    pub root: spec_fn(ObjectId) -> Result<Seq<u8>, Seq<char>>,
    /// The entry at a path in the tree of a commit.
    pub entry: spec_fn(ObjectId, Seq<char>) -> Result<Option<FoundEntry>, Seq<char>>,
    /// The bytes of a tree.
    pub subtree: spec_fn(ObjectId) -> Result<Seq<u8>, Seq<char>>,
    /// The size of an object, if it is there.
    pub size: spec_fn(ObjectId) -> Result<Option<u64>, Seq<char>>,
}

/// The state after the need of `state` was answered.
pub open spec fn answered(state: TreeState, path: Seq<char>, answers: TreeAnswers) -> TreeState {
    match state {
        TreeState::Root(commit) => state.after_root(path, (answers.root)(commit)),
        TreeState::Lookup(commit) => state.after_lookup(path, (answers.entry)(commit, path)),
        TreeState::Subtree(id) => state.after_subtree((answers.subtree)(id)),
        TreeState::Sizes { .. } => state.after_size((answers.size)(state.wanted_size()->0)),
        TreeState::Done(_) => state,
    }
}

/// What is left to do: the kind of need, and the entries that are not listed yet.
pub open spec fn left(state: TreeState) -> (int, int) {
    match state {
        TreeState::Root(_) => (3, 0),
        TreeState::Lookup(_) => (2, 0),
        TreeState::Subtree(_) => (1, 0),
        TreeState::Sizes { reads, rows, .. } => (0, reads.len() - rows.len()),
        TreeState::Done(_) => (0, 0),
    }
}

/// The listing that comes out when every need is answered, one after another.
pub open spec fn drive(state: TreeState, path: Seq<char>, answers: TreeAnswers) -> Listing
    decreases left(state).0, left(state).1,
    via drive_terminates
{
    match state {
        TreeState::Done(listing) => listing,
        TreeState::Sizes { reads, rows, .. } => if rows.len() < reads.len() {
            drive(answered(state, path, answers), path, answers)
        } else {
            Ok(rows)
        },
        _ => drive(answered(state, path, answers), path, answers),
    }
}

#[via_fn]
proof fn drive_terminates(state: TreeState, path: Seq<char>, answers: TreeAnswers) {
    match state {
        TreeState::Root(commit) => {
            if let Ok(data) = (answers.root)(commit) {
                lemma_list_from_goes_on(
                    entries_in(data),
                    Seq::empty(),
                    Seq::empty(),
                );
            }
        },
        TreeState::Subtree(id) => {
            if let Ok(data) = (answers.subtree)(id) {
                lemma_list_from_goes_on(
                    entries_in(data),
                    Seq::empty(),
                    Seq::empty(),
                );
            }
        },
        TreeState::Sizes { reads, rows, missing } => {
            if let Ok(size) = (answers.size)(state.wanted_size()->0) {
                let raw = reads[rows.len() as int]->Ok_0;
                let more = if size is None {
                    missing.push(raw.id)
                } else {
                    missing
                };
                lemma_list_from_goes_on(reads, rows.push(row(raw, size)), more);
            }
        },
        _ => {},
    }
}

/// Listing more entries never takes lines away.
proof fn lemma_list_from_goes_on(
    reads: Seq<Result<RawEntryView, Seq<char>>>,
    rows: Seq<TreeEntryView>,
    missing: Seq<ObjectId>,
)
    ensures
        match list_from(reads, rows, missing) {
            TreeState::Sizes { reads: r, rows: w, missing: m } => r == reads && m == missing
                && rows.len() <= w.len() < reads.len() && needs_size(reads[w.len() as int]),
            TreeState::Done(_) => true,
            _ => false,
        },
    decreases reads.len() - rows.len(),
{
    if rows.len() < reads.len() {
        if let Ok(raw) = reads[rows.len() as int] {
            if !needs_size(reads[rows.len() as int]) {
                lemma_list_from_goes_on(reads, rows.push(row(raw, None)), missing);
            }
        }
    }
}

/// The first failure among the entries from number `i` on: one that cannot be decoded, or whose
/// size cannot be read.
pub open spec fn failure(
    reads: Seq<Result<RawEntryView, Seq<char>>>,
    size: spec_fn(ObjectId) -> Result<Option<u64>, Seq<char>>,
    i: int,
) -> Option<Seq<char>>
    decreases reads.len() - i,
{
    if i >= reads.len() {
        None
    } else {
        match reads[i] {
            Err(e) => Some(e),
            Ok(raw) => if needs_size(reads[i]) && size(raw.id) is Err {
                Some(size(raw.id)->Err_0)
            } else {
                failure(reads, size, i + 1)
            },
        }
    }
}

/// Whether an entry has contents that the cache lacks.
pub open spec fn is_absent(
    read: Result<RawEntryView, Seq<char>>,
    size: spec_fn(ObjectId) -> Result<Option<u64>, Seq<char>>,
) -> bool {
    needs_size(read) && size(read->Ok_0.id) == Ok::<_, Seq<char>>(None::<u64>)
}

/// The entries from number `i` on whose contents the cache lacks.
pub open spec fn absent(
    reads: Seq<Result<RawEntryView, Seq<char>>>,
    size: spec_fn(ObjectId) -> Result<Option<u64>, Seq<char>>,
    i: int,
) -> Seq<ObjectId>
    decreases reads.len() - i,
{
    if i >= reads.len() {
        Seq::empty()
    } else if is_absent(reads[i], size) {
        seq![reads[i]->Ok_0.id] + absent(reads, size, i + 1)
    } else {
        absent(reads, size, i + 1)
    }
}

/// The line for an entry that was decoded.
pub open spec fn full_row(
    read: Result<RawEntryView, Seq<char>>,
    size: spec_fn(ObjectId) -> Result<Option<u64>, Seq<char>>,
) -> TreeEntryView {
    row(
        read->Ok_0,
        if needs_size(read) {
            size(read->Ok_0.id)->Ok_0
        } else {
            None
        },
    )
}

/// The listing of a tree with these entries: its first failure; else all entries whose contents
/// the cache lacks; else a line for each entry.
pub open spec fn tree_listing(
    reads: Seq<Result<RawEntryView, Seq<char>>>,
    size: spec_fn(ObjectId) -> Result<Option<u64>, Seq<char>>,
) -> Listing {
    match failure(reads, size, 0) {
        Some(e) => Err(AppErrorView::Internal(e)),
        None => if absent(reads, size, 0).len() > 0 {
            Err(AppErrorView::MissingObjects(absent(reads, size, 0)))
        } else {
            Ok(Seq::new(reads.len(), |i: int| full_row(reads[i], size)))
        },
    }
}

/// The entries of the directory at the normalized `path` in `commit`, or why there are none.
pub open spec fn directory_entries(
    commit: ObjectId,
    path: Seq<char>,
    answers: TreeAnswers,
) -> Result<Seq<Result<RawEntryView, Seq<char>>>, AppErrorView> {
    match (answers.root)(commit) {
        Err(e) => Err(AppErrorView::Internal(e)),
        Ok(root) => if path.len() == 0 {
            Ok(entries_in(root))
        } else {
            match (answers.entry)(commit, path) {
                Err(e) => Err(AppErrorView::Internal(e)),
                Ok(None) => Err(AppErrorView::PathNotFound(path)),
                Ok(Some(entry)) => if EntryKind::of_mode(entry.mode) is Tree {
                    match (answers.subtree)(entry.id) {
                        Err(e) => Err(AppErrorView::Internal(e)),
                        Ok(data) => Ok(entries_in(data)),
                    }
                } else {
                    Err(AppErrorView::BadRequest("not a directory: "@ + path))
                },
            }
        },
    }
}

/// The listing of the directory at the normalized `path` in `commit`.
pub open spec fn directory_listing(
    commit: ObjectId,
    path: Seq<char>,
    answers: TreeAnswers,
) -> Listing {
    match directory_entries(commit, path, answers) {
        Ok(reads) => tree_listing(reads, answers.size),
        Err(e) => Err(e),
    }
}

proof fn lemma_drive_lists(
    reads: Seq<Result<RawEntryView, Seq<char>>>,
    rows: Seq<TreeEntryView>,
    missing: Seq<ObjectId>,
    path: Seq<char>,
    answers: TreeAnswers,
)
    requires
        rows.len() <= reads.len(),
    ensures
        drive(list_from(reads, rows, missing), path, answers) == match failure(
            reads,
            answers.size,
            rows.len() as int,
        ) {
            Some(e) => Err(AppErrorView::Internal(e)),
            None => {
                let gone = missing + absent(reads, answers.size, rows.len() as int);
                if gone.len() > 0 {
                    Err(AppErrorView::MissingObjects(gone))
                } else {
                    Ok(
                        rows + Seq::new(
                            (reads.len() - rows.len()) as nat,
                            |i: int| full_row(reads[rows.len() + i], answers.size),
                        ),
                    )
                }
            },
        },
    decreases reads.len() - rows.len(),
{
    let size = answers.size;
    let n = rows.len() as int;
    let rest = Seq::new(
        (reads.len() - rows.len()) as nat,
        |i: int| full_row(reads[rows.len() + i], size),
    );
    if n == reads.len() {
        assert(rows + rest =~= rows);
        assert(missing + absent(reads, size, n) =~= missing);
    } else {
        match reads[n] {
            Err(e) => {},
            Ok(raw) => {
                let state = list_from(reads, rows, missing);
                if needs_size(reads[n]) {
                    assert(state == TreeState::Sizes { reads, rows, missing });
                    assert(drive(state, path, answers) == drive(
                        state.after_size(size(raw.id)),
                        path,
                        answers,
                    ));
                    if let Ok(found) = size(raw.id) {
                        let more = if found is None {
                            missing.push(raw.id)
                        } else {
                            missing
                        };
                        let longer = rows.push(row(raw, found));
                        lemma_drive_lists(reads, longer, more, path, answers);
                        assert(more + absent(reads, size, n + 1) =~= missing + absent(
                            reads,
                            size,
                            n,
                        ));
                        assert(rows + rest =~= longer + Seq::new(
                            (reads.len() - longer.len()) as nat,
                            |i: int| full_row(reads[longer.len() + i], size),
                        ));
                    }
                } else {
                    let longer = rows.push(row(raw, None));
                    lemma_drive_lists(reads, longer, missing, path, answers);
                    assert(rows + rest =~= longer + Seq::new(
                        (reads.len() - longer.len()) as nat,
                        |i: int| full_row(reads[longer.len() + i], size),
                    ));
                }
            },
        }
    }
}

/// Whatever the repository holds, answering one need after another ends with the listing of the
/// directory.
pub proof fn law_read_tree_lists_the_directory(
    commit: ObjectId,
    path: Seq<char>,
    answers: TreeAnswers,
)
    ensures
        drive(TreeState::Root(commit), path, answers) == directory_listing(commit, path, answers),
{
    reveal_with_fuel(drive, 4);
    if let Ok(root) = (answers.root)(commit) {
        if path.len() == 0 {
            lemma_whole_tree(entries_in(root), path, answers);
        } else if let Ok(Some(entry)) = (answers.entry)(commit, path) {
            if let Ok(data) = (answers.subtree)(entry.id) {
                lemma_whole_tree(entries_in(data), path, answers);
            }
        }
    }
}

proof fn lemma_whole_tree(
    reads: Seq<Result<RawEntryView, Seq<char>>>,
    path: Seq<char>,
    answers: TreeAnswers,
)
    ensures
        drive(list_from(reads, Seq::empty(), Seq::empty()), path, answers) == tree_listing(
            reads,
            answers.size,
        ),
{
    let none = Seq::<TreeEntryView>::empty();
    lemma_drive_lists(reads, none, Seq::empty(), path, answers);
    assert(Seq::<ObjectId>::empty() + absent(reads, answers.size, 0) =~= absent(
        reads,
        answers.size,
        0,
    ));
    assert(none + Seq::new(
        (reads.len() - none.len()) as nat,
        |i: int| full_row(reads[none.len() + i], answers.size),
    ) =~= Seq::new(reads.len(), |i: int| full_row(reads[i], answers.size)));
}

proof fn lemma_absent(
    reads: Seq<Result<RawEntryView, Seq<char>>>,
    size: spec_fn(ObjectId) -> Result<Option<u64>, Seq<char>>,
    i: int,
    j: int,
)
    requires
        0 <= i <= j < reads.len(),
        is_absent(reads[j], size),
    ensures
        absent(reads, size, i).contains(reads[j]->Ok_0.id),
    decreases reads.len() - i,
{
    let all = absent(reads, size, i);
    let rest = absent(reads, size, i + 1);
    if i == j {
        assert(all[0] == reads[j]->Ok_0.id);
    } else {
        lemma_absent(reads, size, i + 1, j);
        let k = rest.index_of(reads[j]->Ok_0.id);
        if is_absent(reads[i], size) {
            assert(all[k + 1] == rest[k]);
        }
    }
}

proof fn lemma_only_absent(
    reads: Seq<Result<RawEntryView, Seq<char>>>,
    size: spec_fn(ObjectId) -> Result<Option<u64>, Seq<char>>,
    i: int,
    k: int,
) -> (j: int)
    requires
        0 <= i,
        0 <= k < absent(reads, size, i).len(),
    ensures
        i <= j < reads.len(),
        is_absent(reads[j], size),
        reads[j]->Ok_0.id == absent(reads, size, i)[k],
    decreases reads.len() - i,
{
    if is_absent(reads[i], size) {
        if k == 0 {
            i
        } else {
            lemma_only_absent(reads, size, i + 1, k - 1)
        }
    } else {
        lemma_only_absent(reads, size, i + 1, k)
    }
}

/// Whether `id` is the object of an entry with contents that the cache lacks.
pub open spec fn lacks(
    reads: Seq<Result<RawEntryView, Seq<char>>>,
    size: spec_fn(ObjectId) -> Result<Option<u64>, Seq<char>>,
    id: ObjectId,
) -> bool {
    exists|j: int|
        0 <= j < reads.len() && is_absent(#[trigger] reads[j], size) && reads[j]->Ok_0.id == id
}

/// All objects that a listing lacks are reported together, and no others are.
pub proof fn law_missing_objects_come_in_one_batch(
    reads: Seq<Result<RawEntryView, Seq<char>>>,
    size: spec_fn(ObjectId) -> Result<Option<u64>, Seq<char>>,
)
    requires
        failure(reads, size, 0) is None,
    ensures
        tree_listing(reads, size) matches Err(e) ==> e is MissingObjects,
        forall|j: int|
            0 <= j < reads.len() && is_absent(#[trigger] reads[j], size) ==> (tree_listing(
                reads,
                size,
            ) matches Err(AppErrorView::MissingObjects(ids)) && ids.contains(reads[j]->Ok_0.id)),
        tree_listing(reads, size) matches Err(AppErrorView::MissingObjects(ids)) ==> forall|k: int|
            0 <= k < ids.len() ==> lacks(reads, size, #[trigger] ids[k]),
{
    let all = absent(reads, size, 0);
    assert forall|j: int| 0 <= j < reads.len() && is_absent(#[trigger] reads[j], size) implies (
    tree_listing(reads, size) matches Err(AppErrorView::MissingObjects(ids)) && ids.contains(
        reads[j]->Ok_0.id,
    )) by {
        lemma_absent(reads, size, 0, j);
    }
    assert forall|k: int| 0 <= k < all.len() implies lacks(reads, size, #[trigger] all[k]) by {
        let j = lemma_only_absent(reads, size, 0, k);
        assert(is_absent(reads[j], size));
    }
}

/// The path of the entry `name` in the directory at the normalized path `dir`.
pub open spec fn joined(dir: Seq<char>, name: Seq<char>) -> Seq<char> {
    if dir.len() == 0 {
        name
    } else {
        dir + seq!['/'] + name
    }
}

/// A path that a listing shows, requested as a file, agrees with its line: a file or a symlink is
/// found under the id that is listed, and anything else is no file. The path is looked up as it
/// is listed if the lookup finds the entry that the listing read.
pub proof fn law_listed_path_is_found_as_listed(
    commit: ObjectId,
    dir: Seq<char>,
    answers: TreeAnswers,
    i: int,
)
    requires
        dir == normal_path(dir),
        directory_listing(commit, dir, answers) is Ok,
        0 <= i < directory_listing(commit, dir, answers)->Ok_0.len(),
        ({
            let raw = directory_entries(commit, dir, answers)->Ok_0[i]->Ok_0;
            let name = directory_listing(commit, dir, answers)->Ok_0[i].name;
            &&& name.len() > 0
            &&& name[0] != '/'
            &&& name.last() != '/'
            &&& (answers.entry)(commit, joined(dir, name)) == Ok::<_, Seq<char>>(
                Some(FoundEntry { mode: raw.mode, id: raw.id }),
            )
        }),
    ensures
        ({
            let line = directory_listing(commit, dir, answers)->Ok_0[i];
            let path = joined(dir, line.name);
            let found = blob_at(path, (answers.entry)(commit, path));
            match line.kind {
                Kind::File => found is Ok && found->Ok_0.hex() == line.oid,
                Kind::Symlink => found is Ok && found->Ok_0.hex() == line.oid,
                Kind::Dir => found == Err::<ObjectId, _>(
                    AppErrorView::BadRequest("not a file: "@ + path),
                ),
                Kind::Submodule => found == Err::<ObjectId, _>(
                    AppErrorView::BadRequest("not a file: "@ + path),
                ),
            }
        }),
{
    let line = directory_listing(commit, dir, answers)->Ok_0[i];
    let path = joined(dir, line.name);
    law_normalize_is_idempotent(dir);
    assert(path.last() == line.name.last());
    assert(dir.len() > 0 ==> path[0] == dir[0]);
    assert(normal_path(path) == path);
}

proof fn lemma_no_failure(
    reads: Seq<Result<RawEntryView, Seq<char>>>,
    size: spec_fn(ObjectId) -> Result<Option<u64>, Seq<char>>,
    i: int,
    n: int,
)
    requires
        0 <= i <= n <= reads.len(),
        forall|j: int|
            i <= j < n ==> (#[trigger] reads[j]) is Ok && (needs_size(reads[j]) ==> size(
                reads[j]->Ok_0.id,
            ) is Ok),
    ensures
        failure(reads, size, i) == failure(reads, size, n),
    decreases n - i,
{
    if i < n {
        assert(reads[i] is Ok);
        lemma_no_failure(reads, size, i + 1, n);
    }
}

proof fn lemma_none_absent(
    reads: Seq<Result<RawEntryView, Seq<char>>>,
    size: spec_fn(ObjectId) -> Result<Option<u64>, Seq<char>>,
    i: int,
)
    requires
        0 <= i,
        forall|j: int| i <= j < reads.len() ==> !is_absent(#[trigger] reads[j], size),
    ensures
        absent(reads, size, i).len() == 0,
    decreases reads.len() - i,
{
    if i < reads.len() {
        lemma_none_absent(reads, size, i + 1);
    }
}

/// A directory is listed entry for entry: as many lines as its tree has entries, and the line at
/// each position shows the entry at that position, by its own name, type, id and size. A directory
/// is reached from the tree of the commit itself if the path is empty, and through the entry at
/// the path if it is not.
pub proof fn law_listing_shows_every_entry(
    commit: ObjectId,
    path: Seq<char>,
    answers: TreeAnswers,
    entry: FoundEntry,
    data: Seq<u8>,
)
    requires
        (answers.root)(commit) is Ok,
        path.len() == 0 ==> (answers.root)(commit) == Ok::<_, Seq<char>>(data),
        path.len() > 0 ==> {
            &&& (answers.entry)(commit, path) == Ok::<_, Seq<char>>(Some(entry))
            &&& entry.mode / 4096 == 4
            &&& (answers.subtree)(entry.id) == Ok::<_, Seq<char>>(data)
        },
        data.len() > 0,
        forall|i: int|
            0 <= i < tree_entries(data).len() ==> (#[trigger] tree_entries(data)[i]) is Ok,
        forall|i: int|
            0 <= i < tree_entries(data).len() ==> {
                let raw = (#[trigger] tree_entries(data)[i])->Ok_0;
                raw.mode / 4096 == 8 || raw.mode / 4096 == 10 ==> (answers.size)(raw.id) is Ok && (
                answers.size)(raw.id)->Ok_0 is Some
            },
    ensures
        drive(TreeState::Root(commit), path, answers) matches Ok(lines) && {
            &&& lines.len() == tree_entries(data).len()
            &&& forall|i: int|
                0 <= i < lines.len() ==> {
                    let raw = tree_entries(data)[i]->Ok_0;
                    let line = #[trigger] lines[i];
                    let bits = raw.mode / 4096;
                    &&& valid_utf8(raw.name) ==> encode_utf8(line.name) == raw.name
                    &&& !valid_utf8(raw.name) ==> line.name == lossy_text(raw.name)
                    &&& line.oid == raw.id.hex()
                    &&& line.kind is Dir <==> bits == 4
                    &&& line.kind is File <==> bits == 8
                    &&& line.kind is Symlink <==> bits == 10
                    &&& bits == 4 ==> line.mode == "40000"@
                    &&& bits == 8 && (raw.mode / 64) % 2 == 0 ==> line.mode == "100644"@
                    &&& bits == 8 && (raw.mode / 64) % 2 == 1 ==> line.mode == "100755"@
                    &&& bits == 10 ==> line.mode == "120000"@
                    &&& bits != 4 && bits != 8 && bits != 10 ==> line.mode == "160000"@
                    &&& bits == 8 || bits == 10 ==> line.size == (answers.size)(raw.id)->Ok_0
                    &&& bits != 8 && bits != 10 ==> line.size is None
                }
        },
{
    law_read_tree_lists_the_directory(commit, path, answers);
    law_kind_is_in_the_mode(entry.mode);
    let reads = tree_entries(data);
    let size = answers.size;
    assert forall|j: int| 0 <= j < reads.len() implies (#[trigger] reads[j]) is Ok && (needs_size(
        reads[j],
    ) ==> size(reads[j]->Ok_0.id) is Ok) && !is_absent(reads[j], size) by {
        law_kind_is_in_the_mode(reads[j]->Ok_0.mode);
    }
    lemma_no_failure(reads, size, 0, reads.len() as int);
    lemma_none_absent(reads, size, 0);
    let lines = drive(TreeState::Root(commit), path, answers)->Ok_0;
    assert forall|i: int| 0 <= i < lines.len() implies {
        let raw = tree_entries(data)[i]->Ok_0;
        let line = #[trigger] lines[i];
        let bits = raw.mode / 4096;
        &&& valid_utf8(raw.name) ==> encode_utf8(line.name) == raw.name
        &&& !valid_utf8(raw.name) ==> line.name == lossy_text(raw.name)
        &&& line.oid == raw.id.hex()
        &&& line.kind is Dir <==> bits == 4
        &&& line.kind is File <==> bits == 8
        &&& line.kind is Symlink <==> bits == 10
        &&& bits == 4 ==> line.mode == "40000"@
        &&& bits == 8 && (raw.mode / 64) % 2 == 0 ==> line.mode == "100644"@
        &&& bits == 8 && (raw.mode / 64) % 2 == 1 ==> line.mode == "100755"@
        &&& bits == 10 ==> line.mode == "120000"@
        &&& bits != 4 && bits != 8 && bits != 10 ==> line.mode == "160000"@
        &&& bits == 8 || bits == 10 ==> line.size == (answers.size)(raw.id)->Ok_0
        &&& bits != 8 && bits != 10 ==> line.size is None
    } by {
        let raw = reads[i]->Ok_0;
        law_kind_is_in_the_mode(raw.mode);
        law_well_formed_bytes_are_shown_as_text(raw.name);
        assert(lines[i] == full_row(reads[i], size));
    }
}

/// An empty tree has an empty listing.
pub proof fn law_empty_tree_lists_nothing(
    commit: ObjectId,
    path: Seq<char>,
    answers: TreeAnswers,
    entry: FoundEntry,
    data: Seq<u8>,
)
    requires
        (answers.root)(commit) is Ok,
        path.len() == 0 ==> (answers.root)(commit) == Ok::<_, Seq<char>>(data),
        path.len() > 0 ==> {
            &&& (answers.entry)(commit, path) == Ok::<_, Seq<char>>(Some(entry))
            &&& entry.mode / 4096 == 4
            &&& (answers.subtree)(entry.id) == Ok::<_, Seq<char>>(data)
        },
        data.len() == 0,
    ensures
        drive(TreeState::Root(commit), path, answers) matches Ok(lines) && lines.len() == 0,
{
    law_read_tree_lists_the_directory(commit, path, answers);
    law_kind_is_in_the_mode(entry.mode);
}

/// The first entry that cannot be decoded, or whose size cannot be read, fails the listing with
/// its cause, whatever the cache lacks.
pub proof fn law_first_bad_entry_fails_the_listing(
    commit: ObjectId,
    path: Seq<char>,
    answers: TreeAnswers,
    entry: FoundEntry,
    data: Seq<u8>,
    n: int,
)
    requires
        (answers.root)(commit) is Ok,
        path.len() == 0 ==> (answers.root)(commit) == Ok::<_, Seq<char>>(data),
        path.len() > 0 ==> {
            &&& (answers.entry)(commit, path) == Ok::<_, Seq<char>>(Some(entry))
            &&& entry.mode / 4096 == 4
            &&& (answers.subtree)(entry.id) == Ok::<_, Seq<char>>(data)
        },
        data.len() > 0,
        0 <= n < tree_entries(data).len(),
        forall|i: int| 0 <= i < n ==> (#[trigger] tree_entries(data)[i]) is Ok,
        forall|i: int|
            0 <= i < n ==> {
                let raw = (#[trigger] tree_entries(data)[i])->Ok_0;
                raw.mode / 4096 == 8 || raw.mode / 4096 == 10 ==> (answers.size)(raw.id) is Ok
            },
    ensures
        tree_entries(data)[n] matches Err(cause) ==> drive(
            TreeState::Root(commit),
            path,
            answers,
        ) == Err::<Seq<TreeEntryView>, _>(AppErrorView::Internal(cause)),
        tree_entries(data)[n] matches Ok(raw) ==> (raw.mode / 4096 == 8 || raw.mode / 4096 == 10)
            && (answers.size)(raw.id) is Err ==> drive(TreeState::Root(commit), path, answers)
            == Err::<Seq<TreeEntryView>, _>(
            AppErrorView::Internal((answers.size)(raw.id)->Err_0),
        ),
{
    law_read_tree_lists_the_directory(commit, path, answers);
    law_kind_is_in_the_mode(entry.mode);
    let reads = tree_entries(data);
    assert forall|j: int| 0 <= j < n implies (#[trigger] reads[j]) is Ok && (needs_size(reads[j])
        ==> (answers.size)(reads[j]->Ok_0.id) is Ok) by {
        law_kind_is_in_the_mode(reads[j]->Ok_0.mode);
    }
    lemma_no_failure(reads, answers.size, 0, n);
    if let Ok(raw) = reads[n] {
        law_kind_is_in_the_mode(raw.mode);
    }
}

proof fn lemma_absent_in_order(
    reads: Seq<Result<RawEntryView, Seq<char>>>,
    size: spec_fn(ObjectId) -> Result<Option<u64>, Seq<char>>,
    i: int,
    lack: spec_fn(Result<RawEntryView, Seq<char>>) -> bool,
    id: spec_fn(Result<RawEntryView, Seq<char>>) -> ObjectId,
)
    requires
        0 <= i <= reads.len(),
        forall|r: Result<RawEntryView, Seq<char>>| #[trigger] lack(r) <==> is_absent(r, size),
        forall|r: Result<RawEntryView, Seq<char>>| #[trigger] id(r) == r->Ok_0.id,
    ensures
        absent(reads, size, i) == reads.skip(i).filter(lack).map_values(id),
    decreases reads.len() - i,
{
    let rest = reads.skip(i);
    if i == reads.len() {
        assert(rest =~= Seq::empty());
        reveal(Seq::filter);
        assert(rest.filter(lack) =~= Seq::empty());
        assert(rest.filter(lack).map_values(id) =~= Seq::empty());
    } else {
        lemma_absent_in_order(reads, size, i + 1, lack, id);
        lemma_filter_front(rest, lack);
        assert(rest.skip(1) =~= reads.skip(i + 1));
        let tail = rest.skip(1).filter(lack);
        assert((seq![rest[0]] + tail).map_values(id) =~= seq![id(rest[0])] + tail.map_values(id));
    }
}

/// Where every entry can be decoded but the cache lacks files or links, the listing is what it
/// lacks: the ids of exactly those entries, in the order of the tree.
pub proof fn law_lacking_entries_are_asked_for_in_order(
    commit: ObjectId,
    path: Seq<char>,
    answers: TreeAnswers,
    entry: FoundEntry,
    data: Seq<u8>,
)
    requires
        (answers.root)(commit) is Ok,
        path.len() == 0 ==> (answers.root)(commit) == Ok::<_, Seq<char>>(data),
        path.len() > 0 ==> {
            &&& (answers.entry)(commit, path) == Ok::<_, Seq<char>>(Some(entry))
            &&& entry.mode / 4096 == 4
            &&& (answers.subtree)(entry.id) == Ok::<_, Seq<char>>(data)
        },
        data.len() > 0,
        forall|i: int|
            0 <= i < tree_entries(data).len() ==> (#[trigger] tree_entries(data)[i]) is Ok,
        forall|i: int|
            0 <= i < tree_entries(data).len() ==> {
                let raw = (#[trigger] tree_entries(data)[i])->Ok_0;
                raw.mode / 4096 == 8 || raw.mode / 4096 == 10 ==> (answers.size)(raw.id) is Ok
            },
    ensures
        ({
            let lacking = tree_entries(data).filter(
                |r: Result<RawEntryView, Seq<char>>|
                    r is Ok && (r->Ok_0.mode / 4096 == 8 || r->Ok_0.mode / 4096 == 10) && (
                    answers.size)(r->Ok_0.id) == Ok::<Option<u64>, Seq<char>>(None),
            );
            lacking.len() > 0 ==> drive(TreeState::Root(commit), path, answers) == Err::<
                Seq<TreeEntryView>,
                _,
            >(
                AppErrorView::MissingObjects(
                    lacking.map_values(|r: Result<RawEntryView, Seq<char>>| r->Ok_0.id),
                ),
            )
        }),
{
    law_read_tree_lists_the_directory(commit, path, answers);
    law_kind_is_in_the_mode(entry.mode);
    let reads = tree_entries(data);
    let size = answers.size;
    let lack = |r: Result<RawEntryView, Seq<char>>|
        r is Ok && (r->Ok_0.mode / 4096 == 8 || r->Ok_0.mode / 4096 == 10) && (answers.size)(
            r->Ok_0.id,
        ) == Ok::<Option<u64>, Seq<char>>(None);
    let id = |r: Result<RawEntryView, Seq<char>>| r->Ok_0.id;
    assert forall|r: Result<RawEntryView, Seq<char>>| #[trigger]
        lack(r) <==> is_absent(r, size) by {
        if r is Ok {
            law_kind_is_in_the_mode(r->Ok_0.mode);
        }
    }
    assert forall|j: int| 0 <= j < reads.len() implies (#[trigger] reads[j]) is Ok && (needs_size(
        reads[j],
    ) ==> size(reads[j]->Ok_0.id) is Ok) by {
        law_kind_is_in_the_mode(reads[j]->Ok_0.mode);
    }
    lemma_no_failure(reads, size, 0, reads.len() as int);
    lemma_absent_in_order(reads, size, 0, lack, id);
    assert(reads.skip(0) =~= reads);
}

/// What a listing that does not reach a directory is answered: nothing at the path is not found,
/// what is no directory is a bad request, and a failed read is internal. The path is named.
pub proof fn law_unreachable_directories_are_refused(
    commit: ObjectId,
    path: Seq<char>,
    answers: TreeAnswers,
    entry: FoundEntry,
    cause: Seq<char>,
)
    ensures
        (answers.root)(commit) == Err::<Seq<u8>, _>(cause) ==> drive(
            TreeState::Root(commit),
            path,
            answers,
        ) == Err::<Seq<TreeEntryView>, _>(AppErrorView::Internal(cause)),
        (answers.root)(commit) is Ok && path.len() > 0 ==> {
            let result = drive(TreeState::Root(commit), path, answers);
            let found = (answers.entry)(commit, path);
            &&& found == Err::<Option<FoundEntry>, _>(cause) ==> result == Err::<
                Seq<TreeEntryView>,
                _,
            >(AppErrorView::Internal(cause))
            &&& found == Ok::<Option<FoundEntry>, Seq<char>>(None) ==> result == Err::<
                Seq<TreeEntryView>,
                _,
            >(AppErrorView::PathNotFound(path))
            &&& found == Ok::<_, Seq<char>>(Some(entry)) && entry.mode / 4096 != 4 ==> result
                == Err::<Seq<TreeEntryView>, _>(
                AppErrorView::BadRequest("not a directory: "@ + path),
            )
            &&& found == Ok::<_, Seq<char>>(Some(entry)) && entry.mode / 4096 == 4 && (
            answers.subtree)(entry.id) == Err::<Seq<u8>, _>(cause) ==> result == Err::<
                Seq<TreeEntryView>,
                _,
            >(AppErrorView::Internal(cause))
        },
{
    law_read_tree_lists_the_directory(commit, path, answers);
    law_kind_is_in_the_mode(entry.mode);
}

/// The size that is asked for is that of the first entry that is not listed yet, and it is asked
/// only of files and links.
pub proof fn law_sizes_are_asked_in_order(id: ObjectId, data: Seq<u8>)
    requires
        data.len() > 0,
    ensures
        match (TreeState::Subtree(id)).after_subtree(Ok(data)) {
            TreeState::Sizes { reads, rows, missing } => {
                let state = TreeState::Sizes { reads, rows, missing };
                &&& reads == tree_entries(data)
                &&& rows.len() < reads.len()
                &&& reads[rows.len() as int] matches Ok(raw) && state.wanted_size() == Some(raw.id)
                    && (raw.mode / 4096 == 8 || raw.mode / 4096 == 10)
                &&& missing.len() == 0
            },
            TreeState::Done(_) => true,
            _ => false,
        },
{
    lemma_list_from_goes_on(entries_in(data), Seq::empty(), Seq::empty());
    let state = (TreeState::Subtree(id)).after_subtree(Ok(data));
    if let TreeState::Sizes { reads, rows, .. } = state {
        law_kind_is_in_the_mode(reads[rows.len() as int]->Ok_0.mode);
    }
}

/// What was read is seen as it was read, and a listing with each of its lines in full.
pub proof fn law_listing_is_seen_as_it_is(
    data: Result<Vec<u8>, String>,
    size: Result<Option<u64>, String>,
    lines: Result<Vec<TreeEntry>, AppError>,
    line: TreeEntry,
)
    ensures
        data matches Ok(bytes) ==> data_view(data) == Ok::<_, Seq<char>>(bytes@),
        data matches Err(e) ==> data_view(data) == Err::<Seq<u8>, Seq<char>>(e@),
        size matches Ok(n) ==> size_view(size) == Ok::<_, Seq<char>>(n),
        size matches Err(e) ==> size_view(size) == Err::<Option<u64>, Seq<char>>(e@),
        lines matches Ok(all) ==> {
            &&& listing_view(lines) is Ok
            &&& listing_view(lines)->Ok_0.len() == all@.len()
            &&& forall|i: int|
                0 <= i < all@.len() ==> #[trigger] listing_view(lines)->Ok_0[i] == all@[i]@
        },
        lines matches Err(e) ==> listing_view(lines) == Err::<Seq<TreeEntryView>, _>(e@),
        line@.name == line.name@,
        line@.kind == line.kind,
        line@.mode == line.mode@,
        line@.oid == line.oid@,
        line@.size == line.size,
{
}

} // verus!
