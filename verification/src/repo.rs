//! What a repository holds: references, commits, blobs.
//!
//! The caller reads the repository; the functions here take what it read and decide what that
//! makes.
use vstd::prelude::*;
use vstd::string::*;
use vstd::utf8::{decode_utf8, encode_utf8, valid_utf8};

pub use crate::log::log;
pub use crate::tree::{read_tree, TreeEntry};

use crate::decode::{
    author_of, commit_message, committer_of, decode_author, decode_committer, format_time,
    header_time, heads_prefix, iso_time, law_names_lose_their_prefix, law_text_reads_back,
    law_well_formed_bytes_are_shown_as_text, lossy_text, message_of, parse_time, short_form,
    short_name, short_name_of, tags_prefix, text_of, to_text, RawSignature, RawSignatureView,
};
use crate::error::{AppError, AppErrorView};
use crate::object_id::ObjectId;
use crate::text::{
    has_prefix, law_trimming_takes_the_ends_alone, lemma_views_push, opt_view, res_view, slash,
    trim_slashes, trimmed, views,
};

verus! {

/// A branch or a tag.
#[derive(Debug)]
pub struct RefInfo {
    pub name: String,
    /// Object the ref points to after peeling annotated tags.
    pub target: String,
}

/// The view of a [`RefInfo`].
#[verifier::ext_equal]
pub struct RefInfoView {
    pub name: Seq<char>,
    pub target: Seq<char>,
}

impl View for RefInfo {
    type V = RefInfoView;

    open spec fn view(&self) -> RefInfoView {
        RefInfoView { name: self.name@, target: self.target@ }
    }
}

/// The references of a repository.
#[derive(Debug)]
pub struct Refs {
    pub head: Option<String>,
    pub branches: Vec<RefInfo>,
    pub tags: Vec<RefInfo>,
}

/// The view of [`Refs`].
#[verifier::ext_equal]
pub struct RefsView {
    pub head: Option<Seq<char>>,
    pub branches: Seq<RefInfoView>,
    pub tags: Seq<RefInfoView>,
}

impl View for Refs {
    type V = RefsView;

    open spec fn view(&self) -> RefsView {
        RefsView {
            head: opt_view(self.head),
            branches: views(self.branches@),
            tags: views(self.tags@),
        }
    }
}

/// A reference that was read: its full name, and the object that peeling it led to.
#[derive(Debug)]
pub struct FoundRef {
    pub name: Vec<u8>,
    pub target: Result<ObjectId, String>,
}

/// What reading one reference gave: the reference, or why it cannot be read.
#[derive(Debug)]
pub struct RefRead {
    pub result: Result<FoundRef, String>,
}

/// The view of a [`RefRead`]: a reference with its full name and the object that peeling it led
/// to, one that cannot be peeled, or none.
pub enum RefReadView {
    Found { name: Seq<u8>, target: ObjectId },
    Unpeeled { name: Seq<u8>, cause: Seq<char> },
    Failed(Seq<char>),
}

impl View for RefRead {
    type V = RefReadView;

    open spec fn view(&self) -> RefReadView {
        match self.result {
            Ok(found) => match found.target {
                Ok(target) => RefReadView::Found { name: found.name@, target },
                Err(e) => RefReadView::Unpeeled { name: found.name@, cause: e@ },
            },
            Err(e) => RefReadView::Failed(e@),
        }
    }
}

/// The text of a short name, or the error of a name that is not valid. Names that were read from a
/// repository are valid.
pub open spec fn name_text(short: Result<Seq<u8>, Seq<char>>) -> Result<Seq<char>, AppErrorView> {
    match short {
        Ok(short) => Ok(text_of(short)),
        Err(e) => Err(AppErrorView::Internal(e)),
    }
}

/// What is listed for a reference with this short name: the name and the hex digits of the peeled
/// object.
pub open spec fn described_ref(short: Result<Seq<u8>, Seq<char>>, target: ObjectId) -> Result<
    RefInfoView,
    AppErrorView,
> {
    match name_text(short) {
        Ok(name) => Ok(RefInfoView { name, target: target.hex() }),
        Err(e) => Err(e),
    }
}

/// What is listed for a reference: its short name and the hex digits of the peeled object.
pub open spec fn ref_info(read: RefReadView) -> Result<RefInfoView, AppErrorView> {
    match read {
        RefReadView::Found { name, target } => described_ref(short_form(name), target),
        RefReadView::Unpeeled { cause, .. } => Err(AppErrorView::Internal(cause)),
        RefReadView::Failed(e) => Err(AppErrorView::Internal(e)),
    }
}

/// What is listed for several references: all of them, or the first failure.
pub open spec fn ref_infos(reads: Seq<RefReadView>) -> Result<Seq<RefInfoView>, AppErrorView>
    decreases reads.len(),
{
    if reads.len() == 0 {
        Ok(Seq::empty())
    } else {
        match ref_infos(reads.drop_last()) {
            Ok(infos) => match ref_info(reads.last()) {
                Ok(info) => Ok(infos.push(info)),
                Err(e) => Err(e),
            },
            Err(e) => Err(e),
        }
    }
}

/// The references of a repository, or the first failure: HEAD comes first, branches before tags.
pub open spec fn refs_listing(
    head: Result<Option<Seq<u8>>, Seq<char>>,
    branches: Result<Seq<RefReadView>, Seq<char>>,
    tags: Result<Seq<RefReadView>, Seq<char>>,
) -> Result<RefsView, AppErrorView> {
    match head_name(head) {
        Err(e) => Err(e),
        Ok(head) => match read_refs(branches) {
            Err(e) => Err(e),
            Ok(branches) => match read_refs(tags) {
                Err(e) => Err(e),
                Ok(tags) => Ok(RefsView { head, branches, tags }),
            },
        },
    }
}

/// The short name of the branch that HEAD names, if it names one.
pub open spec fn head_name(head: Result<Option<Seq<u8>>, Seq<char>>) -> Result<
    Option<Seq<char>>,
    AppErrorView,
> {
    match head {
        Err(e) => Err(AppErrorView::Internal(e)),
        Ok(None) => Ok(None),
        Ok(Some(name)) => match name_text(short_form(name)) {
            Ok(text) => Ok(Some(text)),
            Err(e) => Err(e),
        },
    }
}

/// [`ref_infos`] of references whose iteration may already have failed.
pub open spec fn read_refs(reads: Result<Seq<RefReadView>, Seq<char>>) -> Result<
    Seq<RefInfoView>,
    AppErrorView,
> {
    match reads {
        Err(e) => Err(AppErrorView::Internal(e)),
        Ok(reads) => ref_infos(reads),
    }
}

/// The view of what iterating references gave.
pub open spec fn reads_view(reads: Result<Vec<RefRead>, String>) -> Result<
    Seq<RefReadView>,
    Seq<char>,
> {
    match reads {
        Ok(reads) => Ok(views(reads@)),
        Err(e) => Err(e@),
    }
}

/// The view of what reading the name behind HEAD gave.
pub open spec fn head_view(head: Result<Option<Vec<u8>>, String>) -> Result<
    Option<Seq<u8>>,
    Seq<char>,
> {
    match head {
        Ok(name) => Ok(opt_view(name)),
        Err(e) => Err(e@),
    }
}

/// The text of a short name, or the error of a name that is not valid.
pub fn describe_name(short: Result<Vec<u8>, String>) -> (r: Result<String, AppError>)
    ensures
        res_view(r) == name_text(res_view(short)),
{
    match short {
        Ok(short) => Ok(to_text(short.as_slice())),
        Err(e) => Err(AppError::internal(e)),
    }
}

/// What is listed for a reference with this short name that peels to `target`.
pub fn describe_ref(short: Result<Vec<u8>, String>, target: ObjectId) -> (r: Result<
    RefInfo,
    AppError,
>)
    ensures
        res_view(r) == described_ref(res_view(short), target),
{
    match describe_name(short) {
        Ok(name) => Ok(RefInfo { name, target: target.to_hex() }),
        Err(e) => Err(e),
    }
}

fn list_ref(read: RefRead) -> (r: Result<RefInfo, AppError>)
    ensures
        res_view(r) == ref_info(read@),
{
    match read.result {
        Err(e) => Err(AppError::internal(e)),
        Ok(found) => match found.target {
            Err(e) => Err(AppError::internal(e)),
            Ok(target) => describe_ref(short_name_of(found.name.as_slice()), target),
        },
    }
}

proof fn lemma_first_failure(reads: Seq<RefReadView>, i: int)
    requires
        0 <= i < reads.len(),
        ref_infos(reads.take(i + 1)) is Err,
    ensures
        ref_infos(reads) == ref_infos(reads.take(i + 1)),
    decreases reads.len(),
{
    if i + 1 == reads.len() {
        assert(reads.take(i + 1) =~= reads);
    } else {
        assert(reads.drop_last().take(i + 1) =~= reads.take(i + 1));
        lemma_first_failure(reads.drop_last(), i);
    }
}

/// Whether `info` lists a reference that was read: under its peeled object and, where its name
/// begins with `prefix` and goes on in well-formed UTF-8, under the text of the rest.
pub open spec fn lists(info: RefInfoView, read: RefReadView, prefix: Seq<u8>) -> bool {
    read matches RefReadView::Found { name, target } && {
        let rest = name.skip(prefix.len() as int);
        &&& info.target == target.hex()
        &&& has_prefix(name, prefix) && valid_utf8(rest) ==> info.name == decode_utf8(rest)
    }
}

/// Whether `infos` list the references that were read, in their order.
pub open spec fn all_listed(
    infos: Seq<RefInfoView>,
    reads: Seq<RefReadView>,
    prefix: Seq<u8>,
) -> bool {
    &&& infos.len() == reads.len()
    &&& forall|i: int| 0 <= i < reads.len() ==> lists(#[trigger] infos[i], reads[i], prefix)
}

/// Branches and tags are listed in the order in which they were read, each under its peeled object
/// and under what follows `refs/heads/` or `refs/tags/` in its name.
pub proof fn law_refs_are_listed_by_their_own_names(reads: Seq<RefReadView>)
    requires
        ref_infos(reads) is Ok,
    ensures
        all_listed(ref_infos(reads)->Ok_0, reads, heads_prefix()),
        all_listed(ref_infos(reads)->Ok_0, reads, tags_prefix()),
{
    let infos = ref_infos(reads)->Ok_0;
    law_every_ref_is_listed(reads);
    assert forall|i: int| 0 <= i < reads.len() implies lists(
        #[trigger] infos[i],
        reads[i],
        heads_prefix(),
    ) && lists(infos[i], reads[i], tags_prefix()) by {
        assert(ref_info(reads[i]) == Ok::<_, AppErrorView>(infos[i]));
        if let RefReadView::Found { name, .. } = reads[i] {
            if has_prefix(name, heads_prefix()) && has_prefix(name, tags_prefix()) {
                assert(name[5] == name.take(11)[5]);
                assert(name[5] == name.take(10)[5]);
            }
        }
    }
}

fn collect_refs(reads: Result<Vec<RefRead>, String>) -> (r: Result<Vec<RefInfo>, AppError>)
    ensures
        match r {
            Ok(infos) => read_refs(reads_view(reads)) == Ok::<_, AppErrorView>(views(infos@)),
            Err(e) => read_refs(reads_view(reads)) == Err::<Seq<RefInfoView>, _>(e@),
        },
{
    let ghost want = read_refs(reads_view(reads));
    let found = match reads {
        Ok(found) => found,
        Err(e) => return Err(AppError::internal(e)),
    };
    let ghost all = views(found@);
    let mut infos: Vec<RefInfo> = Vec::new();
    assert(views(infos@) =~= Seq::<RefInfoView>::empty());
    assert(all.take(0) =~= Seq::<RefReadView>::empty());
    for read in it: found
        invariant
            want == read_refs(reads_view(reads)),
            want == ref_infos(all),
            all == views(it.seq()),
            ref_infos(all.take(it.index() as int)) == Ok::<_, AppErrorView>(views(infos@)),
    {
        let ghost i = it.index() as int;
        let ghost before = infos@;
        proof {
            assert(all.take(i + 1).drop_last() =~= all.take(i));
            assert(all.take(i + 1).last() == read@);
        }
        match list_ref(read) {
            Ok(info) => {
                proof {
                    lemma_views_push(before, info);
                }
                infos.push(info);
            },
            Err(e) => {
                proof {
                    lemma_first_failure(all, i);
                }
                return Err(e);
            },
        }
    }
    assert(all.take(all.len() as int) =~= all);
    Ok(infos)
}

/// Lists HEAD, the branches and the tags.
pub fn list_refs(
    head: Result<Option<Vec<u8>>, String>,
    branches: Result<Vec<RefRead>, String>,
    tags: Result<Vec<RefRead>, String>,
) -> (r: Result<Refs, AppError>)
    ensures
        res_view(r) == refs_listing(head_view(head), reads_view(branches), reads_view(tags)),
        r matches Ok(refs) ==> {
            &&& branches is Ok && all_listed(
                views(refs.branches@),
                views(branches->Ok_0@),
                heads_prefix(),
            )
            &&& tags is Ok && all_listed(views(refs.tags@), views(tags->Ok_0@), tags_prefix())
            &&& head matches Ok(Some(name)) ==> has_prefix(name@, heads_prefix()) && valid_utf8(
                name@.skip(11),
            ) ==> opt_view(refs.head) == Some(decode_utf8(name@.skip(11)))
        },
{
    proof {
        if branches is Ok && ref_infos(views(branches->Ok_0@)) is Ok {
            law_refs_are_listed_by_their_own_names(views(branches->Ok_0@));
        }
        if tags is Ok && ref_infos(views(tags->Ok_0@)) is Ok {
            law_refs_are_listed_by_their_own_names(views(tags->Ok_0@));
        }
    }
    let head: Option<String> = match head {
        Err(e) => return Err(AppError::internal(e)),
        Ok(None) => None,
        Ok(Some(name)) => match describe_name(short_name_of(name.as_slice())) {
            Ok(text) => Some(text),
            Err(e) => return Err(e),
        },
    };
    let branches = match collect_refs(branches) {
        Ok(infos) => infos,
        Err(e) => return Err(e),
    };
    let tags = match collect_refs(tags) {
        Ok(infos) => infos,
        Err(e) => return Err(e),
    };
    Ok(Refs { head, branches, tags })
}

/// Every reference that was read is listed, in the order in which it was read.
pub proof fn law_every_ref_is_listed(reads: Seq<RefReadView>)
    requires
        ref_infos(reads) is Ok,
    ensures
        ref_infos(reads)->Ok_0.len() == reads.len(),
        forall|i: int|
            0 <= i < reads.len() ==> ref_info(#[trigger] reads[i]) == Ok::<_, AppErrorView>(
                ref_infos(reads)->Ok_0[i],
            ),
    decreases reads.len(),
{
    if reads.len() > 0 {
        law_every_ref_is_listed(reads.drop_last());
        assert forall|i: int| 0 <= i < reads.len() implies ref_info(#[trigger] reads[i]) == Ok::<
            _,
            AppErrorView,
        >(ref_infos(reads)->Ok_0[i]) by {
            if i < reads.len() - 1 {
                assert(reads.drop_last()[i] == reads[i]);
            }
        }
    }
}

/// What looking up a revision gave.
#[derive(Debug)]
pub enum RevRead {
    /// The revision names nothing.
    Unknown,
    /// The object that it names cannot be read.
    Unreadable(String),
    /// The object that it names does not peel to a commit.
    NoCommit,
    /// The commit that it names, after peeling tags.
    Commit(ObjectId),
}

/// The commit that a revision names, or what a request for it is answered if it names none.
pub open spec fn commit_of(rev: Seq<char>, read: RevRead) -> Result<ObjectId, AppErrorView> {
    match read {
        RevRead::Unknown => Err(AppErrorView::RefNotFound(rev)),
        RevRead::Unreadable(e) => Err(AppErrorView::Internal(e@)),
        RevRead::NoCommit => Err(AppErrorView::RefNotFound(rev)),
        RevRead::Commit(id) => Ok(id),
    }
}

/// The commit `rev` names, peeling tags.
pub fn resolve_commit(rev: &str, read: RevRead) -> (r: Result<ObjectId, AppError>)
    ensures
        res_view(r) == commit_of(rev@, read),
{
    match read {
        RevRead::Unknown => Err(AppError::RefNotFound(rev.to_owned())),
        RevRead::Unreadable(e) => Err(AppError::internal(e)),
        RevRead::NoCommit => Err(AppError::RefNotFound(rev.to_owned())),
        RevRead::Commit(id) => Ok(id),
    }
}

/// A path without slashes at its ends.
pub open spec fn normal_path(path: Seq<char>) -> Seq<char> {
    trimmed(path, slash())
}

/// `path` without slashes at its ends.
pub fn normalize(path: &str) -> (r: &str)
    ensures
        r@ == normal_path(path@),
{
    trim_slashes(path)
}

proof fn lemma_normal_path_ends(path: Seq<char>)
    ensures
        normal_path(path).len() > 0 ==> normal_path(path)[0] != '/' && normal_path(path).last()
            != '/',
    decreases path.len(),
{
    if path.len() > 0 {
        if path[0] == '/' {
            lemma_normal_path_ends(path.skip(1));
        } else if path.last() == '/' {
            lemma_normal_path_ends(path.drop_last());
        }
    }
}

/// A normalized path neither begins nor ends with a slash, and normalizing it again changes
/// nothing.
pub proof fn law_normalize_is_idempotent(path: Seq<char>)
    ensures
        normal_path(normal_path(path)) == normal_path(path),
        normal_path(path).len() > 0 ==> normal_path(path)[0] != '/' && normal_path(path).last()
            != '/',
{
    lemma_normal_path_ends(path);
}

/// A slash more at either end of a path makes no difference.
pub proof fn law_outer_slashes_do_not_count(path: Seq<char>)
    ensures
        normal_path(seq!['/'] + path) == normal_path(path),
        normal_path(path.push('/')) == normal_path(path),
    decreases path.len(),
{
    assert((seq!['/'] + path).skip(1) =~= path);
    let p = path.push('/');
    if path.len() == 0 {
        assert(p.skip(1) =~= path);
    } else if path[0] == '/' {
        assert(p.skip(1) =~= path.skip(1).push('/'));
        law_outer_slashes_do_not_count(path.skip(1));
    } else {
        assert(p.drop_last() =~= path);
    }
}

/// The kinds of entries that a tree can hold.
#[derive(Clone, Copy, PartialEq, Eq, Structural, Debug)]
pub enum EntryKind {
    Tree,
    Blob,
    BlobExecutable,
    Link,
    Commit,
}

/// What an entry is for a client.
#[derive(Clone, Copy, PartialEq, Eq, Structural, Debug)]
pub enum Kind {
    File,
    Dir,
    Symlink,
    Submodule,
}

impl EntryKind {
    /// The kind that the mode of an entry says: the type is in its upper bits, and an executable
    /// file has the owner's execute bit.
    pub open spec fn of_mode(mode: u16) -> EntryKind {
        let file_type = mode & 0o170000;
        if file_type == 0o100000 {
            if mode & 0o100 == 0o100 {
                EntryKind::BlobExecutable
            } else {
                EntryKind::Blob
            }
        } else if file_type == 0o120000 {
            EntryKind::Link
        } else if file_type == 0o040000 {
            EntryKind::Tree
        } else {
            EntryKind::Commit
        }
    }

    /// The mode as git writes it.
    pub open spec fn octal(self) -> Seq<char> {
        match self {
            EntryKind::Tree => "40000"@,
            EntryKind::Blob => "100644"@,
            EntryKind::BlobExecutable => "100755"@,
            EntryKind::Link => "120000"@,
            EntryKind::Commit => "160000"@,
        }
    }

    /// What the entry is for a client.
    pub open spec fn public_kind(self) -> Kind {
        match self {
            EntryKind::Tree => Kind::Dir,
            EntryKind::Blob => Kind::File,
            EntryKind::BlobExecutable => Kind::File,
            EntryKind::Link => Kind::Symlink,
            EntryKind::Commit => Kind::Submodule,
        }
    }

    /// Whether the entry has contents of its own, and so a size.
    pub open spec fn has_size(self) -> bool {
        self is Blob || self is BlobExecutable || self is Link
    }

    /// The kind that the mode of an entry says.
    pub fn from_mode(mode: u16) -> (r: EntryKind)
        ensures
            r == EntryKind::of_mode(mode),
    {
        let file_type: u16 = mode & 0o170000;
        if file_type == 0o100000 {
            if mode & 0o100 == 0o100 {
                EntryKind::BlobExecutable
            } else {
                EntryKind::Blob
            }
        } else if file_type == 0o120000 {
            EntryKind::Link
        } else if file_type == 0o040000 {
            EntryKind::Tree
        } else {
            EntryKind::Commit
        }
    }

    /// The mode as git writes it.
    pub fn as_octal_str(self) -> (r: &'static str)
        ensures
            r@ == self.octal(),
    {
        match self {
            EntryKind::Tree => "40000",
            EntryKind::Blob => "100644",
            EntryKind::BlobExecutable => "100755",
            EntryKind::Link => "120000",
            EntryKind::Commit => "160000",
        }
    }

    /// Whether the entry has contents of its own, and so a size.
    pub fn is_blob_or_symlink(self) -> (r: bool)
        ensures
            r == self.has_size(),
    {
        match self {
            EntryKind::Blob => true,
            EntryKind::BlobExecutable => true,
            EntryKind::Link => true,
            EntryKind::Tree => false,
            EntryKind::Commit => false,
        }
    }
}

/// What an entry is for a client.
pub fn entry_kind(kind: EntryKind) -> (r: Kind)
    ensures
        r == kind.public_kind(),
{
    match kind {
        EntryKind::Tree => Kind::Dir,
        EntryKind::Blob => Kind::File,
        EntryKind::BlobExecutable => Kind::File,
        EntryKind::Link => Kind::Symlink,
        EntryKind::Commit => Kind::Submodule,
    }
}

/// The entry that a lookup by path found.
#[derive(Clone, Copy, PartialEq, Eq, Structural, Debug)]
pub struct FoundEntry {
    pub mode: u16,
    pub id: ObjectId,
}

/// Whether two lookups found the same entry, in mode and object, or both found none.
pub fn same_entry(a: &Option<FoundEntry>, b: &Option<FoundEntry>) -> (r: bool)
    ensures
        r == (*a == *b),
{
    match (a, b) {
        (Some(x), Some(y)) => x.mode == y.mode && x.id == y.id,
        (None, None) => true,
        _ => false,
    }
}

/// The view of what a lookup by path gave.
pub open spec fn found_view(found: Result<Option<FoundEntry>, String>) -> Result<
    Option<FoundEntry>,
    Seq<char>,
> {
    match found {
        Ok(entry) => Ok(entry),
        Err(e) => Err(e@),
    }
}

/// The blob that a lookup of `path` leads to.
pub open spec fn blob_at(
    path: Seq<char>,
    found: Result<Option<FoundEntry>, Seq<char>>,
) -> Result<ObjectId, AppErrorView> {
    match found {
        Err(e) => Err(AppErrorView::Internal(e)),
        Ok(None) => Err(AppErrorView::PathNotFound(normal_path(path))),
        Ok(Some(entry)) => if EntryKind::of_mode(entry.mode).has_size() {
            Ok(entry.id)
        } else {
            Err(AppErrorView::BadRequest("not a file: "@ + normal_path(path)))
        },
    }
}

/// Returns the blob id of the file at `path`, so callers can answer conditional requests without
/// reading it. `found` is what looking up the normalized path in the root tree gave.
pub fn find_blob(path: &str, found: Result<Option<FoundEntry>, String>) -> (r: Result<
    ObjectId,
    AppError,
>)
    ensures
        res_view(r) == blob_at(path@, found_view(found)),
{
    let path = normalize(path);
    match found {
        Err(e) => Err(AppError::internal(e)),
        Ok(None) => Err(AppError::PathNotFound(path.to_owned())),
        Ok(Some(entry)) => if EntryKind::from_mode(entry.mode).is_blob_or_symlink() {
            Ok(entry.id)
        } else {
            Err(AppError::BadRequest("not a file: ".to_owned().concat(path)))
        },
    }
}

/// What reading an object as a blob gave.
#[derive(Debug)]
pub enum BlobRead {
    /// The object database cannot be read.
    Failed(String),
    /// The object is not there.
    Missing,
    /// The object is something else; the text says what.
    NoBlob(String),
    /// The contents.
    Data(Vec<u8>),
}

/// The contents of the blob `id`, or why there are none.
pub open spec fn blob_data(id: ObjectId, read: BlobRead) -> Result<Seq<u8>, AppErrorView> {
    match read {
        BlobRead::Failed(e) => Err(AppErrorView::Internal(e@)),
        BlobRead::Missing => Err(AppErrorView::MissingObjects(seq![id])),
        BlobRead::NoBlob(e) => Err(AppErrorView::Internal(e@)),
        BlobRead::Data(data) => Ok(data@),
    }
}

/// The contents of the blob `id`.
pub fn read_blob(id: ObjectId, read: BlobRead) -> (r: Result<Vec<u8>, AppError>)
    ensures
        res_view(r) == blob_data(id, read),
        r is Ok <==> read is Data,
        read matches BlobRead::Data(data) ==> r is Ok && r->Ok_0@ == data@,
{
    match read {
        BlobRead::Failed(e) => Err(AppError::internal(e)),
        BlobRead::Missing => {
            let ids: Vec<ObjectId> = vec![id];
            assert(ids@ =~= seq![id]);
            Err(AppError::MissingObjects(ids))
        },
        BlobRead::NoBlob(e) => Err(AppError::internal(e)),
        BlobRead::Data(data) => Ok(data),
    }
}

/// Who made a commit, and when.
#[derive(Debug)]
pub struct Signature {
    pub name: String,
    pub email: String,
    pub time: String,
}

/// The view of a [`Signature`].
#[verifier::ext_equal]
pub struct SignatureView {
    pub name: Seq<char>,
    pub email: Seq<char>,
    pub time: Seq<char>,
}

impl View for Signature {
    type V = SignatureView;

    open spec fn view(&self) -> SignatureView {
        SignatureView { name: self.name@, email: self.email@, time: self.time@ }
    }
}

/// What is shown of a signature. A time that cannot be parsed is shown as it stands.
pub open spec fn signature_of(raw: RawSignatureView) -> SignatureView {
    SignatureView {
        name: text_of(raw.name),
        email: text_of(raw.email),
        time: shown_time(raw.time, header_time(raw.time)),
    }
}

/// What is shown of a signature's time `raw` that was parsed into `parsed`.
pub open spec fn shown_time(raw: Seq<char>, parsed: Option<(i64, i32)>) -> Seq<char> {
    match parsed {
        Some((seconds, offset)) => iso_time(seconds, offset),
        None => raw,
    }
}

/// What is shown of a signature's time `raw` that was parsed into `parsed`.
pub fn show_time(raw: String, parsed: Option<(i64, i32)>) -> (r: String)
    ensures
        r@ == shown_time(raw@, parsed),
{
    match parsed {
        Some((seconds, offset)) => format_time(seconds, offset),
        None => raw,
    }
}

/// What is shown of a signature.
pub fn signature(raw: RawSignature) -> (r: Signature)
    ensures
        r@ == signature_of(raw@),
{
    let parsed = parse_time(raw.time.as_str());
    let time = show_time(raw.time, parsed);
    Signature { name: to_text(raw.name.as_slice()), email: to_text(raw.email.as_slice()), time }
}

/// A commit as the log lists it.
#[derive(Debug)]
pub struct CommitInfo {
    pub id: String,
    pub parents: Vec<String>,
    pub author: Signature,
    pub committer: Signature,
    pub message: String,
}

/// The view of a [`CommitInfo`].
#[verifier::ext_equal]
pub struct CommitInfoView {
    pub id: Seq<char>,
    pub parents: Seq<Seq<char>>,
    pub author: SignatureView,
    pub committer: SignatureView,
    pub message: Seq<char>,
}

impl View for CommitInfo {
    type V = CommitInfoView;

    open spec fn view(&self) -> CommitInfoView {
        CommitInfoView {
            id: self.id@,
            parents: views(self.parents@),
            author: self.author@,
            committer: self.committer@,
            message: self.message@,
        }
    }
}

/// The hex digits of several ids.
pub open spec fn hexes(ids: Seq<ObjectId>) -> Seq<Seq<char>> {
    ids.map_values(|id: ObjectId| id.hex())
}

/// What the log lists of the commit `id` with these parents and the bytes `data`.
pub open spec fn commit_info_of(id: ObjectId, parents: Seq<ObjectId>, data: Seq<u8>) -> Result<
    CommitInfoView,
    AppErrorView,
> {
    described_commit(id, parents, author_of(data), committer_of(data), message_of(data))
}

/// What the log lists of a commit that was decoded into these parts.
pub open spec fn described_commit(
    id: ObjectId,
    parents: Seq<ObjectId>,
    author: Result<RawSignatureView, Seq<char>>,
    committer: Result<RawSignatureView, Seq<char>>,
    message: Seq<u8>,
) -> Result<CommitInfoView, AppErrorView> {
    match author {
        Err(e) => Err(AppErrorView::Internal(e)),
        Ok(author) => match committer {
            Err(e) => Err(AppErrorView::Internal(e)),
            Ok(committer) => Ok(
                CommitInfoView {
                    id: id.hex(),
                    parents: hexes(parents),
                    author: signature_of(author),
                    committer: signature_of(committer),
                    message: text_of(message),
                },
            ),
        },
    }
}

/// What the log lists of a commit that was decoded into these parts.
pub fn describe_commit(
    id: ObjectId,
    parents: &Vec<ObjectId>,
    author: Result<RawSignature, String>,
    committer: Result<RawSignature, String>,
    message: &[u8],
) -> (r: Result<CommitInfo, AppError>)
    ensures
        res_view(r) == described_commit(
            id,
            parents@,
            res_view(author),
            res_view(committer),
            message@,
        ),
{
    let author = match author {
        Ok(raw) => signature(raw),
        Err(e) => return Err(AppError::internal(e)),
    };
    let committer = match committer {
        Ok(raw) => signature(raw),
        Err(e) => return Err(AppError::internal(e)),
    };
    let mut names: Vec<String> = Vec::new();
    let len: usize = parents.len();
    for i in 0..len
        invariant
            len == parents@.len(),
            views(names@) == hexes(parents@.take(i as int)),
    {
        let name = parents[i].to_hex();
        proof {
            lemma_views_push(names@, name);
            assert(hexes(parents@.take(i + 1)) =~= hexes(parents@.take(i as int)).push(
                parents@[i as int].hex(),
            ));
        }
        names.push(name);
    }
    assert(parents@.take(len as int) =~= parents@);
    Ok(CommitInfo { id: id.to_hex(), parents: names, author, committer, message: to_text(message) })
}

/// What the log lists of the commit `id` with these parents and the bytes `data`.
pub fn commit_info(id: ObjectId, parents: &Vec<ObjectId>, data: &[u8]) -> (r: Result<
    CommitInfo,
    AppError,
>)
    ensures
        res_view(r) == commit_info_of(id, parents@, data@),
        r matches Ok(info) ==> valid_utf8(message_of(data@)) ==> info.message@ == decode_utf8(
            message_of(data@),
        ),
{
    let message = commit_message(data);
    describe_commit(
        id,
        parents,
        decode_author(data),
        decode_committer(data),
        message.as_slice(),
    )
}

/// Reading a blob gives exactly the bytes that were read: as many, and the same at each position.
/// Nothing else is ever given as the contents of a blob.
pub proof fn law_blob_is_given_byte_for_byte(id: ObjectId, data: Vec<u8>, read: BlobRead)
    ensures
        blob_data(id, BlobRead::Data(data)) matches Ok(bytes) && {
            &&& bytes.len() == data@.len()
            &&& forall|i: int| 0 <= i < data@.len() ==> #[trigger] bytes[i] == data@[i]
        },
        blob_data(id, read) is Ok ==> read is Data,
{
}

/// A blob that is not there is asked for by its own id, and any other failure is internal and
/// keeps its text.
pub proof fn law_blob_failures_keep_their_cause(id: ObjectId, cause: String)
    ensures
        blob_data(id, BlobRead::Missing) matches Err(AppErrorView::MissingObjects(ids))
            && ids.len() == 1 && ids[0] == id,
        blob_data(id, BlobRead::Failed(cause)) == Err::<Seq<u8>, _>(
            AppErrorView::Internal(cause@),
        ),
        blob_data(id, BlobRead::NoBlob(cause)) == Err::<Seq<u8>, _>(
            AppErrorView::Internal(cause@),
        ),
{
}

/// Normalizing a path takes away the slashes at its ends and nothing else: what is left is one
/// piece of the path, only slashes stand around it, and it is empty only if there is nothing but
/// slashes.
pub proof fn law_only_outer_slashes_are_taken(path: Seq<char>) -> (r: (int, int))
    ensures
        0 <= r.0 <= r.1 <= path.len(),
        normal_path(path) == path.subrange(r.0, r.1),
        forall|i: int| 0 <= i < path.len() && !(r.0 <= i < r.1) ==> #[trigger] path[i] == '/',
        r.0 < r.1 ==> path[r.0] != '/' && path[r.1 - 1] != '/',
        (exists|i: int| 0 <= i < path.len() && #[trigger] path[i] != '/') <==> normal_path(
            path,
        ).len() > 0,
{
    let (a, b) = law_trimming_takes_the_ends_alone(path, slash());
    if a < b {
        assert(path[a] != '/');
    }
    (a, b)
}

/// What the type bits of a mode say, as numbers: 8 is a file, executable if the owner's execute
/// bit is set, 10 a link, 4 a directory, and anything else the commit of a submodule.
pub proof fn law_kind_is_in_the_mode(mode: u16)
    ensures
        EntryKind::of_mode(mode) is BlobExecutable <==> mode / 4096 == 8 && (mode / 64) % 2 == 1,
        EntryKind::of_mode(mode) is Blob <==> mode / 4096 == 8 && (mode / 64) % 2 == 0,
        EntryKind::of_mode(mode) is Link <==> mode / 4096 == 10,
        EntryKind::of_mode(mode) is Tree <==> mode / 4096 == 4,
        EntryKind::of_mode(mode) is Commit <==> mode / 4096 != 8 && mode / 4096 != 10 && mode
            / 4096 != 4,
{
    assert(mode & 0o170000 == (mode / 4096) * 4096) by (bit_vector);
    assert(mode & 0o100 == 0o100 <==> (mode / 64) % 2 == 1) by (bit_vector);
}

/// A kind is written as a mode of that kind, no two alike, and only files, executable or not, and
/// links have a size.
pub proof fn law_kinds_are_shown_apart(a: EntryKind, b: EntryKind)
    ensures
        a.octal() == (if EntryKind::of_mode(0o40000) == a {
            "40000"@
        } else if EntryKind::of_mode(0o100644) == a {
            "100644"@
        } else if EntryKind::of_mode(0o100755) == a {
            "100755"@
        } else if EntryKind::of_mode(0o120000) == a {
            "120000"@
        } else {
            "160000"@
        }),
        a.octal() == b.octal() ==> a == b,
        a.public_kind() is Dir <==> a is Tree,
        a.public_kind() is File <==> a is Blob || a is BlobExecutable,
        a.public_kind() is Symlink <==> a is Link,
        a.public_kind() is Submodule <==> a is Commit,
        a.has_size() <==> a.public_kind() is File || a.public_kind() is Symlink,
{
    law_kind_is_in_the_mode(0o40000);
    law_kind_is_in_the_mode(0o100644);
    law_kind_is_in_the_mode(0o100755);
    law_kind_is_in_the_mode(0o120000);
    reveal_strlit("40000");
    reveal_strlit("100644");
    reveal_strlit("100755");
    reveal_strlit("120000");
    reveal_strlit("160000");
    if a.octal() == b.octal() {
        assert(a.octal().len() == b.octal().len());
        assert(a.octal()[1] == b.octal()[1]);
        assert(a.octal()[3] == b.octal()[3]);
        assert(a.octal()[4] == b.octal()[4]);
    }
}

/// A revision resolves exactly if it names a commit, and to that commit. One that names nothing or
/// no commit is not found, under the name that was asked for.
pub proof fn law_only_a_commit_resolves(rev: Seq<char>, id: ObjectId, cause: String, read: RevRead)
    ensures
        commit_of(rev, RevRead::Commit(id)) == Ok::<_, AppErrorView>(id),
        commit_of(rev, read) is Ok ==> read is Commit,
        commit_of(rev, RevRead::Unknown) == Err::<ObjectId, _>(AppErrorView::RefNotFound(rev)),
        commit_of(rev, RevRead::NoCommit) == Err::<ObjectId, _>(AppErrorView::RefNotFound(rev)),
        commit_of(rev, RevRead::Unreadable(cause)) == Err::<ObjectId, _>(
            AppErrorView::Internal(cause@),
        ),
{
}

/// A path leads to a blob exactly if the entry found there is a file or a link by its mode, and
/// then to the object of that entry. The errors name the path without its outer slashes.
pub proof fn law_only_files_and_links_have_blobs(
    path: Seq<char>,
    entry: FoundEntry,
    cause: Seq<char>,
)
    ensures
        entry.mode / 4096 == 8 || entry.mode / 4096 == 10 ==> blob_at(path, Ok(Some(entry)))
            == Ok::<_, AppErrorView>(entry.id),
        entry.mode / 4096 != 8 && entry.mode / 4096 != 10 ==> blob_at(path, Ok(Some(entry)))
            == Err::<ObjectId, _>(AppErrorView::BadRequest("not a file: "@ + normal_path(path))),
        blob_at(path, Ok(None)) == Err::<ObjectId, _>(
            AppErrorView::PathNotFound(normal_path(path)),
        ),
        blob_at(path, Err(cause)) == Err::<ObjectId, _>(AppErrorView::Internal(cause)),
{
    law_kind_is_in_the_mode(entry.mode);
}

/// A signature is shown with its own name and email as text. Its time is shown in ISO 8601 if it
/// can be parsed and as it stands if it cannot.
pub proof fn law_signature_is_shown_in_full(raw: RawSignatureView, text: Seq<char>)
    ensures
        raw.name == encode_utf8(text) ==> signature_of(raw).name == text,
        raw.email == encode_utf8(text) ==> signature_of(raw).email == text,
        !valid_utf8(raw.name) ==> signature_of(raw).name == lossy_text(raw.name),
        !valid_utf8(raw.email) ==> signature_of(raw).email == lossy_text(raw.email),
        header_time(raw.time) is None ==> signature_of(raw).time == raw.time,
        header_time(raw.time) matches Some(time) ==> signature_of(raw).time == iso_time(
            time.0,
            time.1,
        ),
{
    law_text_reads_back(text);
}

/// A commit is listed under its own id with each of its parents in order, its author, its
/// committer and its message, if both signatures can be decoded; if not, the failure of the author
/// comes before that of the committer.
pub proof fn law_commit_is_listed_in_full(id: ObjectId, parents: Seq<ObjectId>, data: Seq<u8>)
    ensures
        author_of(data) is Ok && committer_of(data) is Ok ==> {
            let author = author_of(data)->Ok_0;
            let committer = committer_of(data)->Ok_0;
            commit_info_of(id, parents, data) matches Ok(info) && {
                &&& info.id == id.hex()
                &&& info.parents.len() == parents.len()
                &&& forall|i: int|
                    0 <= i < parents.len() ==> #[trigger] info.parents[i] == parents[i].hex()
                &&& info.author == signature_of(author)
                &&& info.committer == signature_of(committer)
                &&& valid_utf8(message_of(data)) ==> encode_utf8(info.message) == message_of(data)
                &&& !valid_utf8(message_of(data)) ==> info.message == lossy_text(message_of(data))
            }
        },
        author_of(data) matches Err(e) ==> commit_info_of(id, parents, data) == Err::<
            CommitInfoView,
            _,
        >(AppErrorView::Internal(e)),
        author_of(data) is Ok && committer_of(data) is Err ==> commit_info_of(id, parents, data)
            == Err::<CommitInfoView, _>(AppErrorView::Internal(committer_of(data)->Err_0)),
{
    law_well_formed_bytes_are_shown_as_text(message_of(data));
}

/// What is listed of one reference: a branch or a tag goes under all that follows its prefix, with
/// the hex digits of the object it peels to; a reference that cannot be read, peeled or named is an
/// internal error with its cause.
pub proof fn law_ref_is_listed_under_its_name(rest: Seq<char>, target: ObjectId, read: RefReadView)
    ensures
        ({
            let name = heads_prefix() + encode_utf8(rest);
            short_name(name) is Ok ==> ref_info(RefReadView::Found { name, target }) == Ok::<
                _,
                AppErrorView,
            >(RefInfoView { name: rest, target: target.hex() })
        }),
        ({
            let name = tags_prefix() + encode_utf8(rest);
            short_name(name) is Ok ==> ref_info(RefReadView::Found { name, target }) == Ok::<
                _,
                AppErrorView,
            >(RefInfoView { name: rest, target: target.hex() })
        }),
        read matches RefReadView::Found { name, target } ==> short_name(name) is Ok
            ==> ref_info(read) == Ok::<_, AppErrorView>(
            RefInfoView { name: text_of(short_form(name)->Ok_0), target: target.hex() },
        ),
        read matches RefReadView::Found { name, .. } ==> short_name(name) is Err
            ==> ref_info(read) == Err::<RefInfoView, _>(
            AppErrorView::Internal(short_name(name)->Err_0),
        ),
        read matches RefReadView::Unpeeled { cause, .. } ==> ref_info(read) == Err::<
            RefInfoView,
            _,
        >(AppErrorView::Internal(cause)),
        read matches RefReadView::Failed(cause) ==> ref_info(read) == Err::<RefInfoView, _>(
            AppErrorView::Internal(cause),
        ),
{
    law_text_reads_back(rest);
    law_names_lose_their_prefix(encode_utf8(rest), Seq::empty());
}

/// Listing fails with the first reference that fails, and only if one does.
pub proof fn law_first_failing_ref_is_reported(reads: Seq<RefReadView>, n: int)
    requires
        0 <= n <= reads.len(),
        forall|i: int| 0 <= i < n ==> ref_info(#[trigger] reads[i]) is Ok,
    ensures
        n == reads.len() ==> ref_infos(reads) is Ok,
        n < reads.len() && ref_info(reads[n]) is Err ==> ref_infos(reads) == Err::<
            Seq<RefInfoView>,
            _,
        >(ref_info(reads[n])->Err_0),
    decreases reads.len(),
{
    if reads.len() > 0 {
        let front = reads.drop_last();
        if n == reads.len() {
            assert forall|i: int| 0 <= i < front.len() implies ref_info(
                #[trigger] front[i],
            ) is Ok by {
                assert(front[i] == reads[i]);
            }
            law_first_failing_ref_is_reported(front, n - 1);
            assert(reads.last() == reads[n - 1]);
        } else {
            assert forall|i: int| 0 <= i < n implies ref_info(#[trigger] front[i]) is Ok by {
                assert(front[i] == reads[i]);
            }
            law_first_failing_ref_is_reported(front, n);
            if n < front.len() {
                assert(front[n] == reads[n]);
            }
        }
    }
}

/// The listing has the branch that HEAD names, the branches and the tags, each from its own source.
/// It fails where one of them does: HEAD first, then the branches, then the tags.
pub proof fn law_refs_come_from_their_own_sources(
    head: Result<Option<Seq<u8>>, Seq<char>>,
    branches: Result<Seq<RefReadView>, Seq<char>>,
    tags: Result<Seq<RefReadView>, Seq<char>>,
    branch: Seq<char>,
)
    ensures
        ({
            let result = refs_listing(head, branches, tags);
            let named = head is Ok && (head->Ok_0 is None || short_name(head->Ok_0->0) is Ok);
            let listed = branches is Ok && ref_infos(branches->Ok_0) is Ok;
            &&& result matches Ok(refs) ==> {
                &&& named && listed && tags is Ok
                &&& refs.head is Some <==> head->Ok_0 is Some
                &&& head->Ok_0 == Some(heads_prefix() + encode_utf8(branch)) ==> refs.head == Some(
                    branch,
                )
                &&& head->Ok_0 matches Some(name) ==> refs.head == Some(
                    text_of(short_form(name)->Ok_0),
                )
                &&& ref_infos(branches->Ok_0) == Ok::<_, AppErrorView>(refs.branches)
                &&& ref_infos(tags->Ok_0) == Ok::<_, AppErrorView>(refs.tags)
            }
            &&& named && listed && tags is Ok && ref_infos(tags->Ok_0) is Ok ==> result is Ok
            &&& head matches Err(e) ==> result == Err::<RefsView, _>(AppErrorView::Internal(e))
            &&& head is Ok && head->Ok_0 is Some && !named ==> result == Err::<RefsView, _>(
                AppErrorView::Internal(short_name(head->Ok_0->0)->Err_0),
            )
            &&& named && branches is Err ==> result == Err::<RefsView, _>(
                AppErrorView::Internal(branches->Err_0),
            )
            &&& named && branches is Ok && !listed ==> result == Err::<RefsView, _>(
                ref_infos(branches->Ok_0)->Err_0,
            )
            &&& named && listed && tags is Err ==> result == Err::<RefsView, _>(
                AppErrorView::Internal(tags->Err_0),
            )
            &&& named && listed && tags is Ok && ref_infos(tags->Ok_0) is Err ==> result == Err::<
                RefsView,
                _,
            >(ref_infos(tags->Ok_0)->Err_0)
        }),
{
    law_text_reads_back(branch);
    law_names_lose_their_prefix(encode_utf8(branch), Seq::empty());
}

/// A short name is shown as its text, together with the hex digits of the object; a name that is
/// not valid is an internal error with its cause.
pub proof fn law_short_names_are_shown_as_text(
    name: Seq<u8>,
    text: Seq<char>,
    cause: Seq<char>,
    target: ObjectId,
)
    ensures
        name_text(Ok(encode_utf8(text))) == Ok::<_, AppErrorView>(text),
        !valid_utf8(name) ==> name_text(Ok(name)) == Ok::<_, AppErrorView>(lossy_text(name)),
        name_text(Err(cause)) == Err::<Seq<char>, _>(AppErrorView::Internal(cause)),
        described_ref(Ok(encode_utf8(text)), target) == Ok::<_, AppErrorView>(
            RefInfoView { name: text, target: target.hex() },
        ),
        !valid_utf8(name) ==> described_ref(Ok(name), target) == Ok::<_, AppErrorView>(
            RefInfoView { name: lossy_text(name), target: target.hex() },
        ),
        described_ref(Err(cause), target) == Err::<RefInfoView, _>(AppErrorView::Internal(cause)),
{
    law_text_reads_back(text);
}

/// What was read is seen as it was read.
pub proof fn law_reads_are_seen_as_they_are(
    read: RefRead,
    reads: Result<Vec<RefRead>, String>,
    head: Result<Option<Vec<u8>>, String>,
    found: Result<Option<FoundEntry>, String>,
)
    ensures
        read.result matches Ok(found) ==> match found.target {
            Ok(target) => read@ == (RefReadView::Found { name: found.name@, target }),
            Err(cause) => read@ == (RefReadView::Unpeeled { name: found.name@, cause: cause@ }),
        },
        read.result matches Err(cause) ==> read@ == RefReadView::Failed(cause@),
        reads matches Ok(all) ==> {
            &&& reads_view(reads) is Ok
            &&& reads_view(reads)->Ok_0.len() == all@.len()
            &&& forall|i: int|
                0 <= i < all@.len() ==> #[trigger] reads_view(reads)->Ok_0[i] == all@[i]@
        },
        reads matches Err(e) ==> reads_view(reads) == Err::<Seq<RefReadView>, Seq<char>>(e@),
        head matches Ok(None) ==> head_view(head) == Ok::<Option<Seq<u8>>, Seq<char>>(None),
        head matches Ok(Some(name)) ==> head_view(head) == Ok::<_, Seq<char>>(Some(name@)),
        head matches Err(e) ==> head_view(head) == Err::<Option<Seq<u8>>, Seq<char>>(e@),
        found matches Ok(entry) ==> found_view(found) == Ok::<_, Seq<char>>(entry),
        found matches Err(e) ==> found_view(found) == Err::<Option<FoundEntry>, Seq<char>>(e@),
{
}

/// What is listed is seen with all its parts.
pub proof fn law_listed_parts_are_seen(
    info: RefInfo,
    refs: Refs,
    signed: Signature,
    commit: CommitInfo,
)
    ensures
        info@.name == info.name@,
        info@.target == info.target@,
        refs@.head is Some <==> refs.head is Some,
        refs.head matches Some(head) ==> refs@.head == Some(head@),
        refs@.branches.len() == refs.branches@.len(),
        forall|i: int|
            0 <= i < refs.branches@.len() ==> #[trigger] refs@.branches[i] == refs.branches@[i]@,
        refs@.tags.len() == refs.tags@.len(),
        forall|i: int| 0 <= i < refs.tags@.len() ==> #[trigger] refs@.tags[i] == refs.tags@[i]@,
        signed@.name == signed.name@,
        signed@.email == signed.email@,
        signed@.time == signed.time@,
        commit@.id == commit.id@,
        commit@.parents.len() == commit.parents@.len(),
        forall|i: int|
            0 <= i < commit.parents@.len() ==> #[trigger] commit@.parents[i]
                == commit.parents@[i]@,
        commit@.author == commit.author@,
        commit@.committer == commit.committer@,
        commit@.message == commit.message@,
{
}

} // verus!
