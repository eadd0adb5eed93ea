//! Decoding of git data, done by `gix`.
//!
//! Most functions here call into `gix` and have a contract that is taken on trust. What such a
//! call returns is a function of its arguments alone and has a name, which the contracts of the
//! callers speak of.
use vstd::prelude::*;
use vstd::utf8::{
    decode_utf8, decode_utf8_encode_utf8, encode_utf8, encode_utf8_decode_utf8,
    encode_utf8_valid_utf8, valid_utf8,
};

use gix::bstr::ByteSlice;

use crate::object_id::ObjectId;
use crate::text::{has_prefix, res_view, views};

verus! {

/// Bytes read as UTF-8, with a replacement character for each ill-formed part.
pub uninterp spec fn lossy_text(bytes: Seq<u8>) -> Seq<char>;

/// Calls `bstr::ByteSlice::to_str_lossy`. On well-formed UTF-8 that is the text it encodes; what
/// stands in for ill-formed parts is left to the name.
#[verifier::external_body]
fn lossy(bytes: &[u8]) -> (r: String)
    ensures
        r@ == lossy_text(bytes@),
        valid_utf8(bytes@) ==> r@ == decode_utf8(bytes@),
{
    bytes.to_str_lossy().into_owned()
}

/// The text that bytes are shown as: what they encode if they are well-formed UTF-8, and with
/// replacement characters if they are not.
pub open spec fn text_of(bytes: Seq<u8>) -> Seq<char> {
    if valid_utf8(bytes) {
        decode_utf8(bytes)
    } else {
        lossy_text(bytes)
    }
}

/// The text that bytes are shown as.
pub fn to_text(bytes: &[u8]) -> (r: String)
    ensures
        r@ == text_of(bytes@),
{
    lossy(bytes)
}

/// An entry as a tree object holds it.
#[derive(Debug)]
pub struct RawEntry {
    pub mode: u16,
    pub name: Vec<u8>,
    pub id: ObjectId,
}

/// The view of a [`RawEntry`].
#[verifier::ext_equal]
pub struct RawEntryView {
    pub mode: u16,
    pub name: Seq<u8>,
    pub id: ObjectId,
}

impl View for RawEntry {
    type V = RawEntryView;

    open spec fn view(&self) -> RawEntryView {
        RawEntryView { mode: self.mode, name: self.name@, id: self.id }
    }
}

/// What reading one entry of a tree object gave: the entry, or why it cannot be decoded.
#[derive(Debug)]
pub struct EntryRead {
    pub result: Result<RawEntry, String>,
}

impl View for EntryRead {
    type V = Result<RawEntryView, Seq<char>>;

    open spec fn view(&self) -> Result<RawEntryView, Seq<char>> {
        res_view(self.result)
    }
}

/// The entries of a tree object, in the order in which it holds them.
pub uninterp spec fn tree_entries(data: Seq<u8>) -> Seq<Result<RawEntryView, Seq<char>>>;

/// Collects what `gix::objs::TreeRefIter` yields for the bytes of a tree object. It yields
/// nothing for no bytes, and nothing more after an entry that it cannot decode.
#[verifier::external_body]
fn decode_tree(data: &[u8]) -> (r: Vec<EntryRead>)
    ensures
        views(r@) == tree_entries(data@),
        data@.len() == 0 ==> r@.len() == 0,
        forall|i: int| 0 <= i < r@.len() - 1 ==> (#[trigger] r@[i])@ is Ok,
{
    gix::objs::TreeRefIter::from_bytes(data).map(|entry| EntryRead {
        result: entry.map(|e| RawEntry {
            mode: e.mode.value(),
            name: e.filename.to_vec(),
            id: ObjectId {
                high: u128::from_be_bytes(e.oid.as_bytes()[..16].try_into().unwrap()),
                low: u32::from_be_bytes(e.oid.as_bytes()[16..].try_into().unwrap()),
            },
        }).map_err(|e| e.to_string()),
    }).collect()
}

/// The entries of a tree object, in the order in which it holds them; no bytes hold none.
pub open spec fn entries_in(data: Seq<u8>) -> Seq<Result<RawEntryView, Seq<char>>> {
    if data.len() == 0 {
        Seq::empty()
    } else {
        tree_entries(data)
    }
}

/// The entries of a tree object, in the order in which it holds them. Only the last one may be
/// one that cannot be decoded.
pub fn read_entries(data: &[u8]) -> (r: Vec<EntryRead>)
    ensures
        views(r@) == entries_in(data@),
        data@.len() > 0 ==> r@.len() == tree_entries(data@).len(),
        forall|i: int|
            data@.len() > 0 && 0 <= i < r@.len() ==> (#[trigger] r@[i])@ == tree_entries(data@)[i],
        forall|i: int| 0 <= i < r@.len() - 1 ==> (#[trigger] r@[i])@ is Ok,
{
    let r = decode_tree(data);
    assert(data@.len() == 0 ==> views(r@) =~= Seq::empty());
    assert forall|i: int| data@.len() > 0 && 0 <= i < r@.len() implies (#[trigger] r@[i])@
        == tree_entries(data@)[i] by {
        assert(views(r@)[i] == r@[i]@);
    }
    r
}

/// A signature as a commit object holds it, trimmed.
#[derive(Debug)]
pub struct RawSignature {
    pub name: Vec<u8>,
    pub email: Vec<u8>,
    pub time: String,
}

/// The view of a [`RawSignature`].
#[verifier::ext_equal]
pub struct RawSignatureView {
    pub name: Seq<u8>,
    pub email: Seq<u8>,
    pub time: Seq<char>,
}

impl View for RawSignature {
    type V = RawSignatureView;

    open spec fn view(&self) -> RawSignatureView {
        RawSignatureView { name: self.name@, email: self.email@, time: self.time@ }
    }
}

/// The author of a commit object, or why it cannot be decoded.
pub uninterp spec fn author_of(data: Seq<u8>) -> Result<RawSignatureView, Seq<char>>;

/// Calls `gix::objs::CommitRefIter::author` on the bytes of a commit object and trims what it
/// returns, as `gix::Commit::author` does.
#[verifier::external_body]
pub(crate) fn decode_author(data: &[u8]) -> (r: Result<RawSignature, String>)
    ensures
        res_view(r) == author_of(data@),
{
    match gix::objs::CommitRefIter::from_bytes(data).author().map(|s| s.trim()) {
        Ok(s) => Ok(RawSignature {
            name: s.name.to_vec(),
            email: s.email.to_vec(),
            time: s.time.to_owned(),
        }),
        Err(e) => Err(e.to_string()),
    }
}

/// The committer of a commit object, or why it cannot be decoded.
pub uninterp spec fn committer_of(data: Seq<u8>) -> Result<RawSignatureView, Seq<char>>;

/// Calls `gix::objs::CommitRefIter::committer` on the bytes of a commit object and trims what it
/// returns, as `gix::Commit::committer` does.
#[verifier::external_body]
pub(crate) fn decode_committer(data: &[u8]) -> (r: Result<RawSignature, String>)
    ensures
        res_view(r) == committer_of(data@),
{
    match gix::objs::CommitRefIter::from_bytes(data).committer().map(|s| s.trim()) {
        Ok(s) => Ok(RawSignature {
            name: s.name.to_vec(),
            email: s.email.to_vec(),
            time: s.time.to_owned(),
        }),
        Err(e) => Err(e.to_string()),
    }
}

/// The seconds since the Unix epoch and the offset in seconds that a signature's time says.
pub uninterp spec fn header_time(raw: Seq<char>) -> Option<(i64, i32)>;

/// Parses the time of a signature as `gix::date::Time`, which is what
/// `gix::actor::SignatureRef::time` does.
#[verifier::external_body]
pub(crate) fn parse_time(raw: &str) -> (r: Option<(i64, i32)>)
    ensures
        r == header_time(raw@),
{
    raw.parse::<gix::date::Time>().ok().map(|t| (t.seconds, t.offset))
}

/// A time in the strict ISO 8601 format, or its seconds where the format cannot express it.
pub uninterp spec fn iso_time(seconds: i64, offset: i32) -> Seq<char>;

/// Calls `gix::date::Time::format_or_unix` with `ISO8601_STRICT`.
#[verifier::external_body]
pub(crate) fn format_time(seconds: i64, offset: i32) -> (r: String)
    ensures
        r@ == iso_time(seconds, offset),
{
    gix::date::Time::new(seconds, offset).format_or_unix(gix::date::time::format::ISO8601_STRICT)
}

/// The short form of a full reference name, or why the name is not valid.
pub uninterp spec fn short_name(full: Seq<u8>) -> Result<Seq<u8>, Seq<char>>;

/// The bytes `refs/heads/`.
pub open spec fn heads_prefix() -> Seq<u8> {
    seq![114, 101, 102, 115, 47, 104, 101, 97, 100, 115, 47]
}

/// The bytes `refs/tags/`.
pub open spec fn tags_prefix() -> Seq<u8> {
    seq![114, 101, 102, 115, 47, 116, 97, 103, 115, 47]
}

/// Calls `gix::refs::FullName::shorten`. Of the name of a branch or a tag that is what follows
/// `refs/heads/` or `refs/tags/`. A name that `gix` read from a repository is valid.
#[verifier::external_body]
fn shorten(full: &[u8]) -> (r: Result<Vec<u8>, String>)
    ensures
        res_view(r) == short_name(full@),
        r is Ok && has_prefix(full@, heads_prefix()) ==> r->Ok_0@ == full@.skip(11),
        r is Ok && has_prefix(full@, tags_prefix()) ==> r->Ok_0@ == full@.skip(10),
{
    match gix::refs::FullName::try_from(full.as_bstr()) {
        Ok(name) => Ok(name.shorten().to_vec()),
        Err(e) => Err(e.to_string()),
    }
}

/// The short form of a full reference name: what follows `refs/heads/` or `refs/tags/` in the name
/// of a branch or a tag. An error says why the name is not valid.
pub open spec fn short_form(full: Seq<u8>) -> Result<Seq<u8>, Seq<char>> {
    match short_name(full) {
        Err(e) => Err(e),
        Ok(short) => if has_prefix(full, heads_prefix()) {
            Ok(full.skip(11))
        } else if has_prefix(full, tags_prefix()) {
            Ok(full.skip(10))
        } else {
            Ok(short)
        },
    }
}

/// The short form of a full reference name, or why the name is not valid.
pub fn short_name_of(full: &[u8]) -> (r: Result<Vec<u8>, String>)
    ensures
        res_view(r) == short_form(full@),
{
    shorten(full)
}

/// Where the first empty line of `data` begins: the position of the first two line feeds in a
/// row, or the length of `data` if there are none.
pub open spec fn blank_line(data: Seq<u8>) -> int
    decreases data.len(),
{
    if data.len() < 2 {
        data.len() as int
    } else if data[0] == 10 && data[1] == 10 {
        0
    } else {
        1 + blank_line(data.skip(1))
    }
}

/// The message of a commit object: what follows its first empty line, nothing if it has none.
pub open spec fn message_of(data: Seq<u8>) -> Seq<u8> {
    if blank_line(data) < data.len() {
        data.skip(blank_line(data) + 2)
    } else {
        Seq::empty()
    }
}

proof fn lemma_blank_line(data: Seq<u8>, n: int)
    requires
        0 <= n < data.len(),
        forall|i: int| 0 <= i < n ==> !(#[trigger] data[i] == 10 && data[i + 1] == 10),
    ensures
        blank_line(data) == n + blank_line(data.skip(n)),
    decreases n,
{
    if n == 0 {
        assert(data.skip(0) =~= data);
    } else {
        let rest = data.skip(1);
        assert(!(data[0] == 10 && data[1] == 10));
        assert forall|i: int| 0 <= i < n - 1 implies !(#[trigger] rest[i] == 10 && rest[i + 1]
            == 10) by {
            assert(rest[i] == data[i + 1] && rest[i + 1] == data[i + 2]);
        }
        lemma_blank_line(rest, n - 1);
        assert(rest.skip(n - 1) =~= data.skip(n));
    }
}

/// The message of a commit object: what follows its first empty line, nothing if it has none.
pub fn commit_message(data: &[u8]) -> (r: Vec<u8>)
    ensures
        r@ == message_of(data@),
{
    let len: usize = data.len();
    let mut out: Vec<u8> = Vec::new();
    let mut at: usize = 0;
    while at + 1 < len && !(data[at] == 10 && data[at + 1] == 10)
        invariant
            len == data@.len(),
            at <= len,
            len > 0 ==> at < len,
            forall|i: int|
                0 <= i < at ==> !(#[trigger] data@[i] == 10 && data@[i + 1] == 10),
        decreases len - at,
    {
        at = at + 1;
    }
    if at + 1 < len {
        proof {
            lemma_blank_line(data@, at as int);
            assert(data@.skip(at as int)[0] == 10 && data@.skip(at as int)[1] == 10);
        }
        let mut i: usize = at + 2;
        while i < len
            invariant
                len == data@.len(),
                at + 2 <= i <= len,
                out@ == data@.subrange(at + 2, i as int),
            decreases len - i,
        {
            out.push(data[i]);
            assert(out@ =~= data@.subrange(at + 2, i + 1));
            i = i + 1;
        }
        assert(out@ =~= data@.skip(at + 2));
    } else {
        proof {
            if len > 0 {
                lemma_blank_line(data@, at as int);
            }
        }
    }
    out
}

/// The entries that are listed are the decoded ones, one for one and in order: none is left out,
/// none is added and none is changed, whatever it is called.
pub proof fn law_every_decoded_entry_is_listed(data: Seq<u8>)
    ensures
        data.len() > 0 ==> entries_in(data).len() == tree_entries(data).len(),
        forall|i: int|
            data.len() > 0 && 0 <= i < tree_entries(data).len() ==> #[trigger] entries_in(data)[i]
                == tree_entries(data)[i],
        data.len() == 0 ==> entries_in(data).len() == 0,
{
}

/// Text that is written as UTF-8 is shown again as it was written.
pub proof fn law_text_reads_back(text: Seq<char>)
    ensures
        text_of(encode_utf8(text)) == text,
{
    encode_utf8_valid_utf8(text);
    encode_utf8_decode_utf8(text);
}

/// Bytes that are no well-formed UTF-8 are shown with replacement characters; well-formed ones are
/// shown as the text whose encoding they are.
pub proof fn law_well_formed_bytes_are_shown_as_text(bytes: Seq<u8>)
    ensures
        valid_utf8(bytes) ==> encode_utf8(text_of(bytes)) == bytes,
        !valid_utf8(bytes) ==> text_of(bytes) == lossy_text(bytes),
{
    if valid_utf8(bytes) {
        decode_utf8_encode_utf8(bytes);
    }
}

/// The prefixes of branches and tags, as text.
pub proof fn law_prefixes_are_those_of_branches_and_tags(i: int)
    ensures
        heads_prefix().len() == "refs/heads/"@.len(),
        tags_prefix().len() == "refs/tags/"@.len(),
        0 <= i < heads_prefix().len() ==> heads_prefix()[i] == "refs/heads/"@[i] as u32,
        0 <= i < tags_prefix().len() ==> tags_prefix()[i] == "refs/tags/"@[i] as u32,
{
    reveal_strlit("refs/heads/");
    reveal_strlit("refs/tags/");
}

/// A valid name of a branch or a tag is shortened to all that follows the prefix and nothing else;
/// any other valid name as `gix` shortens it; and a name that is not valid is an error with its
/// cause.
pub proof fn law_names_lose_their_prefix(rest: Seq<u8>, full: Seq<u8>)
    ensures
        ({
            let branch = heads_prefix() + rest;
            short_name(branch) is Ok ==> short_form(branch) == Ok::<Seq<u8>, Seq<char>>(rest)
        }),
        ({
            let tag = tags_prefix() + rest;
            short_name(tag) is Ok ==> short_form(tag) == Ok::<Seq<u8>, Seq<char>>(rest)
        }),
        short_name(full) is Err ==> short_form(full) == short_name(full),
        short_form(full) != short_name(full) ==> exists|tail: Seq<u8>|
            full == heads_prefix() + tail || full == #[trigger] (tags_prefix() + tail),
{
    let branch = heads_prefix() + rest;
    assert(branch.take(11) =~= heads_prefix());
    assert(branch.skip(11) =~= rest);
    let tag = tags_prefix() + rest;
    assert(tag.take(10) =~= tags_prefix());
    assert(tag.skip(10) =~= rest);
    assert(tag[5] == 116 && heads_prefix()[5] == 104);
    if has_prefix(tag, heads_prefix()) {
        assert(tag.take(11)[5] == tag[5]);
    }
    if short_form(full) != short_name(full) {
        if has_prefix(full, heads_prefix()) {
            let tail = full.skip(11);
            assert(full =~= full.take(11) + tail);
            let t = tags_prefix() + tail;
        } else {
            let tail = full.skip(10);
            assert(full =~= full.take(10) + tail);
            let t = tags_prefix() + tail;
        }
    }
}

/// The message of a commit is all that follows the first two line feeds in a row, up to the last
/// byte; a commit without them has an empty message.
pub proof fn law_message_follows_the_first_empty_line(header: Seq<u8>, message: Seq<u8>)
    requires
        forall|i: int|
            0 <= i < header.len() - 1 ==> !(#[trigger] header[i] == 10 && header[i + 1] == 10),
    ensures
        message_of(header).len() == 0,
        header.len() > 0 && header.last() != 10 ==> message_of(header + seq![10u8, 10u8] + message)
            == message,
        message_of(seq![10u8, 10u8] + message) == message,
{
    if header.len() > 0 {
        let n = header.len() - 1;
        lemma_blank_line(header, n);
        if header.last() != 10 {
            let data = header + seq![10u8, 10u8] + message;
            assert forall|i: int| 0 <= i < header.len() implies !(#[trigger] data[i] == 10
                && data[i + 1] == 10) by {
                if i < n {
                    assert(data[i] == header[i] && data[i + 1] == header[i + 1]);
                } else {
                    assert(data[i] == header.last());
                }
            }
            lemma_blank_line(data, header.len() as int);
            let tail = data.skip(header.len() as int);
            assert(tail[0] == 10 && tail[1] == 10);
            assert(data.skip(header.len() as int + 2) =~= message);
        }
    }
    let data = seq![10u8, 10u8] + message;
    assert(data[0] == 10 && data[1] == 10);
    assert(data.skip(2) =~= message);
}

/// An entry and a signature are seen with all their parts.
pub proof fn law_decoded_parts_are_seen(entry: RawEntry, read: EntryRead, signed: RawSignature)
    ensures
        entry@.mode == entry.mode,
        entry@.name == entry.name@,
        entry@.id == entry.id,
        read.result matches Ok(e) ==> read@ == Ok::<RawEntryView, Seq<char>>(e@),
        read.result matches Err(e) ==> read@ == Err::<RawEntryView, Seq<char>>(e@),
        signed@.name == signed.name@,
        signed@.email == signed.email@,
        signed@.time == signed.time@,
{
}

} // verus!
