//! Reading the comments of a FLAC file: finding the comment block, and the
//! cursor that walks its entries.
//!
//! A reader hands over the bytes of the file and a buffer. The payload of the
//! comment block is copied into the buffer, and the cursor that comes back
//! walks the entries in it:
//!
//! ```text
//! let mut cursor = read_from(path, &file, &mut data)?;
//! while cursor.next(&data) {
//!     if let Ok(Some((path, key, value))) = cursor.cur(&data) { .. }
//! }
//! ```
//!
//! The buffer can serve one file after another; the cursor borrows nothing
//! and is handed the buffer on every call.

use crate::container::{
    has_signature, is_flac_signature, lemma_located_inside, load_comment_block, locate,
    unexpected_eof, Located,
};
use crate::entry::{
    lemma_delimiter_at, lemma_delimiter_is_boundary, parse_entry, reports, Parsed, DELIMITER,
};
use crate::error::Error;
use crate::layout::{
    entry_at, entry_count, entry_text, has_preamble, preamble_fits, read_le_u32, well_formed,
};
use crate::position::{
    lemma_empty_walk_yields_nothing, lemma_walk_counts_moves, lemma_walk_stays_inside,
    lemma_walk_visits_entries_in_order, Position,
};
use std::path::PathBuf;
use vstd::prelude::*;
use vstd::string::StringSliceAdditionalSpecFns;
use vstd::utf8::{group_utf8_lib, valid_utf8};

verus! {

/// A single-pass cursor over the entries of one payload.
///
/// The cursor holds no bytes. Every operation takes the payload again, and
/// the cursor only remembers how many entries the payload declared, where the
/// entry under it starts, and how many entries it has visited.
#[derive(Debug, PartialEq, Eq)]
pub struct VorbisComment {
    /// The file the payload came from.
    pub path: PathBuf,
    num_comments: u32,
    i: usize,
    curr: u64,
}

impl View for VorbisComment {
    type V = Position;

    closed spec fn view(&self) -> Position {
        Position {
            count: self.num_comments as nat,
            offset: self.i as nat,
            visited: self.curr as nat,
        }
    }
}

impl VorbisComment {
    /// The path the cursor was made with, as contracts name it.
    pub closed spec fn file(&self) -> PathBuf {
        self.path
    }

    /// The number of entries that the payload declared.
    pub fn num_comments(&self) -> (count: u32)
        ensures
            count == self@.count,
    {
        self.num_comments
    }

    /// A cursor with nothing to walk, for a file without a comment block.
    pub fn empty(path: PathBuf) -> (cursor: VorbisComment)
        ensures
            cursor.file() == path,
            cursor@ == Position::empty(),
    {
        VorbisComment { path, num_comments: 0, i: 0, curr: 0 }
    }

    /// A cursor before the first entry of the payload `bytes`.
    ///
    /// The vendor string is skipped unread. The payload must hold its
    /// preamble; the entries are not looked at yet.
    pub fn from_bytes(path: PathBuf, bytes: &Vec<u8>) -> (cursor: VorbisComment)
        requires
            preamble_fits(bytes@),
        ensures
            cursor.file() == path,
            cursor@ == Position::start(bytes@),
    {
        let vendor_length: usize = read_le_u32(bytes.as_slice(), 0) as usize;
        assert(8 + vendor_length <= bytes.len());
        let num_comments: u32 = read_le_u32(bytes.as_slice(), 4 + vendor_length);
        VorbisComment { path, num_comments, i: 8 + vendor_length, curr: 0 }
    }

    /// The entry under the cursor: the path, the key and the value.
    ///
    /// Before the first move and after the last entry there is nothing under
    /// the cursor, and the answer is `Ok(None)` whatever the payload holds.
    /// Otherwise the entry is read where the cursor stands, and must lie
    /// inside the payload.
    pub fn cur<'a, 'b>(&'a self, bytes: &'b Vec<u8>) -> (entry: Result<
        Option<(&'a PathBuf, &'b str, &'b str)>,
        Error,
    >)
        requires
            self@.can_read(bytes@),
        ensures
            !self@.has_value() ==> entry matches Ok(None),
            self@.has_value() ==> match parse_entry(entry_text(bytes@, self@.offset as int)) {
                Parsed::Pair(k, v) => entry matches Ok(Some((path, key, value))) && *path
                    == self.file() && key@ == k && value@ == v,
                Parsed::NotUtf8 => entry matches Err(Error::Utf8Error(_)),
                Parsed::NoDelimiter(t) => entry matches Err(Error::MalformedVorbisComment(s))
                    && s@ == t,
            },
    {
        if 1 <= self.curr && self.curr <= self.num_comments as u64 {
            let comment_length: usize = read_le_u32(bytes.as_slice(), self.i) as usize;
            assert(self.i + 4 + comment_length <= bytes.len());
            let text: &[u8] = vstd::slice::slice_subrange(
                bytes.as_slice(),
                self.i + 4,
                self.i + 4 + comment_length,
            );
            match read_vorbis_comment(text) {
                Ok((key, value)) => Ok(Some((&self.path, key, value))),
                Err(e) => Err(e),
            }
        } else {
            Ok(None)
        }
    }

    /// Moves to the next entry and says whether there is one.
    ///
    /// The first call moves onto entry 0 without reading anything. Each later
    /// call reads the length of the entry under the cursor and steps over it.
    /// Once the entries are used up every call answers `false`. Every call is
    /// counted, so there is room for fewer than 2^64 of them.
    pub fn next(&mut self, bytes: &Vec<u8>) -> (more: bool)
        requires
            old(self)@.can_move(bytes@),
            old(self)@.visited < u64::MAX,
        ensures
            final(self).file() == old(self).file(),
            final(self)@ == old(self)@.next(bytes@),
            more == final(self)@.has_value(),
    {
        if self.curr == 0 && self.num_comments != 0 {
            self.curr = 1;
            true
        } else if self.curr < self.num_comments as u64 {
            self.curr += 1;
            let length: usize = read_le_u32(bytes.as_slice(), self.i) as usize;
            self.i += 4 + length;
            true
        } else {
            self.curr += 1;
            false
        }
    }
}

/// `std::str::from_utf8`: the bytes as text, if and only if they are valid
/// UTF-8; the text then spells exactly those bytes. Otherwise the error that
/// std gives.
#[verifier::external_body]
fn utf8_text(bytes: &[u8]) -> (text: Result<&str, std::str::Utf8Error>)
    ensures
        text is Ok <==> valid_utf8(bytes@),
        text matches Ok(s) ==> s.spec_bytes() == bytes@,
{
    std::str::from_utf8(bytes)
}

/// Decodes the text of one entry and parts it at the first `=`.
pub fn read_vorbis_comment(bytes: &[u8]) -> (entry: Result<(&str, &str), Error>)
    ensures
        reports(entry, parse_entry(bytes@)),
{
    broadcast use group_utf8_lib;

    let text: &str = match utf8_text(bytes) {
        Ok(text) => text,
        Err(e) => {
            return Err(Error::from(e));
        },
    };
    let mut k: usize = 0;
    while k < bytes.len() && bytes[k] != DELIMITER
        invariant
            k <= bytes@.len(),
            forall|j: int| 0 <= j < k ==> bytes@[j] != DELIMITER,
        decreases bytes@.len() - k,
    {
        k += 1;
    }
    proof {
        lemma_delimiter_at(bytes@, k as int);
    }
    if k == bytes.len() {
        return Err(Error::MalformedVorbisComment(text.to_owned()));
    }
    proof {
        lemma_delimiter_is_boundary(bytes@, k as int);
    }
    let (key, rest) = text.split_at(k);
    let (_, value) = rest.split_at(1);
    assert(value.spec_bytes() =~= bytes@.subrange(k + 1, bytes@.len() as int));
    Ok((key, value))
}

/// Whether the comment block that the chain in `file` leads to from `at` on,
/// if it leads to one, holds its preamble.
pub open spec fn tags_fit(file: Seq<u8>, at: int) -> bool {
    locate(file, at) matches Located::Tags { start, length } ==> preamble_fits(
        file.subrange(start, start + length),
    )
}

/// What reading the chain in `file` from `at` on comes to, for a reader that
/// was given `path` and a buffer that held `before` and now holds `after`:
/// a cursor before the first entry, with the payload in the buffer; an empty
/// cursor; or an I/O error. The buffer is as it was unless a comment block
/// was come to; where the payload of that block is cut short, nothing is said
/// of the buffer.
pub open spec fn tags_read(
    tags: Result<VorbisComment, Error>,
    path: PathBuf,
    file: Seq<u8>,
    at: int,
    before: Seq<u8>,
    after: Seq<u8>,
) -> bool {
    match locate(file, at) {
        Located::Tags { start, length } => tags matches Ok(cursor) && cursor.file() == path
            && cursor@ == Position::start(after) && after == file.subrange(start, start + length),
        Located::NoTags => tags matches Ok(cursor) && cursor.file() == path && cursor@
            == Position::empty() && after == before,
        Located::CutShort => tags matches Err(Error::IoError(_)) && after == before,
        Located::ShortPayload => tags matches Err(Error::IoError(_)),
    }
}

/// What reading `file` comes to: an I/O error if it is shorter than the
/// signature, the invalid-header error with `path` if it starts with something
/// else, and otherwise what the chain behind the signature comes to.
pub open spec fn file_read(
    tags: Result<VorbisComment, Error>,
    path: PathBuf,
    file: Seq<u8>,
    before: Seq<u8>,
    after: Seq<u8>,
) -> bool {
    if file.len() < 4 {
        tags matches Err(Error::IoError(_)) && after == before
    } else if !has_signature(file) {
        tags matches Err(Error::InvalidFlacHeader(p)) && p == path && after == before
    } else {
        tags_read(tags, path, file, 4, before, after)
    }
}

/// A file whose chain ends before any comment block reads as a cursor that
/// never stands on an entry, however often it is moved and over whatever
/// bytes.
pub proof fn lemma_file_without_comments(
    tags: Result<VorbisComment, Error>,
    path: PathBuf,
    file: Seq<u8>,
    before: Seq<u8>,
    after: Seq<u8>,
    payload: Seq<u8>,
    moves: nat,
)
    requires
        has_signature(file),
        locate(file, 4) is NoTags,
        file_read(tags, path, file, before, after),
    ensures
        tags matches Ok(cursor) && cursor@.after(payload, moves).can_move(payload)
            && cursor@.after(payload, moves).visited == moves && !cursor@.after(
            payload,
            moves,
        ).has_value(),
{
    lemma_empty_walk_yields_nothing(Position::empty(), payload, moves);
    lemma_walk_counts_moves(Position::empty(), payload, moves);
}

/// A file with a well-formed comment block reads as a cursor that comes to
/// each of the block's entries in the order of the file and then to no more:
/// move number `moves` stands on entry `moves - 1` for as long as there are
/// entries, and on nothing from then on. No move and no look at an entry reads
/// outside the payload.
pub proof fn lemma_file_with_comments(
    tags: Result<VorbisComment, Error>,
    path: PathBuf,
    file: Seq<u8>,
    before: Seq<u8>,
    after: Seq<u8>,
    moves: nat,
)
    requires
        has_signature(file),
        locate(file, 4) matches Located::Tags { start, length } && well_formed(
            file.subrange(start, start + length),
        ),
        file_read(tags, path, file, before, after),
    ensures
        tags matches Ok(cursor) && ({
            let here = cursor@.after(after, moves);
            &&& well_formed(after)
            &&& here.can_move(after)
            &&& here.can_read(after)
            &&& here.visited == moves
            &&& here.has_value() <==> 1 <= moves <= entry_count(after)
            &&& here.has_value() ==> here.offset == entry_at(after, (moves - 1) as nat)
        }),
{
    lemma_located_inside(file, 4);
    lemma_walk_visits_entries_in_order(after, moves);
    lemma_walk_stays_inside(after, moves);
}

/// Reads the metadata chain that starts at `at` in `source` and makes the
/// cursor for its comment block, whose payload it leaves in `data`.
///
/// Without a comment block the cursor is the empty one and `data` is left
/// alone. A comment block, where there is one, must be long enough for its own
/// preamble.
pub fn read_tags(source: &[u8], at: usize, path: PathBuf, data: &mut Vec<u8>) -> (tags: Result<
    VorbisComment,
    Error,
>)
    requires
        tags_fit(source@, at as int),
    ensures
        tags_read(tags, path, source@, at as int, old(data)@, final(data)@),
{
    match load_comment_block(source, at, data) {
        Ok(true) => Ok(VorbisComment::from_bytes(path, data)),
        Ok(false) => Ok(VorbisComment::empty(path)),
        Err(e) => Err(Error::from(e)),
    }
}

/// Checks the head of a file: the signature must be there, and must be the
/// one of FLAC. Hands the path back where it is.
fn read_signature(path: PathBuf, source: &[u8]) -> (head: Result<PathBuf, Error>)
    ensures
        match head {
            Ok(p) => has_signature(source@) && p == path,
            Err(Error::IoError(_)) => source@.len() < 4,
            Err(Error::InvalidFlacHeader(p)) => source@.len() >= 4 && !has_signature(source@)
                && p == path,
            Err(_) => false,
        },
{
    if source.len() < 4 {
        return Err(Error::from(unexpected_eof()));
    }
    let ident: [u8; 4] = [source[0], source[1], source[2], source[3]];
    assert(ident@ =~= source@.subrange(0, 4));
    if !is_flac_signature(&ident) {
        return Err(Error::InvalidFlacHeader(path));
    }
    Ok(path)
}

/// Reads a FLAC file held in `source` and makes the cursor for its comments,
/// whose payload it leaves in `data`.
///
/// A comment block, where the file has one, must be long enough for its own
/// preamble: [`try_read_from`] asks for nothing.
pub fn read_from(path: PathBuf, source: &[u8], data: &mut Vec<u8>) -> (tags: Result<
    VorbisComment,
    Error,
>)
    requires
        has_signature(source@) ==> tags_fit(source@, 4),
    ensures
        file_read(tags, path, source@, old(data)@, final(data)@),
{
    match read_signature(path, source) {
        Ok(path) => read_tags(source, 4, path, data),
        Err(e) => Err(e),
    }
}

/// Reads a FLAC file held in `source` as [`read_from`] does, whatever it
/// holds.
///
/// The answer is `None` where the file has a comment block that is too short
/// for its own preamble, so that no cursor can be made for it; `data` then
/// holds that block's payload.
pub fn try_read_from(path: PathBuf, source: &[u8], data: &mut Vec<u8>) -> (attempt: Option<
    Result<VorbisComment, Error>,
>)
    ensures
        attempt is None <==> has_signature(source@) && !tags_fit(source@, 4),
        attempt matches Some(tags) ==> file_read(tags, path, source@, old(data)@, final(data)@),
        attempt is None ==> (locate(source@, 4) matches Located::Tags { start, length }
            && final(data)@ == source@.subrange(start, start + length)),
{
    let path: PathBuf = match read_signature(path, source) {
        Ok(path) => path,
        Err(e) => {
            return Some(Err(e));
        },
    };
    match load_comment_block(source, 4, data) {
        Ok(true) => if has_preamble(data.as_slice()) {
            Some(Ok(VorbisComment::from_bytes(path, data)))
        } else {
            None
        },
        Ok(false) => Some(Ok(VorbisComment::empty(path))),
        Err(e) => Some(Err(Error::from(e))),
    }
}

} // verus!
