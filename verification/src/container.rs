//! The metadata chain at the head of a FLAC file.
//!
//! A file is the signature `fLaC` and then metadata blocks. Each block has a
//! four-byte header: one bit that marks the last block, seven bits of block
//! type, and a 24-bit big-endian payload length. Type 4 is the Vorbis comment
//! block.
//!
//! ```text
//! | f L a C | last:1 type:7 | length: u24 be | payload | last:1 type:7 | ...
//! ```

use vstd::prelude::*;

verus! {

/// The type of the block that holds the comments.
pub const VORBIS_COMMENT: u8 = 4;

/// The four bytes that every FLAC file starts with: `fLaC`.
pub open spec fn signature() -> Seq<u8> {
    seq![0x66u8, 0x4Cu8, 0x61u8, 0x43u8]
}

/// Whether the block with this header is the last of the chain.
pub open spec fn is_last(header: Seq<u8>) -> bool {
    header[0] >= 0x80
}

/// The type of the block with this header, 0 to 127.
pub open spec fn block_type(header: Seq<u8>) -> int {
    header[0] as int % 0x80
}

/// The payload length that this header declares, below 2^24.
pub open spec fn block_len(header: Seq<u8>) -> int {
    0x1_0000 * (header[1] as int) + 0x100 * (header[2] as int) + header[3] as int
}

/// What a reader does after it has read one block header.
#[derive(Debug, Clone, Copy, PartialEq, Eq, Structural)]
pub enum Step {
    /// The block holds the comments: read `length` bytes of payload and stop.
    Tags { length: u32 },
    /// The chain ends without comments: stop.
    End,
    /// Another block: skip `length` bytes of payload and read the next header.
    Skip { length: u32 },
}

/// The step that a block header calls for. A comment block is read even when
/// it is the last; any other last block ends the chain.
pub open spec fn step_for(header: Seq<u8>) -> Step {
    if block_type(header) == VORBIS_COMMENT {
        Step::Tags { length: block_len(header) as u32 }
    } else if is_last(header) {
        Step::End
    } else {
        Step::Skip { length: block_len(header) as u32 }
    }
}

/// Where the walk along the chain ends.
pub enum Located {
    /// At a comment block whose payload is `length` bytes from `start` on.
    Tags { start: int, length: int },
    /// At a last block that is no comment block.
    NoTags,
    /// At the end of the bytes, where a block header is due and fewer than
    /// four bytes are left.
    CutShort,
    /// At a comment block that declares more payload than there are bytes
    /// left.
    ShortPayload,
}

/// Walks the chain in `file` from the block header at `at` on.
///
/// Payloads of other blocks are stepped over by their declared length. A step
/// that leads past the end of the file finds no header there, so the walk
/// ends as cut short.
pub open spec fn locate(file: Seq<u8>, at: int) -> Located
    decreases file.len() - at,
{
    if at < 0 || at + 4 > file.len() {
        Located::CutShort
    } else {
        match step_for(file.subrange(at, at + 4)) {
            Step::Tags { length } => if at + 4 + length <= file.len() {
                Located::Tags { start: at + 4, length: length as int }
            } else {
                Located::ShortPayload
            },
            Step::End => Located::NoTags,
            Step::Skip { length } => if at + 4 + length <= file.len() {
                locate(file, at + 4 + length)
            } else {
                Located::CutShort
            },
        }
    }
}

/// A comment block that the walk comes to lies inside the file, behind a
/// header, and its payload is shorter than 2^24 bytes.
pub proof fn lemma_located_inside(file: Seq<u8>, at: int)
    ensures
        locate(file, at) matches Located::Tags { start, length } ==> at + 4 <= start && start
            + length <= file.len() && 0 <= length < 0x100_0000,
    decreases file.len() - at,
{
    if 0 <= at && at + 4 <= file.len() {
        let header = file.subrange(at, at + 4);
        if step_for(header) is Skip && at + 4 + block_len(header) <= file.len() {
            lemma_located_inside(file, at + 4 + block_len(header));
        }
    }
}

/// A block that is neither the comment block nor the last is stepped over
/// whole: the walk goes on at the header that follows the block's declared
/// length of payload, and is cut short if the file ends before that.
pub proof fn lemma_skip_steps_over_payload(file: Seq<u8>, at: int)
    requires
        0 <= at,
        at + 4 <= file.len(),
        block_type(file.subrange(at, at + 4)) != VORBIS_COMMENT,
        !is_last(file.subrange(at, at + 4)),
    ensures
        locate(file, at) == if at + 4 + block_len(file.subrange(at, at + 4)) <= file.len() {
            locate(file, at + 4 + block_len(file.subrange(at, at + 4)))
        } else {
            Located::CutShort
        },
{
}

/// A comment block behind one other block is found where the other block's
/// declared length says that it starts, whatever the other block holds.
pub proof fn lemma_comment_block_behind_another(file: Seq<u8>, at: int)
    requires
        0 <= at,
        at + 4 <= file.len(),
        block_type(file.subrange(at, at + 4)) != VORBIS_COMMENT,
        !is_last(file.subrange(at, at + 4)),
        ({
            let second = at + 4 + block_len(file.subrange(at, at + 4));
            &&& second + 4 <= file.len()
            &&& block_type(file.subrange(second, second + 4)) == VORBIS_COMMENT
            &&& second + 4 + block_len(file.subrange(second, second + 4)) <= file.len()
        }),
    ensures
        ({
            let second = at + 4 + block_len(file.subrange(at, at + 4));
            locate(file, at) == Located::Tags {
                start: second + 4,
                length: block_len(file.subrange(second, second + 4)),
            }
        }),
{
    lemma_skip_steps_over_payload(file, at);
}

/// Whether `file` starts with the FLAC signature.
pub open spec fn has_signature(file: Seq<u8>) -> bool {
    file.len() >= 4 && file.subrange(0, 4) == signature()
}

/// Whether `ident`, the first four bytes of a file, is the FLAC signature.
pub fn is_flac_signature(ident: &[u8; 4]) -> (yes: bool)
    ensures
        yes == (ident@ == signature()),
{
    let yes: bool = ident[0] == 0x66 && ident[1] == 0x4C && ident[2] == 0x61 && ident[3] == 0x43;
    assert(yes == (ident@ =~= signature()));
    yes
}

/// Decodes one block header and says what to do about the block.
pub fn next_step(header: &[u8; 4]) -> (step: Step)
    ensures
        step == step_for(header@),
{
    let first: u8 = header[0];
    let is_last: bool = (first & 0b1000_0000) != 0;
    let blocktype_byte: u8 = first & 0b0111_1111;
    assert((first & 0b1000_0000) != 0 <==> first >= 0x80) by (bit_vector);
    assert(first & 0b0111_1111 == first % 0x80) by (bit_vector);
    let b0: u32 = first as u32;
    let b1: u32 = header[1] as u32;
    let b2: u32 = header[2] as u32;
    let b3: u32 = header[3] as u32;
    let word: u32 = (b0 << 24) | (b1 << 16) | (b2 << 8) | b3;
    let length: u32 = word & 0x00FF_FFFF;
    assert(((b0 << 24) | (b1 << 16) | (b2 << 8) | b3) & 0x00FF_FFFF == 0x1_0000 * b1 + 0x100 * b2
        + b3) by (bit_vector)
        requires
            b0 < 0x100,
            b1 < 0x100,
            b2 < 0x100,
            b3 < 0x100,
    ;
    if blocktype_byte == VORBIS_COMMENT {
        Step::Tags { length }
    } else if is_last {
        Step::End
    } else {
        Step::Skip { length }
    }
}

/// `std::io::Error::from` on `ErrorKind::UnexpectedEof`: the error with which
/// std's readers report a source that ends too early.
#[verifier::external_body]
pub(crate) fn unexpected_eof() -> std::io::Error {
    std::io::Error::from(std::io::ErrorKind::UnexpectedEof)
}

/// Walks the chain in `source` from the block header at `start` on and, if
/// it comes to a comment block, copies that block's payload into `data`.
///
/// `Ok(true)` says that `data` now holds the payload and nothing else.
/// `Ok(false)` says that the chain ended without a comment block, and an
/// error that the bytes ended first. `data` is as it was where no comment
/// block was come to. Where one was and its payload is cut short, nothing is
/// said of `data`: a reader may have begun to fill it. The payloads of other
/// blocks are never looked at.
pub fn load_comment_block(source: &[u8], start: usize, data: &mut Vec<u8>) -> (found: Result<
    bool,
    std::io::Error,
>)
    ensures
        match locate(source@, start as int) {
            Located::Tags { start: from, length } => found matches Ok(true) && final(data)@
                == source@.subrange(from, from + length),
            Located::NoTags => found matches Ok(false) && final(data)@ == old(data)@,
            Located::CutShort => found is Err && final(data)@ == old(data)@,
            Located::ShortPayload => found is Err,
        },
{
    let mut at: usize = start;
    loop
        invariant
            locate(source@, at as int) == locate(source@, start as int),
            data@ == old(data)@,
        decreases source@.len() - at,
    {
        if source.len() < 4 || at > source.len() - 4 {
            return Err(unexpected_eof());
        }
        let header: [u8; 4] = [source[at], source[at + 1], source[at + 2], source[at + 3]];
        let room: usize = source.len() - 4 - at;
        match next_step(&header) {
            Step::Tags { length } => {
                if length as usize > room {
                    return Err(unexpected_eof());
                }
                let payload: &[u8] = vstd::slice::slice_subrange(
                    source,
                    at + 4,
                    at + 4 + length as usize,
                );
                data.clear();
                data.extend_from_slice(payload);
                return Ok(true);
            },
            Step::End => {
                return Ok(false);
            },
            Step::Skip { length } => {
                if length as usize > room {
                    return Err(unexpected_eof());
                }
                at = at + 4 + length as usize;
            },
        }
    }
}

} // verus!
