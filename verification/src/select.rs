//! Which of the files of a directory are taken for FLAC files.

use vstd::prelude::*;
use vstd::string::StringSliceAdditionalSpecFns;

verus! {

/// The bytes `flac`, with which the name of a FLAC file ends.
pub open spec fn flac_suffix() -> Seq<u8> {
    seq![0x66u8, 0x6cu8, 0x61u8, 0x63u8]
}

/// Whether `bytes` ends with `suffix`.
pub open spec fn ends_with(bytes: Seq<u8>, suffix: Seq<u8>) -> bool {
    bytes.len() >= suffix.len() && bytes.subrange(bytes.len() - suffix.len(), bytes.len() as int)
        == suffix
}

/// Whether a file of this name is taken for a FLAC file: its name ends in
/// `flac`, in lower case, with or without a dot before it.
pub fn has_flac_suffix(name: &str) -> (yes: bool)
    ensures
        yes == ends_with(name.spec_bytes(), flac_suffix()),
{
    let bytes: &[u8] = name.as_bytes();
    let n: usize = bytes.len();
    if n < 4 {
        return false;
    }
    let yes: bool = bytes[n - 4] == 0x66 && bytes[n - 3] == 0x6c && bytes[n - 2] == 0x61 && bytes[n
        - 1] == 0x63;
    assert(yes == (bytes@.subrange(n - 4, n as int) =~= flac_suffix()));
    yes
}

} // verus!
