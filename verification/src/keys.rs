//! Classification of object keys.
//!
//! A key ending in the namespace separator names a container marker, which
//! is never scanned; a key ending in the gzip suffix names an object whose
//! byte stream is unwrapped by a streaming decompressor before scanning.

use vstd::prelude::*;

verus! {

/// `s` ends with `suffix`.
pub open spec fn spec_ends_with(s: Seq<char>, suffix: Seq<char>) -> bool {
    s.len() >= suffix.len() && s.subrange(s.len() - suffix.len(), s.len() as int) == suffix
}

/// The key names a container marker: it ends in the namespace separator.
pub open spec fn is_container(key: Seq<char>) -> bool {
    key.len() > 0 && key.last() == '/'
}

/// Whether the key names a container marker, to be reported as skipped and
/// never scanned.
pub fn is_container_key(key: &str) -> (r: bool)
    ensures
        r == is_container(key@),
{
    let n = key.unicode_len();
    if n == 0 {
        false
    } else {
        key.get_char(n - 1) == '/'
    }
}

/// Whether the key's suffix indicates gzip compression, so that its byte
/// stream is decompressed transparently before scanning.
pub fn has_gzip_suffix(key: &str) -> (r: bool)
    ensures
        r == spec_ends_with(key@, ".gz"@),
{
    proof {
        reveal_strlit(".gz");
    }
    let n = key.unicode_len();
    if n < 3 {
        return false;
    }
    let r = key.get_char(n - 3) == '.' && key.get_char(n - 2) == 'g' && key.get_char(n - 1) == 'z';
    proof {
        if r {
            assert(key@.subrange(n - 3, n as int) =~= ".gz"@);
        } else {
            if spec_ends_with(key@, ".gz"@) {
                assert(key@.subrange(n - 3, n as int)[0] == key@[n - 3]);
                assert(key@.subrange(n - 3, n as int)[1] == key@[n - 2]);
                assert(key@.subrange(n - 3, n as int)[2] == key@[n - 1]);
            }
        }
    }
    r
}

} // verus!
