//! File contents: binary detection, byte-order marks and UTF-8 text.
use vstd::prelude::*;
use vstd::utf8::{decode_utf8, encode_utf8, valid_utf8};
use crate::config::{binary_extension_list, binary_extensions, strings_view};
use crate::languages::ext_or_empty;
use crate::paths::extension;
use crate::text::{chars_of, seq_eq, spec_lowercase, string_from, to_lowercase};

verus! {

/// The UTF-8 byte-order mark.
pub open spec fn bom() -> Seq<u8> {
    seq![0xEFu8, 0xBBu8, 0xBFu8]
}

/// `bytes` begins with the byte-order mark.
pub open spec fn has_bom(bytes: Seq<u8>) -> bool {
    bytes.len() >= 3 && bytes[0] == 0xEF && bytes[1] == 0xBB && bytes[2] == 0xBF
}

/// `(has_bom, bytes without it)`.
pub open spec fn spec_strip_bom(bytes: Seq<u8>) -> (bool, Seq<u8>) {
    if has_bom(bytes) {
        (true, bytes.skip(3))
    } else {
        (false, bytes)
    }
}

/// `content` with the byte-order mark put back in front when `had_bom`.
pub open spec fn spec_restore_bom(had_bom: bool, content: Seq<u8>) -> Seq<u8> {
    if had_bom {
        bom() + content
    } else {
        content
    }
}

/// A file at `path` whose first bytes are `head` is binary: its lowercased
/// extension is a binary extension, or `head` holds a zero byte.
pub open spec fn spec_is_binary(path: Seq<char>, head: Seq<u8>) -> bool {
    binary_extension_list().contains(spec_lowercase(ext_or_empty(path))) || head.contains(0u8)
}

/// Text of a file, without its byte-order mark, and whether it had one.
pub struct FileContent {
    pub text: String,
    pub has_bom: bool,
}

/// `String::from_utf8`: the text when `bytes` is valid UTF-8.
#[verifier::external_body]
fn utf8_decode(bytes: Vec<u8>) -> (r: Option<String>)
    ensures
        r is Some <==> valid_utf8(bytes@),
        r matches Some(s) ==> s@ == decode_utf8(bytes@),
{
    String::from_utf8(bytes).ok()
}

/// `bytes` holds a zero byte.
pub fn has_null_byte(bytes: &[u8]) -> (r: bool)
    ensures
        r == bytes@.contains(0u8),
{
    let mut i: usize = 0;
    while i < bytes.len()
        invariant
            0 <= i <= bytes.len(),
            forall|k: int| 0 <= k < i ==> bytes@[k] != 0u8,
        decreases bytes.len() - i,
    {
        if bytes[i] == 0 {
            proof {
                assert(bytes@[i as int] == 0u8);
            }
            return true;
        }
        i += 1;
    }
    false
}

/// Whether the file at `path`, whose first bytes are `head` (at most 8192,
/// none when it cannot be read), is binary.
pub fn is_binary_file(path: &str, head: &[u8]) -> (r: bool)
    ensures
        r == spec_is_binary(path@, head@),
{
    let p = chars_of(path);
    let ext = match extension(&p) {
        Some(e) => string_from(&e),
        None => String::new(),
    };
    let lower = chars_of(to_lowercase(ext.as_str()).as_str());
    let list = binary_extensions();
    let mut i: usize = 0;
    while i < list.len()
        invariant
            0 <= i <= list.len(),
            strings_view(list@) == binary_extension_list(),
            lower@ == spec_lowercase(ext_or_empty(path@)),
            forall|k: int| 0 <= k < i ==> binary_extension_list()[k] != lower@,
        decreases list.len() - i,
    {
        let item = chars_of(list[i].as_str());
        if seq_eq(&item, &lower) {
            proof {
                assert(binary_extension_list()[i as int] == list@[i as int]@);
                assert(binary_extension_list().contains(lower@));
            }
            return true;
        }
        proof {
            assert(binary_extension_list()[i as int] == list@[i as int]@);
        }
        i += 1;
    }
    proof {
        if binary_extension_list().contains(lower@) {
            let k = choose|k: int| 0 <= k < binary_extension_list().len() && binary_extension_list()[k] == lower@;
            assert(binary_extension_list()[k] == lower@);
        }
    }
    has_null_byte(head)
}

/// Splits off a leading byte-order mark.
pub fn strip_bom(bytes: &[u8]) -> (r: (bool, Vec<u8>))
    ensures
        r.0 == spec_strip_bom(bytes@).0,
        r.1@ == spec_strip_bom(bytes@).1,
{
    if bytes.len() >= 3 && bytes[0] == 0xEF && bytes[1] == 0xBB && bytes[2] == 0xBF {
        let mut out: Vec<u8> = Vec::new();
        let mut i: usize = 3;
        while i < bytes.len()
            invariant
                3 <= i <= bytes.len(),
                out@ == bytes@.subrange(3, i as int),
            decreases bytes.len() - i,
        {
            out.push(bytes[i]);
            proof {
                assert(bytes@.subrange(3, i + 1) =~= bytes@.subrange(3, i as int).push(bytes@[i as int]));
            }
            i += 1;
        }
        proof {
            assert(bytes@.subrange(3, bytes@.len() as int) =~= bytes@.skip(3));
        }
        (true, out)
    } else {
        let out = vstd::slice::slice_to_vec(bytes);
        (false, out)
    }
}

/// Puts the byte-order mark back in front of `content` when `has_bom`.
pub fn restore_bom(has_bom: bool, content: &mut Vec<u8>)
    ensures
        final(content)@ == spec_restore_bom(has_bom, old(content)@),
{
    if has_bom {
        let mut with_bom: Vec<u8> = vec![0xEF, 0xBB, 0xBF];
        with_bom.append(content);
        *content = with_bom;
        proof {
            assert(bom() =~= seq![0xEFu8, 0xBBu8, 0xBFu8]);
        }
    }
}

/// The text of a file's bytes: the byte-order mark is split off and the rest
/// decoded as UTF-8; `None` when the rest is not valid UTF-8.
pub fn file_content_from_bytes(raw: &[u8]) -> (r: Option<FileContent>)
    ensures
        r is Some <==> valid_utf8(spec_strip_bom(raw@).1),
        r matches Some(c) ==> c.has_bom == spec_strip_bom(raw@).0 && c.text@ == decode_utf8(
            spec_strip_bom(raw@).1,
        ),
{
    let (has_bom, content) = strip_bom(raw);
    match utf8_decode(content) {
        Some(text) => Some(FileContent { text, has_bom }),
        None => None,
    }
}

/// The bytes to write for a file's text: its UTF-8 encoding, behind the
/// byte-order mark when the file had one.
pub fn file_bytes(text: &str, has_bom: bool) -> (r: Vec<u8>)
    ensures
        r@ == spec_restore_bom(has_bom, encode_utf8(text@)),
{
    let mut bytes = vstd::slice::slice_to_vec(text.as_bytes());
    restore_bom(has_bom, &mut bytes);
    bytes
}

/// Stripping the byte-order mark and putting it back gives the original bytes.
pub proof fn law_bom_round_trip(bytes: Seq<u8>)
    ensures
        spec_restore_bom(spec_strip_bom(bytes).0, spec_strip_bom(bytes).1) == bytes,
{
    if has_bom(bytes) {
        assert(bom() + bytes.skip(3) =~= bytes);
    }
}

/// A file read as text and written back unchanged keeps its exact bytes,
/// byte-order mark included.
pub proof fn law_file_round_trip(raw: Seq<u8>)
    requires
        valid_utf8(spec_strip_bom(raw).1),
    ensures
        spec_restore_bom(spec_strip_bom(raw).0, encode_utf8(decode_utf8(spec_strip_bom(raw).1)))
            == raw,
{
    vstd::utf8::decode_utf8_encode_utf8(spec_strip_bom(raw).1);
    law_bom_round_trip(raw);
}

} // verus!
