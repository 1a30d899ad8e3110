//! Where files live on disk: the data directory's layout and the names of
//! cached renderings.
use vstd::prelude::*;
use vstd::utf8::encode_utf8;
use vstd::string::StringSliceAdditionalSpecFns;

use crate::text::{chars_of, decimal, digit_char, push_char, push_chars, push_decimal, string_of};

verus! {

/// A path joined with another, as `Path::join` does on Unix: an absolute
/// `comp` replaces `base`; otherwise `comp` is appended, after a '/' unless
/// `base` is empty or already ends with one.
pub open spec fn joined(base: Seq<char>, comp: Seq<char>) -> Seq<char> {
    if comp.len() > 0 && comp[0] == '/' {
        comp
    } else if base.len() > 0 && base.last() != '/' {
        base + seq!['/'] + comp
    } else {
        base + comp
    }
}

/// Joins a path component onto a path.
pub fn join_path(base: &str, comp: &str) -> (r: String)
    ensures
        r@ == joined(base@, comp@),
{
    let b = chars_of(base);
    let c = chars_of(comp);
    if c.len() > 0 && c[0] == '/' {
        return string_of(&c);
    }
    let mut r = string_of(&b);
    if b.len() > 0 && b[b.len() - 1] != '/' {
        push_char(&mut r, '/');
    }
    push_chars(&mut r, &c);
    r
}

/// The directory of cached renderings in the data directory.
pub fn cache_dir(data_dir: &str) -> (r: String)
    ensures
        r@ == joined(data_dir@, "cache"@),
{
    join_path(data_dir, "cache")
}

/// The SHA-256 digest of some bytes.
pub uninterp spec fn sha256(data: Seq<u8>) -> Seq<u8>;

/// `sha2::Sha256::digest`: the contract names the result `sha256` of the
/// input and states that a digest has 32 bytes; the hash itself is not
/// stated.
#[verifier::external_body]
fn sha256_digest(data: &[u8]) -> (r: Vec<u8>)
    ensures
        r@ == sha256(data@),
        r@.len() == 32,
{
    <sha2::Sha256 as sha2::Digest>::digest(data).to_vec()
}

/// The lower-case hexadecimal digit for `n < 16`.
pub open spec fn hex_digit(n: nat) -> char {
    if n < 10 {
        digit_char(n)
    } else {
        ((87 + n) as u32) as char
    }
}

/// Lower-case hexadecimal text of some bytes, two digits per byte.
pub open spec fn hex_of(bytes: Seq<u8>) -> Seq<char>
    decreases bytes.len(),
{
    if bytes.len() == 0 {
        Seq::empty()
    } else {
        hex_of(bytes.drop_last()) + seq![
            hex_digit((bytes.last() / 16) as nat),
            hex_digit((bytes.last() % 16) as nat),
        ]
    }
}

fn hex_char(n: u8) -> (c: char)
    requires
        n < 16,
    ensures
        c == hex_digit(n as nat),
{
    if n < 10 {
        crate::text::char_from_digit(n as u64)
    } else if n == 10 {
        'a'
    } else if n == 11 {
        'b'
    } else if n == 12 {
        'c'
    } else if n == 13 {
        'd'
    } else if n == 14 {
        'e'
    } else {
        'f'
    }
}

/// Lower-case hexadecimal text of some bytes.
pub fn hex_string(bytes: &[u8]) -> (s: String)
    ensures
        s@ == hex_of(bytes@),
{
    let n = bytes.len();
    let mut s = String::new();
    let mut i: usize = 0;
    while i < n
        invariant
            n == bytes@.len(),
            i <= n,
            s@ == hex_of(bytes@.take(i as int)),
        decreases n - i,
    {
        let b = bytes[i];
        push_char(&mut s, hex_char(b / 16));
        push_char(&mut s, hex_char(b % 16));
        let ghost t = bytes@.take(i + 1);
        assert(t.drop_last() =~= bytes@.take(i as int));
        assert(s@ =~= hex_of(t));
        i = i + 1;
    }
    assert(bytes@.take(n as int) =~= bytes@);
    s
}

/// The bytes that name a file of a device directory for hashing: the
/// directory, a '/', and the path, in UTF-8.
pub open spec fn path_key_bytes(dir: Seq<char>, path: Seq<char>) -> Seq<u8> {
    encode_utf8(dir) + seq![47u8] + encode_utf8(path)
}

/// The short hash that names a file's cached renderings: the first 12 bytes
/// of the SHA-256 digest of its directory and path, in hexadecimal.
pub open spec fn path_hash_of(dir: Seq<char>, path: Seq<char>) -> Seq<char> {
    hex_of(sha256(path_key_bytes(dir, path)).take(12))
}

fn append_bytes(v: &mut Vec<u8>, b: &[u8])
    ensures
        final(v)@ == old(v)@ + b@,
{
    let n = b.len();
    let mut i: usize = 0;
    while i < n
        invariant
            n == b@.len(),
            i <= n,
            v@ =~= old(v)@ + b@.take(i as int),
        decreases n - i,
    {
        v.push(b[i]);
        i = i + 1;
    }
    assert(b@.take(n as int) =~= b@);
}

/// The short hash that names a file's cached renderings.
pub fn path_hash(dir: &str, path: &str) -> (h: String)
    ensures
        h@ == path_hash_of(dir@, path@),
        h@.len() == 24,
{
    let mut data: Vec<u8> = Vec::new();
    append_bytes(&mut data, dir.as_bytes());
    data.push(47u8);
    append_bytes(&mut data, path.as_bytes());
    assert(data@ =~= path_key_bytes(dir@, path@));
    let digest = sha256_digest(data.as_slice());
    let mut first: Vec<u8> = Vec::new();
    let mut i: usize = 0;
    while i < 12
        invariant
            digest@.len() == 32,
            i <= 12,
            first@ =~= digest@.take(i as int),
        decreases 12 - i,
    {
        first.push(digest[i]);
        i = i + 1;
    }
    let h = hex_string(first.as_slice());
    proof {
        lemma_hex_len(first@);
    }
    h
}

proof fn lemma_hex_len(bytes: Seq<u8>)
    ensures
        hex_of(bytes).len() == 2 * bytes.len(),
    decreases bytes.len(),
{
    if bytes.len() > 0 {
        lemma_hex_len(bytes.drop_last());
    }
}

/// The file name of a cached rendering of a device file, fitted within
/// `width` by `height`: "HASH_WIDTHxHEIGHT.jpg".
pub open spec fn mesh_cache_file_name(dir: Seq<char>, path: Seq<char>, width: nat, height: nat) -> Seq<
    char,
> {
    path_hash_of(dir, path) + "_"@ + decimal(width) + "x"@ + decimal(height) + ".jpg"@
}

/// The directory of cached renderings of a device's files.
pub fn mesh_cache_dir(cache_dir: &str, device_id: &str) -> (r: String)
    ensures
        r@ == joined(cache_dir@, device_id@),
{
    join_path(cache_dir, device_id)
}

/// Where the rendering of a device file, fitted within `width` by `height`,
/// is cached.
pub fn mesh_cache_path(
    cache_dir: &str,
    device_id: &str,
    dir: &str,
    path: &str,
    width: u32,
    height: u32,
) -> (r: String)
    ensures
        r@ == joined(
            joined(cache_dir@, device_id@),
            mesh_cache_file_name(dir@, path@, width as nat, height as nat),
        ),
{
    let mut name = path_hash(dir, path);
    push_chars(&mut name, &chars_of("_"));
    push_decimal(&mut name, width as u64);
    push_chars(&mut name, &chars_of("x"));
    push_decimal(&mut name, height as u64);
    push_chars(&mut name, &chars_of(".jpg"));
    let d = mesh_cache_dir(cache_dir, device_id);
    join_path(d.as_str(), name.as_str())
}

/// The file name of a cached rendering fetched by content id, fitted within
/// `width` by `height`: "WIDTHxHEIGHT.jpg".
pub open spec fn cid_cache_file_name(width: nat, height: nat) -> Seq<char> {
    decimal(width) + "x"@ + decimal(height) + ".jpg"@
}

/// The directory of cached renderings of the content `cid`.
pub fn cid_cache_dir(cache_dir: &str, cid: &str) -> (r: String)
    ensures
        r@ == joined(joined(cache_dir@, "cid"@), cid@),
{
    let base = join_path(cache_dir, "cid");
    join_path(base.as_str(), cid)
}

/// Where the rendering of the content `cid`, fitted within `width` by
/// `height`, is cached.
pub fn cid_cache_path(cache_dir: &str, cid: &str, width: u32, height: u32) -> (r: String)
    ensures
        r@ == joined(joined(joined(cache_dir@, "cid"@), cid@), cid_cache_file_name(width as nat, height as nat)),
{
    let mut name = String::new();
    push_decimal(&mut name, width as u64);
    push_chars(&mut name, &chars_of("x"));
    push_decimal(&mut name, height as u64);
    push_chars(&mut name, &chars_of(".jpg"));
    let d = cid_cache_dir(cache_dir, cid);
    join_path(d.as_str(), name.as_str())
}

} // verus!
