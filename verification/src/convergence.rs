//! The catalog's convergence fingerprint — one hash over everything a build
//! writes into `shared.sqlite` out of its own embedded inputs.
//!
//! The fingerprint is a SHA-256, in lowercase hex, over the schema version
//! the convergence stamps, every column a catalog older than it grows, and
//! the exact bytes of every embedded seed, each length-prefixed so that two
//! inputs cannot run together into a third. A catalog whose stamp and
//! fingerprint both match this build's has already had this build's
//! convergence applied; anything less than a clear match is "not
//! converged", the direction in which being wrong costs a write rather
//! than a missed migration.

use vstd::prelude::*;
use vstd::utf8::encode_utf8;
use vstd::string::StringSliceAdditionalSpecFns;
use crate::text::{int_to_string, decimal, str_eq};

verus! {

/// What `sha2::Sha256` computes over `data`: the 32-byte digest.
pub uninterp spec fn sha256(data: Seq<u8>) -> Seq<u8>;

/// Calls `Digest::digest` of `sha2::Sha256` on `data`; the digest is named
/// `sha256` of the bytes, and is 32 bytes long (SHA-256's output size).
#[verifier::external_body]
fn sha256_digest(data: &Vec<u8>) -> (r: Vec<u8>)
    ensures
        r@ == sha256(data@),
        r@.len() == 32,
{
    <sha2::Sha256 as sha2::Digest>::digest(data.as_slice()).to_vec()
}

/// The UTF-8 bytes of some text.
pub open spec fn utf8(s: Seq<char>) -> Seq<u8> {
    encode_utf8(s)
}

/// One added column's contribution: `added_column=<table>.<column>:<n>\n`
/// followed by the `n` bytes of its DDL.
pub open spec fn added_entry(table: Seq<char>, column: Seq<char>, ddl: Seq<char>) -> Seq<u8> {
    utf8("added_column="@) + utf8(table) + utf8("."@) + utf8(column) + utf8(":"@) + utf8(
        decimal(utf8(ddl).len() as int),
    ) + utf8("\n"@) + utf8(ddl)
}

/// One input's contribution: `input=<path>:<n>\n` followed by its `n`
/// bytes.
pub open spec fn input_entry(path: Seq<char>, bytes: Seq<char>) -> Seq<u8> {
    utf8("input="@) + utf8(path) + utf8(":"@) + utf8(decimal(utf8(bytes).len() as int)) + utf8(
        "\n"@,
    ) + utf8(bytes)
}

pub open spec fn added_part(added: Seq<(String, String, String)>) -> Seq<u8>
    decreases added.len(),
{
    if added.len() == 0 {
        Seq::empty()
    } else {
        added_part(added.drop_last()) + added_entry(added.last().0@, added.last().1@, added.last().2@)
    }
}

pub open spec fn inputs_part(inputs: Seq<(String, String)>) -> Seq<u8>
    decreases inputs.len(),
{
    if inputs.len() == 0 {
        Seq::empty()
    } else {
        inputs_part(inputs.drop_last()) + input_entry(inputs.last().0@, inputs.last().1@)
    }
}

/// The bytes hashed: `schema_version=<v>\n`, then every added column in
/// order, then every input in order.
pub open spec fn preimage(version: i64, added: Seq<(String, String, String)>, inputs: Seq<(String, String)>) -> Seq<u8> {
    utf8("schema_version="@) + utf8(decimal(version as int)) + utf8("\n"@) + added_part(added)
        + inputs_part(inputs)
}

/// A byte as two lowercase hex digits.
pub open spec fn hex_digit(d: int) -> char {
    if d < 10 {
        (48 + d) as char
    } else {
        (87 + d) as char
    }
}

/// Bytes in lowercase hex, two digits per byte — what `{:x}` writes for a
/// digest.
pub open spec fn hex(b: Seq<u8>) -> Seq<char>
    decreases b.len(),
{
    if b.len() == 0 {
        Seq::empty()
    } else {
        hex(b.drop_last()) + seq![hex_digit(b.last() as int / 16), hex_digit(b.last() as int % 16)]
    }
}

fn push_text(out: &mut Vec<u8>, s: &str)
    ensures
        final(out)@ == old(out)@ + utf8(s@),
{
    let b = s.as_bytes();
    let mut i: usize = 0;
    while i < b.len()
        invariant
            b@ == s.spec_bytes(),
            i <= b@.len(),
            out@ == old(out)@ + b@.take(i as int),
        decreases b.len() - i,
    {
        out.push(b[i]);
        i = i + 1;
        assert(out@ =~= old(out)@ + b@.take(i as int));
    }
    assert(b@.take(b@.len() as int) =~= b@);
}

fn push_len_of(out: &mut Vec<u8>, s: &str)
    ensures
        final(out)@ == old(out)@ + utf8(decimal(utf8(s@).len() as int)),
{
    let n = s.as_bytes().len();
    let d = crate::text::nat_to_string(n as u64);
    proof {
        assert(n == s.spec_bytes().len());
        assert(decimal(n as int) == crate::text::nat_digits(n as nat));
    }
    push_text(out, d.as_str());
}

/// The bytes the fingerprint hashes, for schema version `version`, the
/// added columns `(table, column, ddl)` and the inputs `(path, contents)`.
pub fn fingerprint_preimage(version: i64, added: &Vec<(String, String, String)>, inputs: &Vec<(String, String)>) -> (r: Vec<u8>)
    ensures
        r@ == preimage(version, added@, inputs@),
{
    let mut out: Vec<u8> = Vec::new();
    push_text(&mut out, "schema_version=");
    let v = int_to_string(version);
    push_text(&mut out, v.as_str());
    push_text(&mut out, "\n");
    let ghost head = out@;
    let mut i: usize = 0;
    while i < added.len()
        invariant
            i <= added@.len(),
            out@ == head + added_part(added@.take(i as int)),
        decreases added.len() - i,
    {
        assert(added@.take(i + 1).drop_last() =~= added@.take(i as int));
        let ghost before = out@;
        push_text(&mut out, "added_column=");
        push_text(&mut out, added[i].0.as_str());
        push_text(&mut out, ".");
        push_text(&mut out, added[i].1.as_str());
        push_text(&mut out, ":");
        push_len_of(&mut out, added[i].2.as_str());
        push_text(&mut out, "\n");
        push_text(&mut out, added[i].2.as_str());
        assert(out@ =~= before + added_entry(added@[i as int].0@, added@[i as int].1@, added@[i as int].2@));
        i = i + 1;
    }
    assert(added@.take(added@.len() as int) =~= added@);
    let ghost mid = out@;
    let mut j: usize = 0;
    while j < inputs.len()
        invariant
            j <= inputs@.len(),
            out@ == mid + inputs_part(inputs@.take(j as int)),
        decreases inputs.len() - j,
    {
        assert(inputs@.take(j + 1).drop_last() =~= inputs@.take(j as int));
        let ghost before = out@;
        push_text(&mut out, "input=");
        push_text(&mut out, inputs[j].0.as_str());
        push_text(&mut out, ":");
        push_len_of(&mut out, inputs[j].1.as_str());
        push_text(&mut out, "\n");
        push_text(&mut out, inputs[j].1.as_str());
        assert(out@ =~= before + input_entry(inputs@[j as int].0@, inputs@[j as int].1@));
        j = j + 1;
    }
    assert(inputs@.take(inputs@.len() as int) =~= inputs@);
    assert(out@ =~= preimage(version, added@, inputs@));
    out
}

fn hex_digit_exec(d: u8) -> (c: char)
    requires
        d < 16,
    ensures
        c == hex_digit(d as int),
{
    if d < 10 {
        (48 + d) as char
    } else {
        (87 + d) as char
    }
}

/// Bytes in lowercase hex.
pub fn to_hex(b: &Vec<u8>) -> (r: String)
    ensures
        r@ == hex(b@),
{
    let mut r = String::new();
    let mut i: usize = 0;
    while i < b.len()
        invariant
            i <= b@.len(),
            r@ == hex(b@.take(i as int)),
        decreases b.len() - i,
    {
        assert(b@.take(i + 1).drop_last() =~= b@.take(i as int));
        let x = b[i];
        crate::text::push_char(&mut r, hex_digit_exec(x / 16));
        crate::text::push_char(&mut r, hex_digit_exec(x % 16));
        assert(r@ =~= hex(b@.take(i + 1)));
        i = i + 1;
    }
    assert(b@.take(b@.len() as int) =~= b@);
    r
}

/// The fingerprint of the convergence a build performs: the lowercase hex
/// SHA-256 of [`fingerprint_preimage`].
pub fn fingerprint(version: i64, added: &Vec<(String, String, String)>, inputs: &Vec<(String, String)>) -> (r: String)
    ensures
        r@ == hex(sha256(preimage(version, added@, inputs@))),
        r@.len() == 64,
{
    let p = fingerprint_preimage(version, added, inputs);
    let d = sha256_digest(&p);
    proof {
        lemma_hex_len(d@);
    }
    to_hex(&d)
}

/// Hex is two characters a byte.
pub proof fn lemma_hex_len(b: Seq<u8>)
    ensures
        hex(b).len() == 2 * b.len(),
    decreases b.len(),
{
    if b.len() > 0 {
        lemma_hex_len(b.drop_last());
    }
}

pub open spec fn opt_text(o: Option<String>) -> Option<Seq<char>> {
    match o {
        Some(s) => Some(s@),
        None => None,
    }
}

/// A catalog is converged for a build exactly when it is stamped with the
/// build's version and records the build's fingerprint.
pub open spec fn spec_converged(found_version: Option<i64>, build_version: i64, recorded: Option<Seq<char>>, want: Seq<char>) -> bool {
    found_version == Some(build_version) && recorded == Some(want)
}

/// Recording is what makes a catalog converged: once the convergence
/// stamped this build's version and recorded this build's fingerprint, the
/// check says yes — and for any other fingerprint, or no stamp, it says no.
pub proof fn lemma_recorded_fingerprint_is_converged(v: i64, f: Seq<char>, other: Seq<char>, found: Option<i64>)
    ensures
        spec_converged(Some(v), v, Some(f), f),
        other != f ==> !spec_converged(Some(v), v, Some(other), f),
        found != Some(v) ==> !spec_converged(found, v, Some(f), f),
{
}

/// Does a catalog already carry this build's convergence? Only when its
/// schema stamp is this build's (`found_version` is what the file says,
/// `None` when it could not be read) and its recorded fingerprint (`None`
/// when there is no table or no row) is `want`. Anything else is no.
pub fn is_converged(found_version: Option<i64>, build_version: i64, recorded: &Option<String>, want: &str) -> (r: bool)
    ensures
        r == spec_converged(found_version, build_version, opt_text(*recorded), want@),
{
    let stamped = match found_version {
        Some(v) => v == build_version,
        None => false,
    };
    if !stamped {
        return false;
    }
    match recorded {
        Some(f) => str_eq(f.as_str(), want),
        None => false,
    }
}

} // verus!
