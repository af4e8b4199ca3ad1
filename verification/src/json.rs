//! The structured error artifact.
//!
//! When an error-report destination is supplied, the reporter persists the
//! sub-error descriptions as one structured document with a single field,
//! `errors`, holding the ordered list of error strings — an empty list when
//! no errors occurred. The document is built here byte by byte, against a
//! specification of the exact output, so the artifact stays machine-readable
//! whatever the error strings contain.

use vstd::prelude::*;
use vstd::utf8::encode_utf8;

verus! {

/// The lower-case hexadecimal digit for a value below 16.
pub open spec fn hex_digit(v: int) -> u8 {
    if v < 10 {
        (48 + v) as u8  // '0'..'9'
    } else {
        (87 + v) as u8  // 'a'..'f'
    }
}

/// The escape of one byte inside a string literal of the document: quote
/// and backslash take a backslash escape, control bytes the six-byte
/// `\u00XX` form, and every other byte passes through unchanged (so UTF-8
/// continuation bytes survive verbatim).
pub open spec fn escaped_byte(b: u8) -> Seq<u8> {
    if b == 34 {  // '"'
        seq![92u8, 34u8]
    } else if b == 92 {  // '\\'
        seq![92u8, 92u8]
    } else if b < 32 {
        seq![92u8, 117u8, 48u8, 48u8, hex_digit(b as int / 16), hex_digit(b as int % 16)]
    } else {
        seq![b]
    }
}

/// `s` with every byte escaped.
pub open spec fn escaped(s: Seq<u8>) -> Seq<u8>
    decreases s.len(),
{
    if s.len() == 0 {
        Seq::empty()
    } else {
        escaped(s.drop_last()) + escaped_byte(s.last())
    }
}

/// A string literal of the document holding `s`: quote, escaped bytes, quote.
pub open spec fn quoted(s: Seq<u8>) -> Seq<u8> {
    seq![34u8] + escaped(s) + seq![34u8]
}

/// The members of the error array: one quoted string per error, in order,
/// separated by commas.
pub open spec fn error_list(errs: Seq<Seq<u8>>) -> Seq<u8>
    decreases errs.len(),
{
    if errs.len() == 0 {
        Seq::empty()
    } else if errs.len() == 1 {
        quoted(errs[0])
    } else {
        error_list(errs.drop_last()) + seq![44u8] + quoted(errs.last())
    }
}

/// The opening of the document: `{"errors":[`.
pub open spec fn doc_open() -> Seq<u8> {
    seq![123u8, 34u8, 101u8, 114u8, 114u8, 111u8, 114u8, 115u8, 34u8, 58u8, 91u8]
}

/// The closing of the document: `]}`.
pub open spec fn doc_close() -> Seq<u8> {
    seq![93u8, 125u8]
}

/// The whole artifact document for the given error byte strings.
pub open spec fn error_doc(errs: Seq<Seq<u8>>) -> Seq<u8> {
    doc_open() + error_list(errs) + doc_close()
}

/// The artifact document for error strings given as character sequences.
pub open spec fn error_doc_of_strings(errs: Seq<Seq<char>>) -> Seq<u8> {
    error_doc(errs.map_values(|s: Seq<char>| encode_utf8(s)))
}

/// Append the escape of one byte.
fn push_escaped_byte(out: &mut Vec<u8>, b: u8)
    ensures
        final(out)@ == old(out)@ + escaped_byte(b),
{
    if b == 34 {
        out.push(92);
        out.push(34);
    } else if b == 92 {
        out.push(92);
        out.push(92);
    } else if b < 32 {
        out.push(92);
        out.push(117);
        out.push(48);
        out.push(48);
        let hi = b / 16;
        let lo = b % 16;
        out.push(if hi < 10 { 48 + hi } else { 87 + hi });
        out.push(if lo < 10 { 48 + lo } else { 87 + lo });
    } else {
        out.push(b);
    }
    proof {
        assert(out@ =~= old(out)@ + escaped_byte(b));
    }
}

/// Append a quoted, escaped string literal holding the bytes of `s`.
fn push_quoted(out: &mut Vec<u8>, s: &str)
    ensures
        final(out)@ == old(out)@ + quoted(encode_utf8(s@)),
{
    let bytes: Vec<u8> = vstd::slice::slice_to_vec(s.as_bytes());
    out.push(34);
    let n = bytes.len();
    for i in 0..n
        invariant
            n == bytes@.len(),
            bytes@ == encode_utf8(s@),
            out@ == old(out)@ + seq![34u8] + escaped(bytes@.take(i as int)),
    {
        push_escaped_byte(out, bytes[i]);
        proof {
            assert(bytes@.take(i as int + 1).drop_last() =~= bytes@.take(i as int));
            assert(bytes@.take(i as int + 1).last() == bytes@[i as int]);
            assert(out@ =~= old(out)@ + seq![34u8] + escaped(bytes@.take(i as int + 1)));
        }
    }
    out.push(34);
    proof {
        assert(bytes@.take(n as int) =~= bytes@);
        assert(out@ =~= old(out)@ + quoted(encode_utf8(s@)));
    }
}

/// Encode the ordered error descriptions as the artifact document, exactly
/// one `errors` field holding the list — empty when no errors occurred.
pub fn error_doc_bytes(errors: &Vec<String>) -> (r: Vec<u8>)
    ensures
        r@ == error_doc_of_strings(errors@.map_values(|s: String| s@)),
{
    let ghost m = errors@.map_values(|s: String| s@).map_values(|s: Seq<char>| encode_utf8(s));
    let mut out: Vec<u8> = Vec::new();
    out.push(123);  // '{'
    out.push(34);  // '"'
    out.push(101);  // 'e'
    out.push(114);  // 'r'
    out.push(114);  // 'r'
    out.push(111);  // 'o'
    out.push(114);  // 'r'
    out.push(115);  // 's'
    out.push(34);  // '"'
    out.push(58);  // ':'
    out.push(91);  // '['
    proof {
        assert(out@ =~= doc_open());
    }
    let n = errors.len();
    for i in 0..n
        invariant
            n == errors@.len(),
            m == errors@.map_values(|s: String| s@).map_values(|s: Seq<char>| encode_utf8(s)),
            m.len() == n,
            out@ == doc_open() + error_list(m.take(i as int)),
    {
        if i > 0 {
            out.push(44);  // ','
        }
        push_quoted(&mut out, errors[i].as_str());
        proof {
            assert(m[i as int] == encode_utf8(errors@[i as int]@));
            assert(m.take(i as int + 1).drop_last() =~= m.take(i as int));
            assert(m.take(i as int + 1).last() == m[i as int]);
            if i == 0 {
                assert(error_list(m.take(1)) == quoted(m[0]));
            }
            assert(out@ =~= doc_open() + error_list(m.take(i as int + 1)));
        }
    }
    out.push(93);  // ']'
    out.push(125);  // '}'
    proof {
        assert(m.take(n as int) =~= m);
        assert(out@ =~= error_doc(m));
    }
    out
}

} // verus!
