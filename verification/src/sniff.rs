//! Protocol sniffers: pure functions that extract the destination hostname
//! from the first TCP segment a client sends, without touching any state.
//!
//! One sniffer walks a raw TLS ClientHello record and returns the
//! server_name (SNI) extension's hostname; the other scans an HTTP/1.x
//! request for its `Host` header. Both are total: a buffer that ends before
//! a required field yields `ParseError::Truncated` (TLS) or
//! `ParseError::NotFound` (HTTP), never an out-of-bounds read.

use vstd::prelude::*;
use vstd::slice::slice_subrange;
use vstd::slice::slice_to_vec;

verus! {

/// Failure of a protocol sniffer: the buffer ended before a required field
/// (`Truncated`), or it holds no hostname at all (`NotFound`).
#[derive(Clone, Copy, PartialEq, Eq, Structural, Debug)]
pub enum ParseError {
    Truncated,
    NotFound,
}

/// The big-endian 16-bit quantity stored at offsets `i` and `i + 1` of `s`.
pub open spec fn be16(s: Seq<u8>, i: int) -> int {
    s[i] * 256 + s[i + 1]
}

/// Walk the extensions block of a ClientHello from offset `i`, looking for
/// the first server_name extension (type 0). Each record is
/// `type: u16 BE, length: u16 BE, payload: length bytes`; the hostname sits
/// at payload offset 7..7+name_length from the record's type field. A walk
/// that leaves the block without finding type 0 yields the empty hostname;
/// a read past the block's end is a truncation.
pub open spec fn find_sni(ext: Seq<u8>, i: int) -> Result<Seq<u8>, ParseError>
    decreases ext.len() - i,
{
    if i >= ext.len() {
        Ok(Seq::empty())
    } else if i + 4 > ext.len() {
        Err(ParseError::Truncated)
    } else {
        let ty = be16(ext, i);
        let len = be16(ext, i + 2);
        if ty != 0 {
            if i + 4 + len >= ext.len() {
                Ok(Seq::empty())
            } else {
                find_sni(ext, i + 4 + len)
            }
        } else {
            if i + 9 > ext.len() {
                Err(ParseError::Truncated)
            } else {
                let nlen = be16(ext, i + 7);
                if i + 9 + nlen > ext.len() {
                    Err(ParseError::Truncated)
                } else {
                    Ok(ext.subrange(i + 9, i + 9 + nlen))
                }
            }
        }
    }
}

/// The hostname carried by a TLS ClientHello record, or the truncation
/// error when the buffer ends before a field the walk must read.
///
/// Offsets are relative to the record start: the one-byte session-id length
/// sits at offset 43 (5-byte record header, 4-byte handshake header, 2-byte
/// version, 32-byte random), then the cipher-suites block, the
/// compression-methods block, the two-byte extensions-block length, and the
/// extensions block itself.
pub open spec fn tls_sni(msg: Seq<u8>) -> Result<Seq<u8>, ParseError> {
    if msg.len() < 44 {
        Err(ParseError::Truncated)
    } else {
        let sid = msg[43] as int;
        if 46 + sid > msg.len() {
            Err(ParseError::Truncated)
        } else {
            let cs = be16(msg, 44 + sid);
            let comp_start = 46 + sid + cs;
            if comp_start + 1 > msg.len() {
                Err(ParseError::Truncated)
            } else {
                let comp = msg[comp_start] as int;
                let ext_len_start = comp_start + 1 + comp;
                if ext_len_start + 2 > msg.len() {
                    Err(ParseError::Truncated)
                } else {
                    let ext_len = be16(msg, ext_len_start);
                    if ext_len_start + 2 + ext_len > msg.len() {
                        Err(ParseError::Truncated)
                    } else {
                        find_sni(
                            msg.subrange(ext_len_start + 2, ext_len_start + 2 + ext_len),
                            0,
                        )
                    }
                }
            }
        }
    }
}

/// Extracts the SNI hostname from a raw TLS ClientHello record.
///
/// Returns exactly the hostname bytes of the first server_name extension,
/// the empty hostname when the extensions block holds none, and
/// `ParseError::Truncated` when the buffer ends before a field the parse
/// must read.
pub fn get_server_name_from_hello_client_message(msg: &[u8]) -> (r: Result<Vec<u8>, ParseError>)
    ensures
        tls_sni(msg@) matches Ok(s) ==> r matches Ok(v) && v@ == s,
        tls_sni(msg@) matches Err(e) ==> r == Err::<Vec<u8>, ParseError>(e),
{
    let n = msg.len();
    if n < 44 {
        return Err(ParseError::Truncated);
    }
    let sid = msg[43] as usize;
    if 46 + sid > n {
        return Err(ParseError::Truncated);
    }
    let cs = (msg[44 + sid] as usize) * 256 + (msg[45 + sid] as usize);
    let comp_start = 46 + sid + cs;
    if comp_start + 1 > n {
        return Err(ParseError::Truncated);
    }
    let comp = msg[comp_start] as usize;
    let ext_len_start = comp_start + 1 + comp;
    if ext_len_start + 2 > n {
        return Err(ParseError::Truncated);
    }
    let ext_len = (msg[ext_len_start] as usize) * 256 + (msg[ext_len_start + 1] as usize);
    if ext_len_start + 2 + ext_len > n {
        return Err(ParseError::Truncated);
    }
    let ext = slice_subrange(msg, ext_len_start + 2, ext_len_start + 2 + ext_len);
    let mut i: usize = 0;
    while i < ext_len
        invariant
            ext@ =~= msg@.subrange(ext_len_start + 2, ext_len_start + 2 + ext_len),
            ext@.len() == ext_len,
            ext_len <= 65535,
            tls_sni(msg@) == find_sni(ext@, i as int),
        decreases ext_len - i,
    {
        if i + 4 > ext_len {
            return Err(ParseError::Truncated);
        }
        let ty = (ext[i] as usize) * 256 + (ext[i + 1] as usize);
        let len = (ext[i + 2] as usize) * 256 + (ext[i + 3] as usize);
        if ty != 0 {
            let ni = i + 4 + len;
            if ni >= ext_len {
                return Ok(Vec::new());
            }
            i = ni;
        } else {
            if i + 9 > ext_len {
                return Err(ParseError::Truncated);
            }
            let nlen = (ext[i + 7] as usize) * 256 + (ext[i + 8] as usize);
            if i + 9 + nlen > ext_len {
                return Err(ParseError::Truncated);
            }
            let name = slice_to_vec(slice_subrange(ext, i + 9, i + 9 + nlen));
            return Ok(name);
        }
    }
    Ok(Vec::new())
}

/// ASCII lower-casing of one byte; other bytes pass through unchanged.
pub open spec fn lower(b: u8) -> u8 {
    if 65 <= b && b <= 90 {
        (b + 32) as u8
    } else {
        b
    }
}

/// Whether `b` is an ASCII space or horizontal tab.
pub open spec fn is_ws(b: u8) -> bool {
    b == 32 || b == 9
}

/// Whether a header line starts at offset `i`: `i` opens the buffer or
/// follows a line feed, and the five bytes from `i` read `host:` up to
/// ASCII case.
pub open spec fn is_host_header_at(s: Seq<u8>, i: int) -> bool {
    &&& i + 5 <= s.len()
    &&& (i == 0 || s[i - 1] == 10)
    &&& lower(s[i]) == 104
    &&& lower(s[i + 1]) == 111
    &&& lower(s[i + 2]) == 115
    &&& lower(s[i + 3]) == 116
    &&& s[i + 4] == 58
}

/// Offset of the first Host header at or after `i`, if any.
pub open spec fn find_host(s: Seq<u8>, i: int) -> Option<int>
    decreases s.len() - i,
{
    if i + 5 > s.len() {
        None
    } else if is_host_header_at(s, i) {
        Some(i)
    } else {
        find_host(s, i + 1)
    }
}

/// Offset of the first carriage return or line feed at or after `j`, or the
/// buffer's end.
pub open spec fn line_end(s: Seq<u8>, j: int) -> int
    decreases s.len() - j,
{
    if j >= s.len() {
        j
    } else if s[j] == 13 || s[j] == 10 {
        j
    } else {
        line_end(s, j + 1)
    }
}

/// First offset in `j..end` that holds no space or tab, or `end`.
pub open spec fn skip_ws(s: Seq<u8>, j: int, end: int) -> int
    decreases end - j,
{
    if j >= end {
        j
    } else if is_ws(s[j]) {
        skip_ws(s, j + 1, end)
    } else {
        j
    }
}

/// Last offset in `start..j` before which no trailing space or tab remains:
/// trailing whitespace of `s[start..j]` is dropped from the right.
pub open spec fn rtrim(s: Seq<u8>, start: int, j: int) -> int
    decreases j - start,
{
    if j <= start {
        j
    } else if is_ws(s[j - 1]) {
        rtrim(s, start, j - 1)
    } else {
        j
    }
}

/// Offset of the first colon in `j..end`, or `end`.
pub open spec fn cut_colon(s: Seq<u8>, j: int, end: int) -> int
    decreases end - j,
{
    if j >= end {
        end
    } else if s[j] == 58 {
        j
    } else {
        cut_colon(s, j + 1, end)
    }
}

/// The value of the first `Host` header of an HTTP/1.x request: the bytes
/// after `Host:` up to the end of that line, trimmed of surrounding spaces
/// and tabs and cut before a trailing `:port` suffix. A buffer without a
/// Host header yields `ParseError::NotFound`.
pub open spec fn http_host(s: Seq<u8>) -> Result<Seq<u8>, ParseError> {
    match find_host(s, 0) {
        Option::None => Err(ParseError::NotFound),
        Option::Some(i) => {
            let vend = line_end(s, i + 5);
            let a = skip_ws(s, i + 5, vend);
            let b = rtrim(s, a, vend);
            let c = cut_colon(s, a, b);
            Ok(s.subrange(a, c))
        },
    }
}

/// Extracts the destination hostname from an HTTP/1.x request buffer: the
/// value of the first header whose name case-insensitively equals `Host`,
/// trimmed of surrounding whitespace and of a trailing port suffix.
pub fn get_server_name_from_http_request_message(msg: &[u8]) -> (r: Result<Vec<u8>, ParseError>)
    ensures
        http_host(msg@) matches Ok(s) ==> r matches Ok(v) && v@ == s,
        http_host(msg@) matches Err(e) ==> r == Err::<Vec<u8>, ParseError>(e),
{
    let n = msg.len();
    if n < 5 {
        return Err(ParseError::NotFound);
    }
    let mut i: usize = 0;
    let mut found: bool = false;
    while !found && i <= n - 5
        invariant
            n == msg@.len(),
            5 <= n,
            i + 4 <= n,
            found ==> i + 5 <= n && find_host(msg@, 0) == Some(i as int),
            !found ==> find_host(msg@, 0) == find_host(msg@, i as int),
        decreases n - i + (if found { 0int } else { 1int }),
    {
        let line_start = i == 0 || msg[i - 1] == 10;
        let b0 = lower_byte(msg[i]);
        let b1 = lower_byte(msg[i + 1]);
        let b2 = lower_byte(msg[i + 2]);
        let b3 = lower_byte(msg[i + 3]);
        let b4 = msg[i + 4];
        if line_start && b0 == 104 && b1 == 111 && b2 == 115 && b3 == 116 && b4 == 58 {
            proof {
                assert(is_host_header_at(msg@, i as int));
                assert(find_host(msg@, i as int) == Some(i as int));
            }
            found = true;
        } else {
            proof {
                assert(!is_host_header_at(msg@, i as int));
                assert(find_host(msg@, i as int) == find_host(msg@, i + 1));
            }
            i = i + 1;
        }
    }
    if !found {
        proof {
            assert(find_host(msg@, i as int) is None);
        }
        return Err(ParseError::NotFound);
    }
    let vstart = i + 5;
    let mut j: usize = vstart;
    while j < n && msg[j] != 13 && msg[j] != 10
        invariant
            n == msg@.len(),
            vstart <= j <= n,
            line_end(msg@, vstart as int) == line_end(msg@, j as int),
        decreases n - j,
    {
        j = j + 1;
    }
    let vend = j;
    proof {
        assert(line_end(msg@, vend as int) == vend as int);
    }
    let mut a: usize = vstart;
    while a < vend && (msg[a] == 32 || msg[a] == 9)
        invariant
            n == msg@.len(),
            vstart <= a <= vend <= n,
            skip_ws(msg@, vstart as int, vend as int) == skip_ws(msg@, a as int, vend as int),
        decreases vend - a,
    {
        a = a + 1;
    }
    proof {
        assert(skip_ws(msg@, a as int, vend as int) == a as int);
    }
    let mut b: usize = vend;
    while b > a && (msg[b - 1] == 32 || msg[b - 1] == 9)
        invariant
            n == msg@.len(),
            a <= b <= vend <= n,
            rtrim(msg@, a as int, vend as int) == rtrim(msg@, a as int, b as int),
        decreases b - a,
    {
        b = b - 1;
    }
    proof {
        assert(rtrim(msg@, a as int, b as int) == b as int);
    }
    let mut c: usize = a;
    while c < b && msg[c] != 58
        invariant
            n == msg@.len(),
            a <= c <= b <= n,
            cut_colon(msg@, a as int, b as int) == cut_colon(msg@, c as int, b as int),
        decreases b - c,
    {
        c = c + 1;
    }
    proof {
        assert(cut_colon(msg@, c as int, b as int) == c as int);
    }
    Ok(slice_to_vec(slice_subrange(msg, a, c)))
}

/// ASCII lower-casing of one byte, the executable twin of `lower`.
fn lower_byte(b: u8) -> (r: u8)
    ensures
        r == lower(b),
{
    if b >= 65 && b <= 90 {
        b + 32
    } else {
        b
    }
}

} // verus!
