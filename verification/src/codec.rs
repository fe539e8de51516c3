//! The canonical text payload of a vault.
//!
//! The store is written as one JSON-shaped UTF-8 object with a fixed key
//! order and no spare whitespace, so that every store has exactly one
//! serialized form.  Only `"` and `\` are escaped inside strings.  The
//! parser accepts exactly the serializer's output: parsing is proved to
//! invert serialization, and whatever the parser accepts is proved to be
//! the canonical form of what it returns.
//!
//! The passphrase is deliberately not part of the payload.

use vstd::prelude::*;
use vstd::utf8::{
    decode_utf8, decode_utf8_encode_utf8, encode_utf8, encode_utf8_decode_utf8,
    encode_utf8_valid_utf8, valid_utf8,
};
use crate::entry::{
    entries_view, files_view, Config, ConfigView, CustomFile, DatabaseFile, DbView, EntryType,
    EntryView, FileView, PasswordEntry,
};

verus! {

/// The byte `"` that opens and closes every string.
pub const QUOTE: u8 = 34;

/// The byte `\` that introduces an escape.
pub const BACKSLASH: u8 = 92;

// ---------------------------------------------------------------------------
// Escaping
// ---------------------------------------------------------------------------
/// The escaped form of one byte: `"` and `\` gain a leading backslash,
/// every other byte stands as itself.
pub open spec fn esc_byte(b: u8) -> Seq<u8> {
    if b == QUOTE || b == BACKSLASH {
        seq![BACKSLASH, b]
    } else {
        seq![b]
    }
}

/// The escaped form of a byte string.
pub open spec fn esc(bs: Seq<u8>) -> Seq<u8>
    decreases bs.len(),
{
    if bs.len() == 0 {
        Seq::<u8>::empty()
    } else {
        esc_byte(bs.first()) + esc(bs.drop_first())
    }
}

/// Escaping works byte by byte, also from the back.
proof fn lemma_esc_snoc(bs: Seq<u8>, b: u8)
    ensures
        esc(bs.push(b)) == esc(bs) + esc_byte(b),
    decreases bs.len(),
{
    if bs.len() == 0 {
        assert(bs.push(b).first() == b);
        assert(bs.push(b).drop_first() =~= Seq::<u8>::empty());
        assert(esc(bs.push(b)) == esc_byte(b) + esc(Seq::<u8>::empty()));
        assert(esc_byte(b) + Seq::<u8>::empty() =~= esc_byte(b));
        assert(esc(bs) + esc_byte(b) =~= esc_byte(b));
    } else {
        assert(bs.push(b).first() == bs.first());
        assert(bs.push(b).drop_first() =~= bs.drop_first().push(b));
        lemma_esc_snoc(bs.drop_first(), b);
        assert(esc_byte(bs.first()) + (esc(bs.drop_first()) + esc_byte(b)) =~= (esc_byte(bs.first())
            + esc(bs.drop_first())) + esc_byte(b));
    }
}

// ---------------------------------------------------------------------------
// Strings on the wire
// ---------------------------------------------------------------------------
/// The serialized form of a string: its UTF-8 bytes, escaped, in quotes.
pub open spec fn ser_str(s: Seq<char>) -> Seq<u8> {
    seq![QUOTE] + esc(encode_utf8(s)) + seq![QUOTE]
}

/// Scan an escaped string body up to its closing quote; yield the unescaped
/// bytes and what follows the quote.  Rejects a dangling `\`, an escape
/// other than `\"` or `\\`, and a missing closing quote.
pub open spec fn pars_str_body(data: Seq<u8>) -> Option<(Seq<u8>, Seq<u8>)>
    decreases data.len(),
{
    if data.len() == 0 {
        None
    } else if data.first() == QUOTE {
        Some((Seq::<u8>::empty(), data.drop_first()))
    } else if data.first() == BACKSLASH {
        if data.len() >= 2 && (data[1] == QUOTE || data[1] == BACKSLASH) {
            match pars_str_body(data.skip(2)) {
                Some(r) => Some((seq![data[1]] + r.0, r.1)),
                None => None,
            }
        } else {
            None
        }
    } else {
        match pars_str_body(data.drop_first()) {
            Some(r) => Some((seq![data.first()] + r.0, r.1)),
            None => None,
        }
    }
}

/// Parse a quoted, escaped, UTF-8 string; yield its characters and what
/// follows it.
pub open spec fn pars_str(data: Seq<u8>) -> Option<(Seq<char>, Seq<u8>)> {
    if data.len() > 0 && data.first() == QUOTE {
        match pars_str_body(data.drop_first()) {
            Some(r) => if valid_utf8(r.0) {
                Some((decode_utf8(r.0), r.1))
            } else {
                None
            },
            None => None,
        }
    } else {
        None
    }
}

/// Scanning an escaped body finds exactly the bytes that were escaped.
proof fn lemma_pars_str_body_of_esc(bs: Seq<u8>, rest: Seq<u8>)
    ensures
        pars_str_body(esc(bs) + seq![QUOTE] + rest) == Some((bs, rest)),
    decreases bs.len(),
{
    let data = esc(bs) + seq![QUOTE] + rest;
    if bs.len() == 0 {
        assert(data =~= seq![QUOTE] + rest);
        assert(data.drop_first() =~= rest);
    } else {
        let b = bs.first();
        lemma_pars_str_body_of_esc(bs.drop_first(), rest);
        if b == QUOTE || b == BACKSLASH {
            assert(data =~= seq![BACKSLASH, b] + (esc(bs.drop_first()) + seq![QUOTE] + rest));
            assert(data.first() == BACKSLASH);
            assert(data[1] == b);
            assert(data.skip(2) =~= esc(bs.drop_first()) + seq![QUOTE] + rest);
            assert(seq![b] + bs.drop_first() =~= bs);
        } else {
            assert(data =~= seq![b] + (esc(bs.drop_first()) + seq![QUOTE] + rest));
            assert(data.first() == b);
            assert(data.drop_first() =~= esc(bs.drop_first()) + seq![QUOTE] + rest);
            assert(seq![b] + bs.drop_first() =~= bs);
        }
    }
}

/// Whatever the scan accepts is the escape of what it returns.
proof fn lemma_pars_str_body_sound(data: Seq<u8>)
    ensures
        pars_str_body(data) matches Some(r) ==> data == esc(r.0) + seq![QUOTE] + r.1,
    decreases data.len(),
{
    if data.len() == 0 {
    } else if data.first() == QUOTE {
        if let Some(r) = pars_str_body(data) {
            assert(data =~= esc(r.0) + seq![QUOTE] + r.1);
        }
    } else if data.first() == BACKSLASH {
        if data.len() >= 2 && (data[1] == QUOTE || data[1] == BACKSLASH) {
            lemma_pars_str_body_sound(data.skip(2));
            if let Some(inner) = pars_str_body(data.skip(2)) {
                let r0 = seq![data[1]] + inner.0;
                assert(r0.first() == data[1]);
                assert(r0.drop_first() =~= inner.0);
                assert(esc(r0) == esc_byte(data[1]) + esc(inner.0));
                assert(esc(r0) =~= seq![BACKSLASH, data[1]] + esc(inner.0));
                assert(data =~= seq![BACKSLASH, data[1]] + data.skip(2));
                assert(data.skip(2) == esc(inner.0) + seq![QUOTE] + inner.1);
                assert(data =~= esc(r0) + seq![QUOTE] + inner.1);
            }
        }
    } else {
        lemma_pars_str_body_sound(data.drop_first());
        if let Some(inner) = pars_str_body(data.drop_first()) {
            let r0 = seq![data.first()] + inner.0;
            assert(r0.first() == data.first());
            assert(r0.drop_first() =~= inner.0);
            assert(esc(r0) == esc_byte(data.first()) + esc(inner.0));
            assert(esc(r0) =~= seq![data.first()] + esc(inner.0));
            assert(data =~= seq![data.first()] + data.drop_first());
            assert(data.drop_first() == esc(inner.0) + seq![QUOTE] + inner.1);
            assert(data =~= esc(r0) + seq![QUOTE] + inner.1);
        }
    }
}

/// Parsing a serialized string yields the string and what follows it.
pub proof fn lemma_pars_str_of_ser(s: Seq<char>, rest: Seq<u8>)
    ensures
        pars_str(ser_str(s) + rest) == Some((s, rest)),
{
    broadcast use encode_utf8_valid_utf8, encode_utf8_decode_utf8;

    let data = ser_str(s) + rest;
    assert(data.first() == QUOTE);
    assert(data.drop_first() =~= esc(encode_utf8(s)) + seq![QUOTE] + rest);
    lemma_pars_str_body_of_esc(encode_utf8(s), rest);
}

/// Whatever the string parser accepts is the serialization of its result.
pub proof fn lemma_pars_str_sound(data: Seq<u8>)
    ensures
        pars_str(data) matches Some(r) ==> data == ser_str(r.0) + r.1,
{
    if data.len() > 0 && data.first() == QUOTE {
        lemma_pars_str_body_sound(data.drop_first());
        if let Some(b) = pars_str_body(data.drop_first()) {
            if valid_utf8(b.0) {
                decode_utf8_encode_utf8(b.0);
                assert(data =~= seq![QUOTE] + data.drop_first());
                assert(data =~= ser_str(decode_utf8(b.0)) + b.1);
            }
        }
    }
}

/// Prefix the accepted bytes of a string-body scan.
pub open spec fn prepend_bytes(
    pre: Seq<u8>,
    o: Option<(Seq<u8>, Seq<u8>)>,
) -> Option<(Seq<u8>, Seq<u8>)> {
    match o {
        Some(r) => Some((pre + r.0, r.1)),
        None => None,
    }
}

// ---------------------------------------------------------------------------
// Fixed pieces of the wire form
// ---------------------------------------------------------------------------
/// Try to take the exact byte sequence `lit` off the front of `data`.
pub open spec fn pars_lit(data: Seq<u8>, lit: Seq<u8>) -> Option<Seq<u8>> {
    if lit.len() <= data.len() && data.take(lit.len() as int) == lit {
        Some(data.skip(lit.len() as int))
    } else {
        None
    }
}

/// Taking a literal off data that starts with it succeeds and leaves the
/// rest.
pub proof fn lemma_pars_lit_of_ser(lit: Seq<u8>, rest: Seq<u8>)
    ensures
        pars_lit(lit + rest, lit) == Some(rest),
{
    assert((lit + rest).take(lit.len() as int) =~= lit);
    assert((lit + rest).skip(lit.len() as int) =~= rest);
}

/// Whatever the literal parser accepts starts with the literal.
pub proof fn lemma_pars_lit_sound(data: Seq<u8>, lit: Seq<u8>)
    ensures
        pars_lit(data, lit) matches Some(rest) ==> data == lit + rest,
{
    if let Some(rest) = pars_lit(data, lit) {
        assert(data =~= lit + rest);
    }
}

// ---------------------------------------------------------------------------
// Trusted conversion from bytes back to text
// ---------------------------------------------------------------------------
/// Relies on `String::from_utf8`: it succeeds exactly on valid UTF-8 input,
/// and returns the string whose UTF-8 encoding is that input.
#[verifier::external_body]
fn bytes_to_string(v: Vec<u8>) -> (r: Option<String>)
    ensures
        r matches Some(s) ==> encode_utf8(s@) == v@,
        valid_utf8(v@) ==> r is Some,
{
    String::from_utf8(v).ok()
}

// ---------------------------------------------------------------------------
// Executable serializer pieces
// ---------------------------------------------------------------------------
/// Append a fixed piece of the wire form.
fn push_lit(out: &mut Vec<u8>, s: &str)
    ensures
        final(out)@ == old(out)@ + encode_utf8(s@),
{
    out.extend_from_slice(s.as_bytes());
}

/// Append the escaped UTF-8 bytes of `s`.
fn push_escaped(out: &mut Vec<u8>, s: &str)
    ensures
        final(out)@ == old(out)@ + esc(encode_utf8(s@)),
{
    let bytes = s.as_bytes();
    let n = bytes.len();
    let mut k: usize = 0;
    proof {
        assert(bytes@.take(0) =~= Seq::<u8>::empty());
        assert(out@ + esc(bytes@.take(0)) =~= out@);
    }
    while k < n
        invariant
            n == bytes@.len(),
            0 <= k <= n,
            bytes@ == encode_utf8(s@),
            out@ == old(out)@ + esc(bytes@.take(k as int)),
        decreases n - k,
    {
        let b = bytes[k];
        let ghost before = out@;
        if b == QUOTE || b == BACKSLASH {
            out.push(BACKSLASH);
            out.push(b);
            proof {
                assert(out@ =~= before + esc_byte(b));
            }
        } else {
            out.push(b);
            proof {
                assert(out@ =~= before + esc_byte(b));
            }
        }
        proof {
            lemma_esc_snoc(bytes@.take(k as int), b);
            assert(bytes@.take(k + 1) =~= bytes@.take(k as int).push(b));
            assert(old(out)@ + esc(bytes@.take(k as int)) + esc_byte(b) =~= old(out)@ + esc(
                bytes@.take(k + 1),
            ));
        }
        k = k + 1;
    }
    proof {
        assert(bytes@.take(n as int) =~= bytes@);
    }
}

/// Append the full serialized form of a string field.
fn push_str_field(out: &mut Vec<u8>, s: &str)
    ensures
        final(out)@ == old(out)@ + ser_str(s@),
{
    out.push(QUOTE);
    proof {
        assert(out@ =~= old(out)@ + seq![QUOTE]);
    }
    push_escaped(out, s);
    out.push(QUOTE);
    proof {
        assert(out@ =~= old(out)@ + (seq![QUOTE] + esc(encode_utf8(s@)) + seq![QUOTE]));
    }
}

// ---------------------------------------------------------------------------
// Executable parser pieces
// ---------------------------------------------------------------------------
/// Match the UTF-8 bytes of `lit` at position `i`; yield the position after
/// them.
fn expect_lit(data: &[u8], i: usize, lit: &str) -> (r: Option<usize>)
    requires
        i <= data@.len(),
    ensures
        r matches Some(j) ==> i <= j <= data@.len() && pars_lit(
            data@.skip(i as int),
            encode_utf8(lit@),
        ) == Some(data@.skip(j as int)) && j - i == encode_utf8(lit@).len(),
        r is None ==> pars_lit(data@.skip(i as int), encode_utf8(lit@)) is None,
{
    let lb = lit.as_bytes();
    let n = lb.len();
    let dn = data.len();
    if n > dn - i {
        proof {
            assert(data@.skip(i as int).len() < lb@.len());
        }
        return None;
    }
    let mut k: usize = 0;
    while k < n
        invariant
            n == lb@.len(),
            lb@ == encode_utf8(lit@),
            0 <= k <= n,
            dn == data@.len(),
            i + n <= dn,
            forall|m: int| 0 <= m < k ==> data@[i + m] == lb@[m],
        decreases n - k,
    {
        if data[i + k] != lb[k] {
            proof {
                let sub = data@.skip(i as int);
                assert(sub[k as int] == data@[i + k]);
                assert(sub.take(n as int)[k as int] == data@[i + k]);
                assert(sub.take(n as int) != lb@);
            }
            return None;
        }
        k = k + 1;
    }
    proof {
        let sub = data@.skip(i as int);
        assert forall|m: int| 0 <= m < n implies sub.take(n as int)[m] == lb@[m] by {
            assert(sub[m] == data@[i + m]);
        }
        assert(sub.take(n as int) =~= lb@);
        assert(sub.skip(n as int) =~= data@.skip(i + n));
    }
    Some(i + n)
}

/// Parse a quoted, escaped string at position `i`; yield it and the
/// position after its closing quote.
fn parse_str(data: &[u8], i: usize) -> (r: Option<(String, usize)>)
    requires
        i <= data@.len(),
    ensures
        r matches Some(p) ==> i < p.1 <= data@.len() && pars_str(data@.skip(i as int)) == Some(
            (p.0@, data@.skip(p.1 as int)),
        ),
        r is None ==> pars_str(data@.skip(i as int)) is None,
{
    broadcast use encode_utf8_valid_utf8, encode_utf8_decode_utf8;

    if i == data.len() {
        return None;
    }
    if data[i] != QUOTE {
        proof {
            assert(data@.skip(i as int).first() == data@[i as int]);
        }
        return None;
    }
    proof {
        assert(data@.skip(i as int).first() == data@[i as int]);
        assert(data@.skip(i as int).drop_first() =~= data@.skip(i + 1));
    }
    let mut buf: Vec<u8> = Vec::new();
    let mut j: usize = i + 1;
    proof {
        if let Some(r2) = pars_str_body(data@.skip(j as int)) {
            assert(Seq::<u8>::empty() + r2.0 =~= r2.0);
        }
        assert(prepend_bytes(buf@, pars_str_body(data@.skip(j as int))) == pars_str_body(
            data@.skip(i + 1),
        ));
    }
    while j < data.len()
        invariant
            i < data@.len(),
            data@[i as int] == QUOTE,
            i + 1 <= j <= data@.len(),
            pars_str_body(data@.skip(i + 1)) == prepend_bytes(
                buf@,
                pars_str_body(data@.skip(j as int)),
            ),
        decreases data@.len() - j,
    {
        let ghost tail = data@.skip(j as int);
        proof {
            assert(tail.first() == data@[j as int]);
        }
        let b = data[j];
        if b == QUOTE {
            proof {
                assert(tail.drop_first() =~= data@.skip(j + 1));
                assert(pars_str_body(tail) == Some(
                    (Seq::<u8>::empty(), data@.skip(j + 1)),
                ));
                assert(buf@ + Seq::<u8>::empty() =~= buf@);
            }
            proof {
                assert(data@.skip(i as int).first() == data@[i as int]);
                assert(data@.skip(i as int).drop_first() =~= data@.skip(i + 1));
            }
            match bytes_to_string(buf) {
                Some(s) => {
                    proof {
                        encode_utf8_valid_utf8(s@);
                        encode_utf8_decode_utf8(s@);
                        assert(pars_str(data@.skip(i as int)) == Some(
                            (s@, data@.skip(j + 1)),
                        ));
                    }
                    return Some((s, j + 1));
                },
                None => {
                    proof {
                        assert(!valid_utf8(buf@));
                        assert(pars_str(data@.skip(i as int)) is None);
                    }
                    return None;
                },
            }
        } else if b == BACKSLASH {
            if j + 1 == data.len() {
                proof {
                    assert(tail.len() == 1);
                    assert(pars_str_body(tail) is None);
                    assert(data@.skip(i as int).first() == data@[i as int]);
                    assert(data@.skip(i as int).drop_first() =~= data@.skip(i + 1));
                }
                return None;
            }
            let c = data[j + 1];
            proof {
                assert(tail[1] == data@[j + 1]);
            }
            if c == QUOTE || c == BACKSLASH {
                let ghost before = buf@;
                buf.push(c);
                j = j + 2;
                proof {
                    assert(tail.skip(2) =~= data@.skip(j as int));
                    if let Some(r2) = pars_str_body(data@.skip(j as int)) {
                        assert(pars_str_body(tail) == Some((seq![c] + r2.0, r2.1)));
                        assert(before + (seq![c] + r2.0) =~= buf@ + r2.0);
                    } else {
                        assert(pars_str_body(tail) is None);
                    }
                }
            } else {
                proof {
                    assert(pars_str_body(tail) is None);
                    assert(data@.skip(i as int).first() == data@[i as int]);
                    assert(data@.skip(i as int).drop_first() =~= data@.skip(i + 1));
                }
                return None;
            }
        } else {
            let ghost before = buf@;
            buf.push(b);
            j = j + 1;
            proof {
                assert(tail.drop_first() =~= data@.skip(j as int));
                if let Some(r2) = pars_str_body(data@.skip(j as int)) {
                    assert(pars_str_body(tail) == Some((seq![b] + r2.0, r2.1)));
                    assert(before + (seq![b] + r2.0) =~= buf@ + r2.0);
                } else {
                    assert(pars_str_body(tail) is None);
                }
            }
        }
    }
    proof {
        assert(data@.skip(j as int).len() == 0);
        assert(pars_str_body(data@.skip(j as int)) is None);
        assert(data@.skip(i as int).first() == data@[i as int]);
        assert(data@.skip(i as int).drop_first() =~= data@.skip(i + 1));
    }
    None
}


// ---------------------------------------------------------------------------
// The wire form of the store
// ---------------------------------------------------------------------------
/// The byte `{`.
pub const OPEN_BRACE: u8 = 123;

/// The byte `}`.
pub const CLOSE_BRACE: u8 = 125;

/// The byte `[`.
pub const OPEN_BRACKET: u8 = 91;

/// The byte `]`.
pub const CLOSE_BRACKET: u8 = 93;

/// The byte `,`.
pub const COMMA: u8 = 44;

/// The UTF-8 bytes of a fixed key of the wire form.
pub open spec fn kb(s: Seq<char>) -> Seq<u8> {
    encode_utf8(s)
}

/// Take one expected byte off the front of `data`.
pub open spec fn pars_byte(data: Seq<u8>, b: u8) -> Option<Seq<u8>> {
    if data.len() > 0 && data.first() == b {
        Some(data.drop_first())
    } else {
        None
    }
}

/// The serialized form of an entry type: its variant name as a string.
pub open spec fn ser_etype(t: EntryType) -> Seq<u8> {
    match t {
        EntryType::ClassicPassword => ser_str("ClassicPassword"@),
        EntryType::EnvironmentVariable => ser_str("EnvironmentVariable"@),
    }
}

/// Parse an entry type: a string that must be one of the variant names.
pub open spec fn pars_etype(data: Seq<u8>) -> Option<(EntryType, Seq<u8>)> {
    match pars_str(data) {
        None => None,
        Some((s, rest)) => if s == "ClassicPassword"@ {
            Some((EntryType::ClassicPassword, rest))
        } else if s == "EnvironmentVariable"@ {
            Some((EntryType::EnvironmentVariable, rest))
        } else {
            None
        },
    }
}

/// Parsing a serialized entry type yields it back.
pub proof fn lemma_pars_etype_of_ser(t: EntryType, rest: Seq<u8>)
    ensures
        pars_etype(ser_etype(t) + rest) == Some((t, rest)),
{
    match t {
        EntryType::ClassicPassword => {
            lemma_pars_str_of_ser("ClassicPassword"@, rest);
        },
        EntryType::EnvironmentVariable => {
            lemma_pars_str_of_ser("EnvironmentVariable"@, rest);
            reveal_strlit("ClassicPassword");
            reveal_strlit("EnvironmentVariable");
            assert("EnvironmentVariable"@ != "ClassicPassword"@);
        },
    }
}

/// Whatever the entry-type parser accepts is the serialization of its
/// result.
pub proof fn lemma_pars_etype_sound(data: Seq<u8>)
    ensures
        pars_etype(data) matches Some(r) ==> data == ser_etype(r.0) + r.1,
{
    lemma_pars_str_sound(data);
}

/// Re-associate a concatenation of 10 pieces and a tail.
proof fn lemma_assoc10(
    a1: Seq<u8>,
    a2: Seq<u8>,
    a3: Seq<u8>,
    a4: Seq<u8>,
    a5: Seq<u8>,
    a6: Seq<u8>,
    a7: Seq<u8>,
    a8: Seq<u8>,
    a9: Seq<u8>,
    a10: Seq<u8>,
    tail: Seq<u8>,
)
    ensures
        a1 + (a2 + (a3 + (a4 + (a5 + (a6 + (a7 + (a8 + (a9 + (a10 + tail))))))))) == a1 + a2 + a3 + a4 + a5 + a6 + a7 + a8 + a9 + a10 + tail,
{
    vstd::seq_lib::lemma_concat_associative(a1 + a2 + a3 + a4 + a5 + a6 + a7 + a8 + a9, a10, tail);
    vstd::seq_lib::lemma_concat_associative(a1 + a2 + a3 + a4 + a5 + a6 + a7 + a8, a9, a10 + tail);
    vstd::seq_lib::lemma_concat_associative(a1 + a2 + a3 + a4 + a5 + a6 + a7, a8, a9 + (a10 + tail));
    vstd::seq_lib::lemma_concat_associative(a1 + a2 + a3 + a4 + a5 + a6, a7, a8 + (a9 + (a10 + tail)));
    vstd::seq_lib::lemma_concat_associative(a1 + a2 + a3 + a4 + a5, a6, a7 + (a8 + (a9 + (a10 + tail))));
    vstd::seq_lib::lemma_concat_associative(a1 + a2 + a3 + a4, a5, a6 + (a7 + (a8 + (a9 + (a10 + tail)))));
    vstd::seq_lib::lemma_concat_associative(a1 + a2 + a3, a4, a5 + (a6 + (a7 + (a8 + (a9 + (a10 + tail))))));
    vstd::seq_lib::lemma_concat_associative(a1 + a2, a3, a4 + (a5 + (a6 + (a7 + (a8 + (a9 + (a10 + tail)))))));
    vstd::seq_lib::lemma_concat_associative(a1, a2, a3 + (a4 + (a5 + (a6 + (a7 + (a8 + (a9 + (a10 + tail))))))));
}

/// Re-associate a concatenation of 16 pieces and a tail.
proof fn lemma_assoc16(
    a1: Seq<u8>,
    a2: Seq<u8>,
    a3: Seq<u8>,
    a4: Seq<u8>,
    a5: Seq<u8>,
    a6: Seq<u8>,
    a7: Seq<u8>,
    a8: Seq<u8>,
    a9: Seq<u8>,
    a10: Seq<u8>,
    a11: Seq<u8>,
    a12: Seq<u8>,
    a13: Seq<u8>,
    a14: Seq<u8>,
    a15: Seq<u8>,
    a16: Seq<u8>,
    tail: Seq<u8>,
)
    ensures
        a1 + (a2 + (a3 + (a4 + (a5 + (a6 + (a7 + (a8 + (a9 + (a10 + (a11 + (a12 + (a13 + (a14 + (a15 + (a16 + tail))))))))))))))) == a1 + a2 + a3 + a4 + a5 + a6 + a7 + a8 + a9 + a10 + a11 + a12 + a13 + a14 + a15 + a16 + tail,
{
    vstd::seq_lib::lemma_concat_associative(a1 + a2 + a3 + a4 + a5 + a6 + a7 + a8 + a9 + a10 + a11 + a12 + a13 + a14 + a15, a16, tail);
    vstd::seq_lib::lemma_concat_associative(a1 + a2 + a3 + a4 + a5 + a6 + a7 + a8 + a9 + a10 + a11 + a12 + a13 + a14, a15, a16 + tail);
    vstd::seq_lib::lemma_concat_associative(a1 + a2 + a3 + a4 + a5 + a6 + a7 + a8 + a9 + a10 + a11 + a12 + a13, a14, a15 + (a16 + tail));
    vstd::seq_lib::lemma_concat_associative(a1 + a2 + a3 + a4 + a5 + a6 + a7 + a8 + a9 + a10 + a11 + a12, a13, a14 + (a15 + (a16 + tail)));
    vstd::seq_lib::lemma_concat_associative(a1 + a2 + a3 + a4 + a5 + a6 + a7 + a8 + a9 + a10 + a11, a12, a13 + (a14 + (a15 + (a16 + tail))));
    vstd::seq_lib::lemma_concat_associative(a1 + a2 + a3 + a4 + a5 + a6 + a7 + a8 + a9 + a10, a11, a12 + (a13 + (a14 + (a15 + (a16 + tail)))));
    vstd::seq_lib::lemma_concat_associative(a1 + a2 + a3 + a4 + a5 + a6 + a7 + a8 + a9, a10, a11 + (a12 + (a13 + (a14 + (a15 + (a16 + tail))))));
    vstd::seq_lib::lemma_concat_associative(a1 + a2 + a3 + a4 + a5 + a6 + a7 + a8, a9, a10 + (a11 + (a12 + (a13 + (a14 + (a15 + (a16 + tail)))))));
    vstd::seq_lib::lemma_concat_associative(a1 + a2 + a3 + a4 + a5 + a6 + a7, a8, a9 + (a10 + (a11 + (a12 + (a13 + (a14 + (a15 + (a16 + tail))))))));
    vstd::seq_lib::lemma_concat_associative(a1 + a2 + a3 + a4 + a5 + a6, a7, a8 + (a9 + (a10 + (a11 + (a12 + (a13 + (a14 + (a15 + (a16 + tail)))))))));
    vstd::seq_lib::lemma_concat_associative(a1 + a2 + a3 + a4 + a5, a6, a7 + (a8 + (a9 + (a10 + (a11 + (a12 + (a13 + (a14 + (a15 + (a16 + tail))))))))));
    vstd::seq_lib::lemma_concat_associative(a1 + a2 + a3 + a4, a5, a6 + (a7 + (a8 + (a9 + (a10 + (a11 + (a12 + (a13 + (a14 + (a15 + (a16 + tail)))))))))));
    vstd::seq_lib::lemma_concat_associative(a1 + a2 + a3, a4, a5 + (a6 + (a7 + (a8 + (a9 + (a10 + (a11 + (a12 + (a13 + (a14 + (a15 + (a16 + tail))))))))))));
    vstd::seq_lib::lemma_concat_associative(a1 + a2, a3, a4 + (a5 + (a6 + (a7 + (a8 + (a9 + (a10 + (a11 + (a12 + (a13 + (a14 + (a15 + (a16 + tail)))))))))))));
    vstd::seq_lib::lemma_concat_associative(a1, a2, a3 + (a4 + (a5 + (a6 + (a7 + (a8 + (a9 + (a10 + (a11 + (a12 + (a13 + (a14 + (a15 + (a16 + tail))))))))))))));
}

/// Re-associate a concatenation of 28 pieces and a tail.
proof fn lemma_assoc28(
    a1: Seq<u8>,
    a2: Seq<u8>,
    a3: Seq<u8>,
    a4: Seq<u8>,
    a5: Seq<u8>,
    a6: Seq<u8>,
    a7: Seq<u8>,
    a8: Seq<u8>,
    a9: Seq<u8>,
    a10: Seq<u8>,
    a11: Seq<u8>,
    a12: Seq<u8>,
    a13: Seq<u8>,
    a14: Seq<u8>,
    a15: Seq<u8>,
    a16: Seq<u8>,
    a17: Seq<u8>,
    a18: Seq<u8>,
    a19: Seq<u8>,
    a20: Seq<u8>,
    a21: Seq<u8>,
    a22: Seq<u8>,
    a23: Seq<u8>,
    a24: Seq<u8>,
    a25: Seq<u8>,
    a26: Seq<u8>,
    a27: Seq<u8>,
    a28: Seq<u8>,
    tail: Seq<u8>,
)
    ensures
        a1 + (a2 + (a3 + (a4 + (a5 + (a6 + (a7 + (a8 + (a9 + (a10 + (a11 + (a12 + (a13 + (a14 + (a15 + (a16 + (a17 + (a18 + (a19 + (a20 + (a21 + (a22 + (a23 + (a24 + (a25 + (a26 + (a27 + (a28 + tail))))))))))))))))))))))))))) == a1 + a2 + a3 + a4 + a5 + a6 + a7 + a8 + a9 + a10 + a11 + a12 + a13 + a14 + a15 + a16 + a17 + a18 + a19 + a20 + a21 + a22 + a23 + a24 + a25 + a26 + a27 + a28 + tail,
{
    vstd::seq_lib::lemma_concat_associative(a1 + a2 + a3 + a4 + a5 + a6 + a7 + a8 + a9 + a10 + a11 + a12 + a13 + a14 + a15 + a16 + a17 + a18 + a19 + a20 + a21 + a22 + a23 + a24 + a25 + a26 + a27, a28, tail);
    vstd::seq_lib::lemma_concat_associative(a1 + a2 + a3 + a4 + a5 + a6 + a7 + a8 + a9 + a10 + a11 + a12 + a13 + a14 + a15 + a16 + a17 + a18 + a19 + a20 + a21 + a22 + a23 + a24 + a25 + a26, a27, a28 + tail);
    vstd::seq_lib::lemma_concat_associative(a1 + a2 + a3 + a4 + a5 + a6 + a7 + a8 + a9 + a10 + a11 + a12 + a13 + a14 + a15 + a16 + a17 + a18 + a19 + a20 + a21 + a22 + a23 + a24 + a25, a26, a27 + (a28 + tail));
    vstd::seq_lib::lemma_concat_associative(a1 + a2 + a3 + a4 + a5 + a6 + a7 + a8 + a9 + a10 + a11 + a12 + a13 + a14 + a15 + a16 + a17 + a18 + a19 + a20 + a21 + a22 + a23 + a24, a25, a26 + (a27 + (a28 + tail)));
    vstd::seq_lib::lemma_concat_associative(a1 + a2 + a3 + a4 + a5 + a6 + a7 + a8 + a9 + a10 + a11 + a12 + a13 + a14 + a15 + a16 + a17 + a18 + a19 + a20 + a21 + a22 + a23, a24, a25 + (a26 + (a27 + (a28 + tail))));
    vstd::seq_lib::lemma_concat_associative(a1 + a2 + a3 + a4 + a5 + a6 + a7 + a8 + a9 + a10 + a11 + a12 + a13 + a14 + a15 + a16 + a17 + a18 + a19 + a20 + a21 + a22, a23, a24 + (a25 + (a26 + (a27 + (a28 + tail)))));
    vstd::seq_lib::lemma_concat_associative(a1 + a2 + a3 + a4 + a5 + a6 + a7 + a8 + a9 + a10 + a11 + a12 + a13 + a14 + a15 + a16 + a17 + a18 + a19 + a20 + a21, a22, a23 + (a24 + (a25 + (a26 + (a27 + (a28 + tail))))));
    vstd::seq_lib::lemma_concat_associative(a1 + a2 + a3 + a4 + a5 + a6 + a7 + a8 + a9 + a10 + a11 + a12 + a13 + a14 + a15 + a16 + a17 + a18 + a19 + a20, a21, a22 + (a23 + (a24 + (a25 + (a26 + (a27 + (a28 + tail)))))));
    vstd::seq_lib::lemma_concat_associative(a1 + a2 + a3 + a4 + a5 + a6 + a7 + a8 + a9 + a10 + a11 + a12 + a13 + a14 + a15 + a16 + a17 + a18 + a19, a20, a21 + (a22 + (a23 + (a24 + (a25 + (a26 + (a27 + (a28 + tail))))))));
    vstd::seq_lib::lemma_concat_associative(a1 + a2 + a3 + a4 + a5 + a6 + a7 + a8 + a9 + a10 + a11 + a12 + a13 + a14 + a15 + a16 + a17 + a18, a19, a20 + (a21 + (a22 + (a23 + (a24 + (a25 + (a26 + (a27 + (a28 + tail)))))))));
    vstd::seq_lib::lemma_concat_associative(a1 + a2 + a3 + a4 + a5 + a6 + a7 + a8 + a9 + a10 + a11 + a12 + a13 + a14 + a15 + a16 + a17, a18, a19 + (a20 + (a21 + (a22 + (a23 + (a24 + (a25 + (a26 + (a27 + (a28 + tail))))))))));
    vstd::seq_lib::lemma_concat_associative(a1 + a2 + a3 + a4 + a5 + a6 + a7 + a8 + a9 + a10 + a11 + a12 + a13 + a14 + a15 + a16, a17, a18 + (a19 + (a20 + (a21 + (a22 + (a23 + (a24 + (a25 + (a26 + (a27 + (a28 + tail)))))))))));
    vstd::seq_lib::lemma_concat_associative(a1 + a2 + a3 + a4 + a5 + a6 + a7 + a8 + a9 + a10 + a11 + a12 + a13 + a14 + a15, a16, a17 + (a18 + (a19 + (a20 + (a21 + (a22 + (a23 + (a24 + (a25 + (a26 + (a27 + (a28 + tail))))))))))));
    vstd::seq_lib::lemma_concat_associative(a1 + a2 + a3 + a4 + a5 + a6 + a7 + a8 + a9 + a10 + a11 + a12 + a13 + a14, a15, a16 + (a17 + (a18 + (a19 + (a20 + (a21 + (a22 + (a23 + (a24 + (a25 + (a26 + (a27 + (a28 + tail)))))))))))));
    vstd::seq_lib::lemma_concat_associative(a1 + a2 + a3 + a4 + a5 + a6 + a7 + a8 + a9 + a10 + a11 + a12 + a13, a14, a15 + (a16 + (a17 + (a18 + (a19 + (a20 + (a21 + (a22 + (a23 + (a24 + (a25 + (a26 + (a27 + (a28 + tail))))))))))))));
    vstd::seq_lib::lemma_concat_associative(a1 + a2 + a3 + a4 + a5 + a6 + a7 + a8 + a9 + a10 + a11 + a12, a13, a14 + (a15 + (a16 + (a17 + (a18 + (a19 + (a20 + (a21 + (a22 + (a23 + (a24 + (a25 + (a26 + (a27 + (a28 + tail)))))))))))))));
    vstd::seq_lib::lemma_concat_associative(a1 + a2 + a3 + a4 + a5 + a6 + a7 + a8 + a9 + a10 + a11, a12, a13 + (a14 + (a15 + (a16 + (a17 + (a18 + (a19 + (a20 + (a21 + (a22 + (a23 + (a24 + (a25 + (a26 + (a27 + (a28 + tail))))))))))))))));
    vstd::seq_lib::lemma_concat_associative(a1 + a2 + a3 + a4 + a5 + a6 + a7 + a8 + a9 + a10, a11, a12 + (a13 + (a14 + (a15 + (a16 + (a17 + (a18 + (a19 + (a20 + (a21 + (a22 + (a23 + (a24 + (a25 + (a26 + (a27 + (a28 + tail)))))))))))))))));
    vstd::seq_lib::lemma_concat_associative(a1 + a2 + a3 + a4 + a5 + a6 + a7 + a8 + a9, a10, a11 + (a12 + (a13 + (a14 + (a15 + (a16 + (a17 + (a18 + (a19 + (a20 + (a21 + (a22 + (a23 + (a24 + (a25 + (a26 + (a27 + (a28 + tail))))))))))))))))));
    vstd::seq_lib::lemma_concat_associative(a1 + a2 + a3 + a4 + a5 + a6 + a7 + a8, a9, a10 + (a11 + (a12 + (a13 + (a14 + (a15 + (a16 + (a17 + (a18 + (a19 + (a20 + (a21 + (a22 + (a23 + (a24 + (a25 + (a26 + (a27 + (a28 + tail)))))))))))))))))));
    vstd::seq_lib::lemma_concat_associative(a1 + a2 + a3 + a4 + a5 + a6 + a7, a8, a9 + (a10 + (a11 + (a12 + (a13 + (a14 + (a15 + (a16 + (a17 + (a18 + (a19 + (a20 + (a21 + (a22 + (a23 + (a24 + (a25 + (a26 + (a27 + (a28 + tail))))))))))))))))))));
    vstd::seq_lib::lemma_concat_associative(a1 + a2 + a3 + a4 + a5 + a6, a7, a8 + (a9 + (a10 + (a11 + (a12 + (a13 + (a14 + (a15 + (a16 + (a17 + (a18 + (a19 + (a20 + (a21 + (a22 + (a23 + (a24 + (a25 + (a26 + (a27 + (a28 + tail)))))))))))))))))))));
    vstd::seq_lib::lemma_concat_associative(a1 + a2 + a3 + a4 + a5, a6, a7 + (a8 + (a9 + (a10 + (a11 + (a12 + (a13 + (a14 + (a15 + (a16 + (a17 + (a18 + (a19 + (a20 + (a21 + (a22 + (a23 + (a24 + (a25 + (a26 + (a27 + (a28 + tail))))))))))))))))))))));
    vstd::seq_lib::lemma_concat_associative(a1 + a2 + a3 + a4, a5, a6 + (a7 + (a8 + (a9 + (a10 + (a11 + (a12 + (a13 + (a14 + (a15 + (a16 + (a17 + (a18 + (a19 + (a20 + (a21 + (a22 + (a23 + (a24 + (a25 + (a26 + (a27 + (a28 + tail)))))))))))))))))))))));
    vstd::seq_lib::lemma_concat_associative(a1 + a2 + a3, a4, a5 + (a6 + (a7 + (a8 + (a9 + (a10 + (a11 + (a12 + (a13 + (a14 + (a15 + (a16 + (a17 + (a18 + (a19 + (a20 + (a21 + (a22 + (a23 + (a24 + (a25 + (a26 + (a27 + (a28 + tail))))))))))))))))))))))));
    vstd::seq_lib::lemma_concat_associative(a1 + a2, a3, a4 + (a5 + (a6 + (a7 + (a8 + (a9 + (a10 + (a11 + (a12 + (a13 + (a14 + (a15 + (a16 + (a17 + (a18 + (a19 + (a20 + (a21 + (a22 + (a23 + (a24 + (a25 + (a26 + (a27 + (a28 + tail)))))))))))))))))))))))));
    vstd::seq_lib::lemma_concat_associative(a1, a2, a3 + (a4 + (a5 + (a6 + (a7 + (a8 + (a9 + (a10 + (a11 + (a12 + (a13 + (a14 + (a15 + (a16 + (a17 + (a18 + (a19 + (a20 + (a21 + (a22 + (a23 + (a24 + (a25 + (a26 + (a27 + (a28 + tail))))))))))))))))))))))))));
}

/// The serialized form of an attached file.
#[verifier::opaque]
pub open spec fn ser_file(f: FileView) -> Seq<u8> {
    seq![OPEN_BRACE] + kb("\"content\":"@) + ser_str(f.content) + seq![COMMA] + kb("\"comment\":"@)
        + ser_str(f.comment) + seq![COMMA] + kb("\"name\":"@) + ser_str(f.name) + seq![CLOSE_BRACE]
}

/// Parse one attached file.
#[verifier::opaque]
pub open spec fn pars_file(data: Seq<u8>) -> Option<(FileView, Seq<u8>)> {
    match pars_byte(data, OPEN_BRACE) {
        None => None,
        Some(d1) => match pars_lit(d1, kb("\"content\":"@)) {
            None => None,
            Some(d2) => match pars_str(d2) {
                None => None,
                Some((content, d3)) => match pars_byte(d3, COMMA) {
                    None => None,
                    Some(d4) => match pars_lit(d4, kb("\"comment\":"@)) {
                        None => None,
                        Some(d5) => match pars_str(d5) {
                            None => None,
                            Some((comment, d6)) => match pars_byte(d6, COMMA) {
                                None => None,
                                Some(d7) => match pars_lit(d7, kb("\"name\":"@)) {
                                    None => None,
                                    Some(d8) => match pars_str(d8) {
                                        None => None,
                                        Some((name, d9)) => match pars_byte(d9, CLOSE_BRACE) {
                                            None => None,
                                            Some(d10) => Some(
                                                (FileView { content, comment, name }, d10),
                                            ),
                                        },
                                    },
                                },
                            },
                        },
                    },
                },
            },
        },
    }
}

/// Parsing a serialized file yields it back.
pub proof fn lemma_pars_file_of_ser(f: FileView, rest: Seq<u8>)
    ensures
        pars_file(ser_file(f) + rest) == Some((f, rest)),
{
    reveal(ser_file);
    reveal(pars_file);
    let t10 = seq![CLOSE_BRACE] + rest;
    let t9 = ser_str(f.name) + t10;
    let t8 = kb("\"name\":"@) + t9;
    let t7 = seq![COMMA] + t8;
    let t6 = ser_str(f.comment) + t7;
    let t5 = kb("\"comment\":"@) + t6;
    let t4 = seq![COMMA] + t5;
    let t3 = ser_str(f.content) + t4;
    let t2 = kb("\"content\":"@) + t3;
    let t1 = seq![OPEN_BRACE] + t2;
    lemma_assoc10(
        seq![OPEN_BRACE],
        kb("\"content\":"@),
        ser_str(f.content),
        seq![COMMA],
        kb("\"comment\":"@),
        ser_str(f.comment),
        seq![COMMA],
        kb("\"name\":"@),
        ser_str(f.name),
        seq![CLOSE_BRACE],
        rest,
    );
    assert(ser_file(f) + rest == t1);
    assert(t1.first() == OPEN_BRACE);
    assert(t1.drop_first() =~= t2);
    lemma_pars_lit_of_ser(kb("\"content\":"@), t3);
    lemma_pars_str_of_ser(f.content, t4);
    assert(t4.first() == COMMA);
    assert(t4.drop_first() =~= t5);
    lemma_pars_lit_of_ser(kb("\"comment\":"@), t6);
    lemma_pars_str_of_ser(f.comment, t7);
    assert(t7.first() == COMMA);
    assert(t7.drop_first() =~= t8);
    lemma_pars_lit_of_ser(kb("\"name\":"@), t9);
    lemma_pars_str_of_ser(f.name, t10);
    assert(t10.first() == CLOSE_BRACE);
    assert(t10.drop_first() =~= rest);
}

/// Whatever the file parser accepts is the serialization of its result.
#[verifier::rlimit(100)]
pub proof fn lemma_pars_file_sound(data: Seq<u8>)
    ensures
        pars_file(data) matches Some(r) ==> data == ser_file(r.0) + r.1,
{
    reveal(ser_file);
    reveal(pars_file);
    if let Some(d1) = pars_byte(data, OPEN_BRACE) {
        lemma_pars_lit_sound(d1, kb("\"content\":"@));
        if let Some(d2) = pars_lit(d1, kb("\"content\":"@)) {
            lemma_pars_str_sound(d2);
            if let Some((content, d3)) = pars_str(d2) {
                if let Some(d4) = pars_byte(d3, COMMA) {
                    lemma_pars_lit_sound(d4, kb("\"comment\":"@));
                    if let Some(d5) = pars_lit(d4, kb("\"comment\":"@)) {
                        lemma_pars_str_sound(d5);
                        if let Some((comment, d6)) = pars_str(d5) {
                            if let Some(d7) = pars_byte(d6, COMMA) {
                                lemma_pars_lit_sound(d7, kb("\"name\":"@));
                                if let Some(d8) = pars_lit(d7, kb("\"name\":"@)) {
                                    lemma_pars_str_sound(d8);
                                    if let Some((name, d9)) = pars_str(d8) {
                                        if let Some(d10) = pars_byte(d9, CLOSE_BRACE) {
                                            assert(d9 =~= seq![CLOSE_BRACE] + d10);
                                            assert(d6 =~= seq![COMMA] + d7);
                                            assert(d3 =~= seq![COMMA] + d4);
                                            assert(data =~= seq![OPEN_BRACE] + d1);
                                            let fv = FileView { content, comment, name };
                                            lemma_assoc10(
                                                seq![OPEN_BRACE],
                                                kb("\"content\":"@),
                                                ser_str(content),
                                                seq![COMMA],
                                                kb("\"comment\":"@),
                                                ser_str(comment),
                                                seq![COMMA],
                                                kb("\"name\":"@),
                                                ser_str(name),
                                                seq![CLOSE_BRACE],
                                                d10,
                                            );
                                            assert(data == ser_file(fv) + d10);
                                        }
                                    }
                                }
                            }
                        }
                    }
                }
            }
        }
    }
}

/// Re-associate a concatenation of 3 pieces and a tail.
proof fn lemma_assoc3(
    a1: Seq<u8>,
    a2: Seq<u8>,
    a3: Seq<u8>,
    tail: Seq<u8>,
)
    ensures
        a1 + (a2 + (a3 + tail)) == a1 + a2 + a3 + tail,
{
    vstd::seq_lib::lemma_concat_associative(a1 + a2, a3, tail);
    vstd::seq_lib::lemma_concat_associative(a1, a2, a3 + tail);
}

/// The serialized tail of a file list: `,` before each further
/// element, then `]`.
pub open spec fn ser_files_tail(xs: Seq<FileView>) -> Seq<u8>
    decreases xs.len(),
{
    if xs.len() == 0 {
        seq![CLOSE_BRACKET]
    } else {
        seq![COMMA] + ser_file(xs.first()) + ser_files_tail(xs.drop_first())
    }
}

/// The serialized form of a file list.
pub open spec fn ser_files(xs: Seq<FileView>) -> Seq<u8> {
    if xs.len() == 0 {
        seq![OPEN_BRACKET, CLOSE_BRACKET]
    } else {
        seq![OPEN_BRACKET] + ser_file(xs.first()) + ser_files_tail(xs.drop_first())
    }
}

/// Parse the tail of a file list.  The length guard mirrors the fact
/// that every element occupies at least one byte.
pub open spec fn pars_files_tail(data: Seq<u8>) -> Option<(Seq<FileView>, Seq<u8>)>
    decreases data.len(),
{
    match pars_byte(data, CLOSE_BRACKET) {
        Some(d1) => Some((Seq::<FileView>::empty(), d1)),
        None => match pars_byte(data, COMMA) {
            None => None,
            Some(d1) => match pars_file(d1) {
                None => None,
                Some((x, d2)) => if d2.len() < data.len() {
                    match pars_files_tail(d2) {
                        None => None,
                        Some((xs, d3)) => Some((seq![x] + xs, d3)),
                    }
                } else {
                    None
                },
            },
        },
    }
}

/// Parse a file list.
pub open spec fn pars_files(data: Seq<u8>) -> Option<(Seq<FileView>, Seq<u8>)> {
    match pars_byte(data, OPEN_BRACKET) {
        None => None,
        Some(d1) => match pars_byte(d1, CLOSE_BRACKET) {
            Some(d2) => Some((Seq::<FileView>::empty(), d2)),
            None => match pars_file(d1) {
                None => None,
                Some((x, d2)) => if d2.len() < data.len() {
                    match pars_files_tail(d2) {
                        None => None,
                        Some((xs, d3)) => Some((seq![x] + xs, d3)),
                    }
                } else {
                    None
                },
            },
        },
    }
}

/// Parsing a serialized file-list tail yields the elements back.
proof fn lemma_pars_files_tail_of_ser(xs: Seq<FileView>, rest: Seq<u8>)
    ensures
        pars_files_tail(ser_files_tail(xs) + rest) == Some((xs, rest)),
    decreases xs.len(),
{
    let data = ser_files_tail(xs) + rest;
    if xs.len() == 0 {
        assert(data =~= seq![CLOSE_BRACKET] + rest);
        assert(data.first() == CLOSE_BRACKET);
        assert(data.drop_first() =~= rest);
    } else {
        let t3 = ser_files_tail(xs.drop_first()) + rest;
        let t2 = ser_file(xs.first()) + t3;
        let t1 = seq![COMMA] + t2;
        lemma_assoc3(seq![COMMA], ser_file(xs.first()), ser_files_tail(xs.drop_first()), rest);
        assert(data == t1);
        assert(t1.first() == COMMA);
        assert(t1.drop_first() =~= t2);
        lemma_pars_file_of_ser(xs.first(), t3);
        lemma_pars_files_tail_of_ser(xs.drop_first(), rest);
        assert(t3.len() < data.len());
        assert(seq![xs.first()] + xs.drop_first() =~= xs);
    }
}

/// Parsing a serialized file list yields the elements back.
proof fn lemma_pars_files_of_ser(xs: Seq<FileView>, rest: Seq<u8>)
    ensures
        pars_files(ser_files(xs) + rest) == Some((xs, rest)),
{
    let data = ser_files(xs) + rest;
    if xs.len() == 0 {
        assert(data =~= seq![OPEN_BRACKET] + (seq![CLOSE_BRACKET] + rest));
        assert(data.first() == OPEN_BRACKET);
        assert(data.drop_first() =~= seq![CLOSE_BRACKET] + rest);
        assert((seq![CLOSE_BRACKET] + rest).first() == CLOSE_BRACKET);
        assert((seq![CLOSE_BRACKET] + rest).drop_first() =~= rest);
    } else {
        let t3 = ser_files_tail(xs.drop_first()) + rest;
        let t2 = ser_file(xs.first()) + t3;
        let t1 = seq![OPEN_BRACKET] + t2;
        lemma_assoc3(seq![OPEN_BRACKET], ser_file(xs.first()), ser_files_tail(xs.drop_first()), rest);
        assert(data == t1);
        assert(t1.first() == OPEN_BRACKET);
        assert(t1.drop_first() =~= t2);
        assert(ser_file(xs.first()).first() == OPEN_BRACE && ser_file(xs.first()).len() > 0) by {
            reveal(ser_file);
        }
        assert(t2.first() == OPEN_BRACE);
        lemma_pars_file_of_ser(xs.first(), t3);
        lemma_pars_files_tail_of_ser(xs.drop_first(), rest);
        assert(t3.len() < data.len());
        assert(seq![xs.first()] + xs.drop_first() =~= xs);
    }
}

/// Whatever the file-list tail parser accepts is canonical.
proof fn lemma_pars_files_tail_sound(data: Seq<u8>)
    ensures
        pars_files_tail(data) matches Some(r) ==> data == ser_files_tail(r.0) + r.1,
    decreases data.len(),
{
    if let Some(d1) = pars_byte(data, CLOSE_BRACKET) {
        assert(data =~= seq![CLOSE_BRACKET] + d1);
    } else {
        if let Some(d1) = pars_byte(data, COMMA) {
            lemma_pars_file_sound(d1);
            if let Some((x, d2)) = pars_file(d1) {
                if d2.len() < data.len() {
                    lemma_pars_files_tail_sound(d2);
                    if let Some((xs, d3)) = pars_files_tail(d2) {
                        let whole = seq![x] + xs;
                        assert(whole.first() == x);
                        assert(whole.drop_first() =~= xs);
                        assert(ser_files_tail(whole) == seq![COMMA] + ser_file(x)
                            + ser_files_tail(xs));
                        assert(data =~= seq![COMMA] + d1);
                        lemma_assoc3(seq![COMMA], ser_file(x), ser_files_tail(xs), d3);
                        assert(data == ser_files_tail(whole) + d3);
                    }
                }
            }
        }
    }
}

/// Whatever the file-list parser accepts is canonical.
proof fn lemma_pars_files_sound(data: Seq<u8>)
    ensures
        pars_files(data) matches Some(r) ==> data == ser_files(r.0) + r.1,
{
    if let Some(d1) = pars_byte(data, OPEN_BRACKET) {
        assert(data =~= seq![OPEN_BRACKET] + d1);
        if let Some(d2) = pars_byte(d1, CLOSE_BRACKET) {
            assert(d1 =~= seq![CLOSE_BRACKET] + d2);
            assert(data =~= ser_files(Seq::<FileView>::empty()) + d2);
        } else {
            lemma_pars_file_sound(d1);
            if let Some((x, d2)) = pars_file(d1) {
                if d2.len() < data.len() {
                    lemma_pars_files_tail_sound(d2);
                    if let Some((xs, d3)) = pars_files_tail(d2) {
                        let whole = seq![x] + xs;
                        assert(whole.first() == x);
                        assert(whole.drop_first() =~= xs);
                        assert(ser_files(whole) == seq![OPEN_BRACKET] + ser_file(x)
                            + ser_files_tail(xs));
                        lemma_assoc3(seq![OPEN_BRACKET], ser_file(x), ser_files_tail(xs), d3);
                        assert(data == ser_files(whole) + d3);
                    }
                }
            }
        }
    }
}

/// The serialized form of one entry.
#[verifier::opaque]
pub open spec fn ser_entry(e: EntryView) -> Seq<u8> {
    seq![OPEN_BRACE]
        + kb("\"id\":"@)
        + ser_str(e.id)
        + seq![COMMA]
        + kb("\"title\":"@)
        + ser_str(e.title)
        + seq![COMMA]
        + kb("\"name\":"@)
        + ser_str(e.name)
        + seq![COMMA]
        + kb("\"value\":"@)
        + ser_str(e.value)
        + seq![COMMA]
        + kb("\"url\":"@)
        + ser_str(e.url)
        + seq![COMMA]
        + kb("\"comment\":"@)
        + ser_str(e.comment)
        + seq![COMMA]
        + kb("\"entry_type\":"@)
        + ser_etype(e.entry_type)
        + seq![COMMA]
        + kb("\"last_modified\":"@)
        + ser_str(e.last_modified)
        + seq![COMMA]
        + kb("\"files\":"@)
        + ser_files(e.files)
        + seq![CLOSE_BRACE]
}

/// Parse one entry.
#[verifier::opaque]
pub open spec fn pars_entry(data: Seq<u8>) -> Option<(EntryView, Seq<u8>)> {
    match pars_byte(data, OPEN_BRACE) {
        None => None,
        Some(d1) => {
            match pars_lit(d1, kb("\"id\":"@)) {
                None => None,
                Some(d2) => {
                    match pars_str(d2) {
                        None => None,
                        Some((id, d3)) => {
                            match pars_byte(d3, COMMA) {
                                None => None,
                                Some(d4) => {
                                    match pars_lit(d4, kb("\"title\":"@)) {
                                        None => None,
                                        Some(d5) => {
                                            match pars_str(d5) {
                                                None => None,
                                                Some((title, d6)) => {
                                                    match pars_byte(d6, COMMA) {
                                                        None => None,
                                                        Some(d7) => {
                                                            match pars_lit(d7, kb("\"name\":"@)) {
                                                                None => None,
                                                                Some(d8) => {
                                                                    match pars_str(d8) {
                                                                        None => None,
                                                                        Some((name, d9)) => {
                                                                            match pars_byte(d9, COMMA) {
                                                                                None => None,
                                                                                Some(d10) => {
                                                                                    match pars_lit(d10, kb("\"value\":"@)) {
                                                                                        None => None,
                                                                                        Some(d11) => {
                                                                                            match pars_str(d11) {
                                                                                                None => None,
                                                                                                Some((value, d12)) => {
                                                                                                    match pars_byte(d12, COMMA) {
                                                                                                        None => None,
                                                                                                        Some(d13) => {
                                                                                                            match pars_lit(d13, kb("\"url\":"@)) {
                                                                                                                None => None,
                                                                                                                Some(d14) => {
                                                                                                                    match pars_str(d14) {
                                                                                                                        None => None,
                                                                                                                        Some((url, d15)) => {
                                                                                                                            match pars_byte(d15, COMMA) {
                                                                                                                                None => None,
                                                                                                                                Some(d16) => {
                                                                                                                                    match pars_lit(d16, kb("\"comment\":"@)) {
                                                                                                                                        None => None,
                                                                                                                                        Some(d17) => {
                                                                                                                                            match pars_str(d17) {
                                                                                                                                                None => None,
                                                                                                                                                Some((comment, d18)) => {
                                                                                                                                                    match pars_byte(d18, COMMA) {
                                                                                                                                                        None => None,
                                                                                                                                                        Some(d19) => {
                                                                                                                                                            match pars_lit(d19, kb("\"entry_type\":"@)) {
                                                                                                                                                                None => None,
                                                                                                                                                                Some(d20) => {
                                                                                                                                                                    match pars_etype(d20) {
                                                                                                                                                                        None => None,
                                                                                                                                                                        Some((entry_type, d21)) => {
                                                                                                                                                                            match pars_byte(d21, COMMA) {
                                                                                                                                                                                None => None,
                                                                                                                                                                                Some(d22) => {
                                                                                                                                                                                    match pars_lit(d22, kb("\"last_modified\":"@)) {
                                                                                                                                                                                        None => None,
                                                                                                                                                                                        Some(d23) => {
                                                                                                                                                                                            match pars_str(d23) {
                                                                                                                                                                                                None => None,
                                                                                                                                                                                                Some((last_modified, d24)) => {
                                                                                                                                                                                                    match pars_byte(d24, COMMA) {
                                                                                                                                                                                                        None => None,
                                                                                                                                                                                                        Some(d25) => {
                                                                                                                                                                                                            match pars_lit(d25, kb("\"files\":"@)) {
                                                                                                                                                                                                                None => None,
                                                                                                                                                                                                                Some(d26) => {
                                                                                                                                                                                                                    match pars_files(d26) {
                                                                                                                                                                                                                        None => None,
                                                                                                                                                                                                                        Some((files, d27)) => {
                                                                                                                                                                                                                            match pars_byte(d27, CLOSE_BRACE) {
                                                                                                                                                                                                                                None => None,
                                                                                                                                                                                                                                Some(d28) => {
                                                                                                                                                                                                                                    Some((EntryView { id, title, name, value, url, comment, entry_type, last_modified, files }, d28))
                                                                                                                                                                                                                                },
                                                                                                                                                                                                                            }
                                                                                                                                                                                                                        },
                                                                                                                                                                                                                    }
                                                                                                                                                                                                                },
                                                                                                                                                                                                            }
                                                                                                                                                                                                        },
                                                                                                                                                                                                    }
                                                                                                                                                                                                },
                                                                                                                                                                                            }
                                                                                                                                                                                        },
                                                                                                                                                                                    }
                                                                                                                                                                                },
                                                                                                                                                                            }
                                                                                                                                                                        },
                                                                                                                                                                    }
                                                                                                                                                                },
                                                                                                                                                            }
                                                                                                                                                        },
                                                                                                                                                    }
                                                                                                                                                },
                                                                                                                                            }
                                                                                                                                        },
                                                                                                                                    }
                                                                                                                                },
                                                                                                                            }
                                                                                                                        },
                                                                                                                    }
                                                                                                                },
                                                                                                            }
                                                                                                        },
                                                                                                    }
                                                                                                },
                                                                                            }
                                                                                        },
                                                                                    }
                                                                                },
                                                                            }
                                                                        },
                                                                    }
                                                                },
                                                            }
                                                        },
                                                    }
                                                },
                                            }
                                        },
                                    }
                                },
                            }
                        },
                    }
                },
            }
        },
    }
}

/// Parsing a serialized entry yields it back.
#[verifier::rlimit(100)]
pub proof fn lemma_pars_entry_of_ser(e: EntryView, rest: Seq<u8>)
    ensures
        pars_entry(ser_entry(e) + rest) == Some((e, rest)),
{
    reveal(ser_entry);
    reveal(pars_entry);
    let t28 = seq![CLOSE_BRACE] + rest;
    let t27 = ser_files(e.files) + t28;
    let t26 = kb("\"files\":"@) + t27;
    let t25 = seq![COMMA] + t26;
    let t24 = ser_str(e.last_modified) + t25;
    let t23 = kb("\"last_modified\":"@) + t24;
    let t22 = seq![COMMA] + t23;
    let t21 = ser_etype(e.entry_type) + t22;
    let t20 = kb("\"entry_type\":"@) + t21;
    let t19 = seq![COMMA] + t20;
    let t18 = ser_str(e.comment) + t19;
    let t17 = kb("\"comment\":"@) + t18;
    let t16 = seq![COMMA] + t17;
    let t15 = ser_str(e.url) + t16;
    let t14 = kb("\"url\":"@) + t15;
    let t13 = seq![COMMA] + t14;
    let t12 = ser_str(e.value) + t13;
    let t11 = kb("\"value\":"@) + t12;
    let t10 = seq![COMMA] + t11;
    let t9 = ser_str(e.name) + t10;
    let t8 = kb("\"name\":"@) + t9;
    let t7 = seq![COMMA] + t8;
    let t6 = ser_str(e.title) + t7;
    let t5 = kb("\"title\":"@) + t6;
    let t4 = seq![COMMA] + t5;
    let t3 = ser_str(e.id) + t4;
    let t2 = kb("\"id\":"@) + t3;
    let t1 = seq![OPEN_BRACE] + t2;
    lemma_assoc28(
        seq![OPEN_BRACE],
        kb("\"id\":"@),
        ser_str(e.id),
        seq![COMMA],
        kb("\"title\":"@),
        ser_str(e.title),
        seq![COMMA],
        kb("\"name\":"@),
        ser_str(e.name),
        seq![COMMA],
        kb("\"value\":"@),
        ser_str(e.value),
        seq![COMMA],
        kb("\"url\":"@),
        ser_str(e.url),
        seq![COMMA],
        kb("\"comment\":"@),
        ser_str(e.comment),
        seq![COMMA],
        kb("\"entry_type\":"@),
        ser_etype(e.entry_type),
        seq![COMMA],
        kb("\"last_modified\":"@),
        ser_str(e.last_modified),
        seq![COMMA],
        kb("\"files\":"@),
        ser_files(e.files),
        seq![CLOSE_BRACE],
        rest,
    );
    assert(ser_entry(e) + rest == t1);
    assert(t1.first() == OPEN_BRACE);
    assert(t1.drop_first() =~= t2);
    lemma_pars_lit_of_ser(kb("\"id\":"@), t3);
    lemma_pars_str_of_ser(e.id, t4);
    assert(t4.first() == COMMA);
    assert(t4.drop_first() =~= t5);
    lemma_pars_lit_of_ser(kb("\"title\":"@), t6);
    lemma_pars_str_of_ser(e.title, t7);
    assert(t7.first() == COMMA);
    assert(t7.drop_first() =~= t8);
    lemma_pars_lit_of_ser(kb("\"name\":"@), t9);
    lemma_pars_str_of_ser(e.name, t10);
    assert(t10.first() == COMMA);
    assert(t10.drop_first() =~= t11);
    lemma_pars_lit_of_ser(kb("\"value\":"@), t12);
    lemma_pars_str_of_ser(e.value, t13);
    assert(t13.first() == COMMA);
    assert(t13.drop_first() =~= t14);
    lemma_pars_lit_of_ser(kb("\"url\":"@), t15);
    lemma_pars_str_of_ser(e.url, t16);
    assert(t16.first() == COMMA);
    assert(t16.drop_first() =~= t17);
    lemma_pars_lit_of_ser(kb("\"comment\":"@), t18);
    lemma_pars_str_of_ser(e.comment, t19);
    assert(t19.first() == COMMA);
    assert(t19.drop_first() =~= t20);
    lemma_pars_lit_of_ser(kb("\"entry_type\":"@), t21);
    lemma_pars_etype_of_ser(e.entry_type, t22);
    assert(t22.first() == COMMA);
    assert(t22.drop_first() =~= t23);
    lemma_pars_lit_of_ser(kb("\"last_modified\":"@), t24);
    lemma_pars_str_of_ser(e.last_modified, t25);
    assert(t25.first() == COMMA);
    assert(t25.drop_first() =~= t26);
    lemma_pars_lit_of_ser(kb("\"files\":"@), t27);
    lemma_pars_files_of_ser(e.files, t28);
    assert(t28.first() == CLOSE_BRACE);
    assert(t28.drop_first() =~= rest);
}

/// Whatever the entry parser accepts is the serialization of its result.
#[verifier::rlimit(100)]
#[verifier::spinoff_prover]
pub proof fn lemma_pars_entry_sound(data: Seq<u8>)
    ensures
        pars_entry(data) matches Some(r) ==> data == ser_entry(r.0) + r.1,
{
    reveal(ser_entry);
    reveal(pars_entry);
    if let Some(d1) = pars_byte(data, OPEN_BRACE) {
        lemma_pars_lit_sound(d1, kb("\"id\":"@));
        if let Some(d2) = pars_lit(d1, kb("\"id\":"@)) {
            lemma_pars_str_sound(d2);
            if let Some((id, d3)) = pars_str(d2) {
                if let Some(d4) = pars_byte(d3, COMMA) {
                    lemma_pars_lit_sound(d4, kb("\"title\":"@));
                    if let Some(d5) = pars_lit(d4, kb("\"title\":"@)) {
                        lemma_pars_str_sound(d5);
                        if let Some((title, d6)) = pars_str(d5) {
                            if let Some(d7) = pars_byte(d6, COMMA) {
                                lemma_pars_lit_sound(d7, kb("\"name\":"@));
                                if let Some(d8) = pars_lit(d7, kb("\"name\":"@)) {
                                    lemma_pars_str_sound(d8);
                                    if let Some((name, d9)) = pars_str(d8) {
                                        if let Some(d10) = pars_byte(d9, COMMA) {
                                            lemma_pars_lit_sound(d10, kb("\"value\":"@));
                                            if let Some(d11) = pars_lit(d10, kb("\"value\":"@)) {
                                                lemma_pars_str_sound(d11);
                                                if let Some((value, d12)) = pars_str(d11) {
                                                    if let Some(d13) = pars_byte(d12, COMMA) {
                                                        lemma_pars_lit_sound(d13, kb("\"url\":"@));
                                                        if let Some(d14) = pars_lit(d13, kb("\"url\":"@)) {
                                                            lemma_pars_str_sound(d14);
                                                            if let Some((url, d15)) = pars_str(d14) {
                                                                if let Some(d16) = pars_byte(d15, COMMA) {
                                                                    lemma_pars_lit_sound(d16, kb("\"comment\":"@));
                                                                    if let Some(d17) = pars_lit(d16, kb("\"comment\":"@)) {
                                                                        lemma_pars_str_sound(d17);
                                                                        if let Some((comment, d18)) = pars_str(d17) {
                                                                            if let Some(d19) = pars_byte(d18, COMMA) {
                                                                                lemma_pars_lit_sound(d19, kb("\"entry_type\":"@));
                                                                                if let Some(d20) = pars_lit(d19, kb("\"entry_type\":"@)) {
                                                                                    lemma_pars_etype_sound(d20);
                                                                                    if let Some((entry_type, d21)) = pars_etype(d20) {
                                                                                        if let Some(d22) = pars_byte(d21, COMMA) {
                                                                                            lemma_pars_lit_sound(d22, kb("\"last_modified\":"@));
                                                                                            if let Some(d23) = pars_lit(d22, kb("\"last_modified\":"@)) {
                                                                                                lemma_pars_str_sound(d23);
                                                                                                if let Some((last_modified, d24)) = pars_str(d23) {
                                                                                                    if let Some(d25) = pars_byte(d24, COMMA) {
                                                                                                        lemma_pars_lit_sound(d25, kb("\"files\":"@));
                                                                                                        if let Some(d26) = pars_lit(d25, kb("\"files\":"@)) {
                                                                                                            lemma_pars_files_sound(d26);
                                                                                                            if let Some((files, d27)) = pars_files(d26) {
                                                                                                                if let Some(d28) = pars_byte(d27, CLOSE_BRACE) {
                                                                                                                    assert(data =~= seq![OPEN_BRACE] + d1);
                                                                                                                    assert(d3 =~= seq![COMMA] + d4);
                                                                                                                    assert(d6 =~= seq![COMMA] + d7);
                                                                                                                    assert(d9 =~= seq![COMMA] + d10);
                                                                                                                    assert(d12 =~= seq![COMMA] + d13);
                                                                                                                    assert(d15 =~= seq![COMMA] + d16);
                                                                                                                    assert(d18 =~= seq![COMMA] + d19);
                                                                                                                    assert(d21 =~= seq![COMMA] + d22);
                                                                                                                    assert(d24 =~= seq![COMMA] + d25);
                                                                                                                    assert(d27 =~= seq![CLOSE_BRACE] + d28);
                                                                                                                    let ev = EntryView { id, title, name, value, url, comment, entry_type, last_modified, files };
                                                                                                                    lemma_assoc28(
                                                                                                                        seq![OPEN_BRACE],
                                                                                                                        kb("\"id\":"@),
                                                                                                                        ser_str(id),
                                                                                                                        seq![COMMA],
                                                                                                                        kb("\"title\":"@),
                                                                                                                        ser_str(title),
                                                                                                                        seq![COMMA],
                                                                                                                        kb("\"name\":"@),
                                                                                                                        ser_str(name),
                                                                                                                        seq![COMMA],
                                                                                                                        kb("\"value\":"@),
                                                                                                                        ser_str(value),
                                                                                                                        seq![COMMA],
                                                                                                                        kb("\"url\":"@),
                                                                                                                        ser_str(url),
                                                                                                                        seq![COMMA],
                                                                                                                        kb("\"comment\":"@),
                                                                                                                        ser_str(comment),
                                                                                                                        seq![COMMA],
                                                                                                                        kb("\"entry_type\":"@),
                                                                                                                        ser_etype(entry_type),
                                                                                                                        seq![COMMA],
                                                                                                                        kb("\"last_modified\":"@),
                                                                                                                        ser_str(last_modified),
                                                                                                                        seq![COMMA],
                                                                                                                        kb("\"files\":"@),
                                                                                                                        ser_files(files),
                                                                                                                        seq![CLOSE_BRACE],
                                                                                                                        d28,
                                                                                                                    );
                                                                                                                    assert(data == ser_entry(ev) + d28);
                                                                                                                }
                                                                                                            }
                                                                                                        }
                                                                                                    }
                                                                                                }
                                                                                            }
                                                                                        }
                                                                                    }
                                                                                }
                                                                            }
                                                                        }
                                                                    }
                                                                }
                                                            }
                                                        }
                                                    }
                                                }
                                            }
                                        }
                                    }
                                }
                            }
                        }
                    }
                }
            }
        }
    }
}

/// The serialized tail of an entry list: `,` before each further
/// element, then `]`.
pub open spec fn ser_entries_tail(xs: Seq<EntryView>) -> Seq<u8>
    decreases xs.len(),
{
    if xs.len() == 0 {
        seq![CLOSE_BRACKET]
    } else {
        seq![COMMA] + ser_entry(xs.first()) + ser_entries_tail(xs.drop_first())
    }
}

/// The serialized form of an entry list.
pub open spec fn ser_entries(xs: Seq<EntryView>) -> Seq<u8> {
    if xs.len() == 0 {
        seq![OPEN_BRACKET, CLOSE_BRACKET]
    } else {
        seq![OPEN_BRACKET] + ser_entry(xs.first()) + ser_entries_tail(xs.drop_first())
    }
}

/// Parse the tail of an entry list.  The length guard mirrors the fact
/// that every element occupies at least one byte.
pub open spec fn pars_entries_tail(data: Seq<u8>) -> Option<(Seq<EntryView>, Seq<u8>)>
    decreases data.len(),
{
    match pars_byte(data, CLOSE_BRACKET) {
        Some(d1) => Some((Seq::<EntryView>::empty(), d1)),
        None => match pars_byte(data, COMMA) {
            None => None,
            Some(d1) => match pars_entry(d1) {
                None => None,
                Some((x, d2)) => if d2.len() < data.len() {
                    match pars_entries_tail(d2) {
                        None => None,
                        Some((xs, d3)) => Some((seq![x] + xs, d3)),
                    }
                } else {
                    None
                },
            },
        },
    }
}

/// Parse an entry list.
pub open spec fn pars_entries(data: Seq<u8>) -> Option<(Seq<EntryView>, Seq<u8>)> {
    match pars_byte(data, OPEN_BRACKET) {
        None => None,
        Some(d1) => match pars_byte(d1, CLOSE_BRACKET) {
            Some(d2) => Some((Seq::<EntryView>::empty(), d2)),
            None => match pars_entry(d1) {
                None => None,
                Some((x, d2)) => if d2.len() < data.len() {
                    match pars_entries_tail(d2) {
                        None => None,
                        Some((xs, d3)) => Some((seq![x] + xs, d3)),
                    }
                } else {
                    None
                },
            },
        },
    }
}

/// Parsing a serialized entry-list tail yields the elements back.
proof fn lemma_pars_entries_tail_of_ser(xs: Seq<EntryView>, rest: Seq<u8>)
    ensures
        pars_entries_tail(ser_entries_tail(xs) + rest) == Some((xs, rest)),
    decreases xs.len(),
{
    let data = ser_entries_tail(xs) + rest;
    if xs.len() == 0 {
        assert(data =~= seq![CLOSE_BRACKET] + rest);
        assert(data.first() == CLOSE_BRACKET);
        assert(data.drop_first() =~= rest);
    } else {
        let t3 = ser_entries_tail(xs.drop_first()) + rest;
        let t2 = ser_entry(xs.first()) + t3;
        let t1 = seq![COMMA] + t2;
        lemma_assoc3(seq![COMMA], ser_entry(xs.first()), ser_entries_tail(xs.drop_first()), rest);
        assert(data == t1);
        assert(t1.first() == COMMA);
        assert(t1.drop_first() =~= t2);
        lemma_pars_entry_of_ser(xs.first(), t3);
        lemma_pars_entries_tail_of_ser(xs.drop_first(), rest);
        assert(t3.len() < data.len());
        assert(seq![xs.first()] + xs.drop_first() =~= xs);
    }
}

/// Parsing a serialized entry list yields the elements back.
proof fn lemma_pars_entries_of_ser(xs: Seq<EntryView>, rest: Seq<u8>)
    ensures
        pars_entries(ser_entries(xs) + rest) == Some((xs, rest)),
{
    let data = ser_entries(xs) + rest;
    if xs.len() == 0 {
        assert(data =~= seq![OPEN_BRACKET] + (seq![CLOSE_BRACKET] + rest));
        assert(data.first() == OPEN_BRACKET);
        assert(data.drop_first() =~= seq![CLOSE_BRACKET] + rest);
        assert((seq![CLOSE_BRACKET] + rest).first() == CLOSE_BRACKET);
        assert((seq![CLOSE_BRACKET] + rest).drop_first() =~= rest);
    } else {
        let t3 = ser_entries_tail(xs.drop_first()) + rest;
        let t2 = ser_entry(xs.first()) + t3;
        let t1 = seq![OPEN_BRACKET] + t2;
        lemma_assoc3(seq![OPEN_BRACKET], ser_entry(xs.first()), ser_entries_tail(xs.drop_first()), rest);
        assert(data == t1);
        assert(t1.first() == OPEN_BRACKET);
        assert(t1.drop_first() =~= t2);
        assert(ser_entry(xs.first()).first() == OPEN_BRACE && ser_entry(xs.first()).len() > 0) by {
            reveal(ser_entry);
        }
        assert(t2.first() == OPEN_BRACE);
        lemma_pars_entry_of_ser(xs.first(), t3);
        lemma_pars_entries_tail_of_ser(xs.drop_first(), rest);
        assert(t3.len() < data.len());
        assert(seq![xs.first()] + xs.drop_first() =~= xs);
    }
}

/// Whatever the entry-list tail parser accepts is canonical.
proof fn lemma_pars_entries_tail_sound(data: Seq<u8>)
    ensures
        pars_entries_tail(data) matches Some(r) ==> data == ser_entries_tail(r.0) + r.1,
    decreases data.len(),
{
    if let Some(d1) = pars_byte(data, CLOSE_BRACKET) {
        assert(data =~= seq![CLOSE_BRACKET] + d1);
    } else {
        if let Some(d1) = pars_byte(data, COMMA) {
            lemma_pars_entry_sound(d1);
            if let Some((x, d2)) = pars_entry(d1) {
                if d2.len() < data.len() {
                    lemma_pars_entries_tail_sound(d2);
                    if let Some((xs, d3)) = pars_entries_tail(d2) {
                        let whole = seq![x] + xs;
                        assert(whole.first() == x);
                        assert(whole.drop_first() =~= xs);
                        assert(ser_entries_tail(whole) == seq![COMMA] + ser_entry(x)
                            + ser_entries_tail(xs));
                        assert(data =~= seq![COMMA] + d1);
                        lemma_assoc3(seq![COMMA], ser_entry(x), ser_entries_tail(xs), d3);
                        assert(data == ser_entries_tail(whole) + d3);
                    }
                }
            }
        }
    }
}

/// Whatever the entry-list parser accepts is canonical.
proof fn lemma_pars_entries_sound(data: Seq<u8>)
    ensures
        pars_entries(data) matches Some(r) ==> data == ser_entries(r.0) + r.1,
{
    if let Some(d1) = pars_byte(data, OPEN_BRACKET) {
        assert(data =~= seq![OPEN_BRACKET] + d1);
        if let Some(d2) = pars_byte(d1, CLOSE_BRACKET) {
            assert(d1 =~= seq![CLOSE_BRACKET] + d2);
            assert(data =~= ser_entries(Seq::<EntryView>::empty()) + d2);
        } else {
            lemma_pars_entry_sound(d1);
            if let Some((x, d2)) = pars_entry(d1) {
                if d2.len() < data.len() {
                    lemma_pars_entries_tail_sound(d2);
                    if let Some((xs, d3)) = pars_entries_tail(d2) {
                        let whole = seq![x] + xs;
                        assert(whole.first() == x);
                        assert(whole.drop_first() =~= xs);
                        assert(ser_entries(whole) == seq![OPEN_BRACKET] + ser_entry(x)
                            + ser_entries_tail(xs));
                        lemma_assoc3(seq![OPEN_BRACKET], ser_entry(x), ser_entries_tail(xs), d3);
                        assert(data == ser_entries(whole) + d3);
                    }
                }
            }
        }
    }
}

/// Appending 10 pieces one by one equals appending their concatenation.
proof fn lemma_append10(
    pre: Seq<u8>,
    a1: Seq<u8>,
    a2: Seq<u8>,
    a3: Seq<u8>,
    a4: Seq<u8>,
    a5: Seq<u8>,
    a6: Seq<u8>,
    a7: Seq<u8>,
    a8: Seq<u8>,
    a9: Seq<u8>,
    a10: Seq<u8>,
)
    ensures
        pre + (a1 + a2 + a3 + a4 + a5 + a6 + a7 + a8 + a9 + a10) == pre + a1 + a2 + a3 + a4 + a5 + a6 + a7 + a8 + a9 + a10,
{
    vstd::seq_lib::lemma_concat_associative(pre, a1 + a2 + a3 + a4 + a5 + a6 + a7 + a8 + a9, a10);
    vstd::seq_lib::lemma_concat_associative(pre, a1 + a2 + a3 + a4 + a5 + a6 + a7 + a8, a9);
    vstd::seq_lib::lemma_concat_associative(pre, a1 + a2 + a3 + a4 + a5 + a6 + a7, a8);
    vstd::seq_lib::lemma_concat_associative(pre, a1 + a2 + a3 + a4 + a5 + a6, a7);
    vstd::seq_lib::lemma_concat_associative(pre, a1 + a2 + a3 + a4 + a5, a6);
    vstd::seq_lib::lemma_concat_associative(pre, a1 + a2 + a3 + a4, a5);
    vstd::seq_lib::lemma_concat_associative(pre, a1 + a2 + a3, a4);
    vstd::seq_lib::lemma_concat_associative(pre, a1 + a2, a3);
    vstd::seq_lib::lemma_concat_associative(pre, a1, a2);
}

/// Appending 16 pieces one by one equals appending their concatenation.
proof fn lemma_append16(
    pre: Seq<u8>,
    a1: Seq<u8>,
    a2: Seq<u8>,
    a3: Seq<u8>,
    a4: Seq<u8>,
    a5: Seq<u8>,
    a6: Seq<u8>,
    a7: Seq<u8>,
    a8: Seq<u8>,
    a9: Seq<u8>,
    a10: Seq<u8>,
    a11: Seq<u8>,
    a12: Seq<u8>,
    a13: Seq<u8>,
    a14: Seq<u8>,
    a15: Seq<u8>,
    a16: Seq<u8>,
)
    ensures
        pre + (a1 + a2 + a3 + a4 + a5 + a6 + a7 + a8 + a9 + a10 + a11 + a12 + a13 + a14 + a15 + a16) == pre + a1 + a2 + a3 + a4 + a5 + a6 + a7 + a8 + a9 + a10 + a11 + a12 + a13 + a14 + a15 + a16,
{
    vstd::seq_lib::lemma_concat_associative(pre, a1 + a2 + a3 + a4 + a5 + a6 + a7 + a8 + a9 + a10 + a11 + a12 + a13 + a14 + a15, a16);
    vstd::seq_lib::lemma_concat_associative(pre, a1 + a2 + a3 + a4 + a5 + a6 + a7 + a8 + a9 + a10 + a11 + a12 + a13 + a14, a15);
    vstd::seq_lib::lemma_concat_associative(pre, a1 + a2 + a3 + a4 + a5 + a6 + a7 + a8 + a9 + a10 + a11 + a12 + a13, a14);
    vstd::seq_lib::lemma_concat_associative(pre, a1 + a2 + a3 + a4 + a5 + a6 + a7 + a8 + a9 + a10 + a11 + a12, a13);
    vstd::seq_lib::lemma_concat_associative(pre, a1 + a2 + a3 + a4 + a5 + a6 + a7 + a8 + a9 + a10 + a11, a12);
    vstd::seq_lib::lemma_concat_associative(pre, a1 + a2 + a3 + a4 + a5 + a6 + a7 + a8 + a9 + a10, a11);
    vstd::seq_lib::lemma_concat_associative(pre, a1 + a2 + a3 + a4 + a5 + a6 + a7 + a8 + a9, a10);
    vstd::seq_lib::lemma_concat_associative(pre, a1 + a2 + a3 + a4 + a5 + a6 + a7 + a8, a9);
    vstd::seq_lib::lemma_concat_associative(pre, a1 + a2 + a3 + a4 + a5 + a6 + a7, a8);
    vstd::seq_lib::lemma_concat_associative(pre, a1 + a2 + a3 + a4 + a5 + a6, a7);
    vstd::seq_lib::lemma_concat_associative(pre, a1 + a2 + a3 + a4 + a5, a6);
    vstd::seq_lib::lemma_concat_associative(pre, a1 + a2 + a3 + a4, a5);
    vstd::seq_lib::lemma_concat_associative(pre, a1 + a2 + a3, a4);
    vstd::seq_lib::lemma_concat_associative(pre, a1 + a2, a3);
    vstd::seq_lib::lemma_concat_associative(pre, a1, a2);
}

/// Appending 28 pieces one by one equals appending their concatenation.
proof fn lemma_append28(
    pre: Seq<u8>,
    a1: Seq<u8>,
    a2: Seq<u8>,
    a3: Seq<u8>,
    a4: Seq<u8>,
    a5: Seq<u8>,
    a6: Seq<u8>,
    a7: Seq<u8>,
    a8: Seq<u8>,
    a9: Seq<u8>,
    a10: Seq<u8>,
    a11: Seq<u8>,
    a12: Seq<u8>,
    a13: Seq<u8>,
    a14: Seq<u8>,
    a15: Seq<u8>,
    a16: Seq<u8>,
    a17: Seq<u8>,
    a18: Seq<u8>,
    a19: Seq<u8>,
    a20: Seq<u8>,
    a21: Seq<u8>,
    a22: Seq<u8>,
    a23: Seq<u8>,
    a24: Seq<u8>,
    a25: Seq<u8>,
    a26: Seq<u8>,
    a27: Seq<u8>,
    a28: Seq<u8>,
)
    ensures
        pre + (a1 + a2 + a3 + a4 + a5 + a6 + a7 + a8 + a9 + a10 + a11 + a12 + a13 + a14 + a15 + a16 + a17 + a18 + a19 + a20 + a21 + a22 + a23 + a24 + a25 + a26 + a27 + a28) == pre + a1 + a2 + a3 + a4 + a5 + a6 + a7 + a8 + a9 + a10 + a11 + a12 + a13 + a14 + a15 + a16 + a17 + a18 + a19 + a20 + a21 + a22 + a23 + a24 + a25 + a26 + a27 + a28,
{
    vstd::seq_lib::lemma_concat_associative(pre, a1 + a2 + a3 + a4 + a5 + a6 + a7 + a8 + a9 + a10 + a11 + a12 + a13 + a14 + a15 + a16 + a17 + a18 + a19 + a20 + a21 + a22 + a23 + a24 + a25 + a26 + a27, a28);
    vstd::seq_lib::lemma_concat_associative(pre, a1 + a2 + a3 + a4 + a5 + a6 + a7 + a8 + a9 + a10 + a11 + a12 + a13 + a14 + a15 + a16 + a17 + a18 + a19 + a20 + a21 + a22 + a23 + a24 + a25 + a26, a27);
    vstd::seq_lib::lemma_concat_associative(pre, a1 + a2 + a3 + a4 + a5 + a6 + a7 + a8 + a9 + a10 + a11 + a12 + a13 + a14 + a15 + a16 + a17 + a18 + a19 + a20 + a21 + a22 + a23 + a24 + a25, a26);
    vstd::seq_lib::lemma_concat_associative(pre, a1 + a2 + a3 + a4 + a5 + a6 + a7 + a8 + a9 + a10 + a11 + a12 + a13 + a14 + a15 + a16 + a17 + a18 + a19 + a20 + a21 + a22 + a23 + a24, a25);
    vstd::seq_lib::lemma_concat_associative(pre, a1 + a2 + a3 + a4 + a5 + a6 + a7 + a8 + a9 + a10 + a11 + a12 + a13 + a14 + a15 + a16 + a17 + a18 + a19 + a20 + a21 + a22 + a23, a24);
    vstd::seq_lib::lemma_concat_associative(pre, a1 + a2 + a3 + a4 + a5 + a6 + a7 + a8 + a9 + a10 + a11 + a12 + a13 + a14 + a15 + a16 + a17 + a18 + a19 + a20 + a21 + a22, a23);
    vstd::seq_lib::lemma_concat_associative(pre, a1 + a2 + a3 + a4 + a5 + a6 + a7 + a8 + a9 + a10 + a11 + a12 + a13 + a14 + a15 + a16 + a17 + a18 + a19 + a20 + a21, a22);
    vstd::seq_lib::lemma_concat_associative(pre, a1 + a2 + a3 + a4 + a5 + a6 + a7 + a8 + a9 + a10 + a11 + a12 + a13 + a14 + a15 + a16 + a17 + a18 + a19 + a20, a21);
    vstd::seq_lib::lemma_concat_associative(pre, a1 + a2 + a3 + a4 + a5 + a6 + a7 + a8 + a9 + a10 + a11 + a12 + a13 + a14 + a15 + a16 + a17 + a18 + a19, a20);
    vstd::seq_lib::lemma_concat_associative(pre, a1 + a2 + a3 + a4 + a5 + a6 + a7 + a8 + a9 + a10 + a11 + a12 + a13 + a14 + a15 + a16 + a17 + a18, a19);
    vstd::seq_lib::lemma_concat_associative(pre, a1 + a2 + a3 + a4 + a5 + a6 + a7 + a8 + a9 + a10 + a11 + a12 + a13 + a14 + a15 + a16 + a17, a18);
    vstd::seq_lib::lemma_concat_associative(pre, a1 + a2 + a3 + a4 + a5 + a6 + a7 + a8 + a9 + a10 + a11 + a12 + a13 + a14 + a15 + a16, a17);
    vstd::seq_lib::lemma_concat_associative(pre, a1 + a2 + a3 + a4 + a5 + a6 + a7 + a8 + a9 + a10 + a11 + a12 + a13 + a14 + a15, a16);
    vstd::seq_lib::lemma_concat_associative(pre, a1 + a2 + a3 + a4 + a5 + a6 + a7 + a8 + a9 + a10 + a11 + a12 + a13 + a14, a15);
    vstd::seq_lib::lemma_concat_associative(pre, a1 + a2 + a3 + a4 + a5 + a6 + a7 + a8 + a9 + a10 + a11 + a12 + a13, a14);
    vstd::seq_lib::lemma_concat_associative(pre, a1 + a2 + a3 + a4 + a5 + a6 + a7 + a8 + a9 + a10 + a11 + a12, a13);
    vstd::seq_lib::lemma_concat_associative(pre, a1 + a2 + a3 + a4 + a5 + a6 + a7 + a8 + a9 + a10 + a11, a12);
    vstd::seq_lib::lemma_concat_associative(pre, a1 + a2 + a3 + a4 + a5 + a6 + a7 + a8 + a9 + a10, a11);
    vstd::seq_lib::lemma_concat_associative(pre, a1 + a2 + a3 + a4 + a5 + a6 + a7 + a8 + a9, a10);
    vstd::seq_lib::lemma_concat_associative(pre, a1 + a2 + a3 + a4 + a5 + a6 + a7 + a8, a9);
    vstd::seq_lib::lemma_concat_associative(pre, a1 + a2 + a3 + a4 + a5 + a6 + a7, a8);
    vstd::seq_lib::lemma_concat_associative(pre, a1 + a2 + a3 + a4 + a5 + a6, a7);
    vstd::seq_lib::lemma_concat_associative(pre, a1 + a2 + a3 + a4 + a5, a6);
    vstd::seq_lib::lemma_concat_associative(pre, a1 + a2 + a3 + a4, a5);
    vstd::seq_lib::lemma_concat_associative(pre, a1 + a2 + a3, a4);
    vstd::seq_lib::lemma_concat_associative(pre, a1 + a2, a3);
    vstd::seq_lib::lemma_concat_associative(pre, a1, a2);
}

/// The serialized form of the whole store: entries, vault metadata,
/// and the last-access stamp.  The passphrase is not written.
#[verifier::opaque]
pub open spec fn ser_body(v: DbView) -> Seq<u8> {
    seq![OPEN_BRACE]
        + kb("\"entries\":"@)
        + ser_entries(v.entries)
        + seq![COMMA]
        + kb("\"config\":"@)
        + seq![OPEN_BRACE]
        + kb("\"comment\":"@)
        + ser_str(v.config.comment)
        + seq![COMMA]
        + kb("\"author\":"@)
        + ser_str(v.config.author)
        + seq![CLOSE_BRACE]
        + seq![COMMA]
        + kb("\"last_access\":"@)
        + ser_str(v.last_access)
        + seq![CLOSE_BRACE]
}

/// Parse a whole payload.  Anything after the closing brace makes the
/// payload invalid: every store has exactly one serialized form.
#[verifier::opaque]
pub open spec fn pars_body(data: Seq<u8>) -> Option<DbView> {
    match pars_byte(data, OPEN_BRACE) {
        None => None,
        Some(d1) => {
            match pars_lit(d1, kb("\"entries\":"@)) {
                None => None,
                Some(d2) => {
                    match pars_entries(d2) {
                        None => None,
                        Some((entries, d3)) => {
                            match pars_byte(d3, COMMA) {
                                None => None,
                                Some(d4) => {
                                    match pars_lit(d4, kb("\"config\":"@)) {
                                        None => None,
                                        Some(d5) => {
                                            match pars_byte(d5, OPEN_BRACE) {
                                                None => None,
                                                Some(d6) => {
                                                    match pars_lit(d6, kb("\"comment\":"@)) {
                                                        None => None,
                                                        Some(d7) => {
                                                            match pars_str(d7) {
                                                                None => None,
                                                                Some((comment, d8)) => {
                                                                    match pars_byte(d8, COMMA) {
                                                                        None => None,
                                                                        Some(d9) => {
                                                                            match pars_lit(d9, kb("\"author\":"@)) {
                                                                                None => None,
                                                                                Some(d10) => {
                                                                                    match pars_str(d10) {
                                                                                        None => None,
                                                                                        Some((author, d11)) => {
                                                                                            match pars_byte(d11, CLOSE_BRACE) {
                                                                                                None => None,
                                                                                                Some(d12) => {
                                                                                                    match pars_byte(d12, COMMA) {
                                                                                                        None => None,
                                                                                                        Some(d13) => {
                                                                                                            match pars_lit(d13, kb("\"last_access\":"@)) {
                                                                                                                None => None,
                                                                                                                Some(d14) => {
                                                                                                                    match pars_str(d14) {
                                                                                                                        None => None,
                                                                                                                        Some((last_access, d15)) => {
                                                                                                                            match pars_byte(d15, CLOSE_BRACE) {
                                                                                                                                None => None,
                                                                                                                                Some(d16) => {
                                                                                                                                    if d16.len() == 0 {
                Some(
                    DbView {
                        entries,
                        config: ConfigView { comment, author },
                        last_access,
                        password: Seq::<char>::empty(),
                    },
                )
            } else {
                None
            }
                                                                                                                                },
                                                                                                                            }
                                                                                                                        },
                                                                                                                    }
                                                                                                                },
                                                                                                            }
                                                                                                        },
                                                                                                    }
                                                                                                },
                                                                                            }
                                                                                        },
                                                                                    }
                                                                                },
                                                                            }
                                                                        },
                                                                    }
                                                                },
                                                            }
                                                        },
                                                    }
                                                },
                                            }
                                        },
                                    }
                                },
                            }
                        },
                    }
                },
            }
        },
    }
}

/// Parsing a serialized store yields the store back, with the passphrase
/// cleared.
#[verifier::rlimit(100)]
pub proof fn lemma_pars_body_of_ser(v: DbView)
    ensures
        pars_body(ser_body(v)) == Some(
            DbView {
                entries: v.entries,
                config: v.config,
                last_access: v.last_access,
                password: Seq::<char>::empty(),
            },
        ),
{
    reveal(ser_body);
    reveal(pars_body);
    let fin = Seq::<u8>::empty();
    let t16 = seq![CLOSE_BRACE] + fin;
    let t15 = ser_str(v.last_access) + t16;
    let t14 = kb("\"last_access\":"@) + t15;
    let t13 = seq![COMMA] + t14;
    let t12 = seq![CLOSE_BRACE] + t13;
    let t11 = ser_str(v.config.author) + t12;
    let t10 = kb("\"author\":"@) + t11;
    let t9 = seq![COMMA] + t10;
    let t8 = ser_str(v.config.comment) + t9;
    let t7 = kb("\"comment\":"@) + t8;
    let t6 = seq![OPEN_BRACE] + t7;
    let t5 = kb("\"config\":"@) + t6;
    let t4 = seq![COMMA] + t5;
    let t3 = ser_entries(v.entries) + t4;
    let t2 = kb("\"entries\":"@) + t3;
    let t1 = seq![OPEN_BRACE] + t2;
    lemma_assoc16(
        seq![OPEN_BRACE],
        kb("\"entries\":"@),
        ser_entries(v.entries),
        seq![COMMA],
        kb("\"config\":"@),
        seq![OPEN_BRACE],
        kb("\"comment\":"@),
        ser_str(v.config.comment),
        seq![COMMA],
        kb("\"author\":"@),
        ser_str(v.config.author),
        seq![CLOSE_BRACE],
        seq![COMMA],
        kb("\"last_access\":"@),
        ser_str(v.last_access),
        seq![CLOSE_BRACE],
        fin,
    );
    assert(ser_body(v) + fin =~= ser_body(v));
    assert(ser_body(v) == t1);
    assert(t1.first() == OPEN_BRACE);
    assert(t1.drop_first() =~= t2);
    lemma_pars_lit_of_ser(kb("\"entries\":"@), t3);
    lemma_pars_entries_of_ser(v.entries, t4);
    assert(t4.first() == COMMA);
    assert(t4.drop_first() =~= t5);
    lemma_pars_lit_of_ser(kb("\"config\":"@), t6);
    assert(t6.first() == OPEN_BRACE);
    assert(t6.drop_first() =~= t7);
    lemma_pars_lit_of_ser(kb("\"comment\":"@), t8);
    lemma_pars_str_of_ser(v.config.comment, t9);
    assert(t9.first() == COMMA);
    assert(t9.drop_first() =~= t10);
    lemma_pars_lit_of_ser(kb("\"author\":"@), t11);
    lemma_pars_str_of_ser(v.config.author, t12);
    assert(t12.first() == CLOSE_BRACE);
    assert(t12.drop_first() =~= t13);
    assert(t13.first() == COMMA);
    assert(t13.drop_first() =~= t14);
    lemma_pars_lit_of_ser(kb("\"last_access\":"@), t15);
    lemma_pars_str_of_ser(v.last_access, t16);
    assert(t16.first() == CLOSE_BRACE);
    assert(t16.drop_first() =~= fin);
    assert(v.config == (ConfigView { comment: v.config.comment, author: v.config.author }));
}

/// The payload ignores the passphrase: stores that differ only in it
/// serialize identically.
pub proof fn lemma_ser_body_ignores_password(v: DbView, pw: Seq<char>)
    ensures
        ser_body(DbView { password: pw, ..v }) == ser_body(v),
{
    reveal(ser_body);
}

/// Reassemble a fully parsed payload from its sixteen consumed pieces.
#[verifier::rlimit(100)]
proof fn lemma_body_reassemble(
    data: Seq<u8>,
    entries: Seq<EntryView>,
    comment: Seq<char>,
    author: Seq<char>,
    last_access: Seq<char>,
    d1: Seq<u8>,
    d2: Seq<u8>,
    d3: Seq<u8>,
    d4: Seq<u8>,
    d5: Seq<u8>,
    d6: Seq<u8>,
    d7: Seq<u8>,
    d8: Seq<u8>,
    d9: Seq<u8>,
    d10: Seq<u8>,
    d11: Seq<u8>,
    d12: Seq<u8>,
    d13: Seq<u8>,
    d14: Seq<u8>,
    d15: Seq<u8>,
    d16: Seq<u8>,
)
    requires
        data == seq![OPEN_BRACE] + d1,
        d1 == kb("\"entries\":"@) + d2,
        d2 == ser_entries(entries) + d3,
        d3 == seq![COMMA] + d4,
        d4 == kb("\"config\":"@) + d5,
        d5 == seq![OPEN_BRACE] + d6,
        d6 == kb("\"comment\":"@) + d7,
        d7 == ser_str(comment) + d8,
        d8 == seq![COMMA] + d9,
        d9 == kb("\"author\":"@) + d10,
        d10 == ser_str(author) + d11,
        d11 == seq![CLOSE_BRACE] + d12,
        d12 == seq![COMMA] + d13,
        d13 == kb("\"last_access\":"@) + d14,
        d14 == ser_str(last_access) + d15,
        d15 == seq![CLOSE_BRACE] + d16,
        d16.len() == 0,
    ensures
        ({
            let w = DbView {
                entries,
                config: ConfigView { comment, author },
                last_access,
                password: Seq::<char>::empty(),
            };
            data == ser_body(w)
        }),
{
    reveal(ser_body);
    let w = DbView {
        entries,
        config: ConfigView { comment, author },
        last_access,
        password: Seq::<char>::empty(),
    };
    lemma_assoc16(
        seq![OPEN_BRACE],
        kb("\"entries\":"@),
        ser_entries(entries),
        seq![COMMA],
        kb("\"config\":"@),
        seq![OPEN_BRACE],
        kb("\"comment\":"@),
        ser_str(comment),
        seq![COMMA],
        kb("\"author\":"@),
        ser_str(author),
        seq![CLOSE_BRACE],
        seq![COMMA],
        kb("\"last_access\":"@),
        ser_str(last_access),
        seq![CLOSE_BRACE],
        d16,
    );
    Seq::<u8>::add_empty_right(ser_body(w), d16);
}

/// Whatever the payload parser accepts is the canonical form of its
/// result, whose passphrase is clear.
#[verifier::rlimit(100)]
#[verifier::spinoff_prover]
pub proof fn lemma_pars_body_sound(data: Seq<u8>)
    ensures
        pars_body(data) matches Some(w) ==> data == ser_body(w) && w.password
            == Seq::<char>::empty(),
{
    reveal(ser_body);
    reveal(pars_body);
    if let Some(d1) = pars_byte(data, OPEN_BRACE) {
        lemma_pars_lit_sound(d1, kb("\"entries\":"@));
        if let Some(d2) = pars_lit(d1, kb("\"entries\":"@)) {
            lemma_pars_entries_sound(d2);
            if let Some((entries, d3)) = pars_entries(d2) {
                if let Some(d4) = pars_byte(d3, COMMA) {
                    lemma_pars_lit_sound(d4, kb("\"config\":"@));
                    if let Some(d5) = pars_lit(d4, kb("\"config\":"@)) {
                        if let Some(d6) = pars_byte(d5, OPEN_BRACE) {
                            lemma_pars_lit_sound(d6, kb("\"comment\":"@));
                            if let Some(d7) = pars_lit(d6, kb("\"comment\":"@)) {
                                lemma_pars_str_sound(d7);
                                if let Some((comment, d8)) = pars_str(d7) {
                                    if let Some(d9) = pars_byte(d8, COMMA) {
                                        lemma_pars_lit_sound(d9, kb("\"author\":"@));
                                        if let Some(d10) = pars_lit(d9, kb("\"author\":"@)) {
                                            lemma_pars_str_sound(d10);
                                            if let Some((author, d11)) = pars_str(d10) {
                                                if let Some(d12) = pars_byte(d11, CLOSE_BRACE) {
                                                    if let Some(d13) = pars_byte(d12, COMMA) {
                                                        lemma_pars_lit_sound(d13, kb("\"last_access\":"@));
                                                        if let Some(d14) = pars_lit(d13, kb("\"last_access\":"@)) {
                                                            lemma_pars_str_sound(d14);
                                                            if let Some((last_access, d15)) = pars_str(d14) {
                                                                if let Some(d16) = pars_byte(d15, CLOSE_BRACE) {
                                                                    if d16.len() == 0 {
                                                                    assert(data =~= seq![OPEN_BRACE] + d1);
                                                                    assert(d3 =~= seq![COMMA] + d4);
                                                                    assert(d5 =~= seq![OPEN_BRACE] + d6);
                                                                    assert(d8 =~= seq![COMMA] + d9);
                                                                    assert(d11 =~= seq![CLOSE_BRACE] + d12);
                                                                    assert(d12 =~= seq![COMMA] + d13);
                                                                    assert(d15 =~= seq![CLOSE_BRACE] + d16);
                                                                    lemma_body_reassemble(
                                                                        data, entries, comment, author, last_access,
                                                                        d1, d2, d3, d4, d5, d6, d7, d8, d9, d10, d11, d12, d13, d14, d15, d16,
                                                                    );
                                                                    }
                                                                }
                                                            }
                                                        }
                                                    }
                                                }
                                            }
                                        }
                                    }
                                }
                            }
                        }
                    }
                }
            }
        }
    }
}

/// Match one expected byte at position `i`.
fn expect_byte(data: &[u8], i: usize, b: u8) -> (r: Option<usize>)
    requires
        i <= data@.len(),
    ensures
        r matches Some(j) ==> j == i + 1 && j <= data@.len() && pars_byte(
            data@.skip(i as int),
            b,
        ) == Some(data@.skip(j as int)),
        r is None ==> pars_byte(data@.skip(i as int), b) is None,
{
    if i < data.len() && data[i] == b {
        proof {
            assert(data@.skip(i as int).first() == data@[i as int]);
            assert(data@.skip(i as int).drop_first() =~= data@.skip(i + 1));
        }
        Some(i + 1)
    } else {
        proof {
            if i < data@.len() {
                assert(data@.skip(i as int).first() == data@[i as int]);
            }
        }
        None
    }
}

/// Parse an entry type at position `i`.
fn parse_etype(data: &[u8], i: usize) -> (r: Option<(EntryType, usize)>)
    requires
        i <= data@.len(),
    ensures
        r matches Some(p) ==> i < p.1 <= data@.len() && pars_etype(data@.skip(i as int)) == Some(
            (p.0, data@.skip(p.1 as int)),
        ),
        r is None ==> pars_etype(data@.skip(i as int)) is None,
{
    match parse_str(data, i) {
        None => None,
        Some((s, j)) => {
            let classic: String = "ClassicPassword".to_owned();
            let environment: String = "EnvironmentVariable".to_owned();
            if s == classic {
                Some((EntryType::ClassicPassword, j))
            } else if s == environment {
                Some((EntryType::EnvironmentVariable, j))
            } else {
                None
            }
        },
    }
}

/// Prefix already-parsed files onto the outcome of a list-tail parse.
pub open spec fn prepend_files(
    pre: Seq<FileView>,
    o: Option<(Seq<FileView>, Seq<u8>)>,
) -> Option<(Seq<FileView>, Seq<u8>)> {
    match o {
        Some(r) => Some((pre + r.0, r.1)),
        None => None,
    }
}

/// Prefix already-parsed entries onto the outcome of a list-tail parse.
pub open spec fn prepend_entries(
    pre: Seq<EntryView>,
    o: Option<(Seq<EntryView>, Seq<u8>)>,
) -> Option<(Seq<EntryView>, Seq<u8>)> {
    match o {
        Some(r) => Some((pre + r.0, r.1)),
        None => None,
    }
}

/// Parse a list of attached files at position `i`.
#[verifier::rlimit(100)]
fn parse_files(data: &[u8], i: usize) -> (r: Option<(Vec<CustomFile>, usize)>)
    requires
        i <= data@.len(),
    ensures
        r matches Some(p) ==> i < p.1 <= data@.len() && pars_files(data@.skip(i as int)) == Some(
            (files_view(p.0@), data@.skip(p.1 as int)),
        ),
        r is None ==> pars_files(data@.skip(i as int)) is None,
{
    let j0 = match expect_byte(data, i, OPEN_BRACKET) {
        Some(j) => j,
        None => {
            return None;
        },
    };
    if let Some(j1) = expect_byte(data, j0, CLOSE_BRACKET) {
        let empty_list: Vec<CustomFile> = Vec::new();
        proof {
            assert(files_view(empty_list@) =~= Seq::<FileView>::empty());
        }
        return Some((empty_list, j1));
    }
    let (f0, j1) = match parse_file(data, j0) {
        Some(p) => p,
        None => {
            return None;
        },
    };
    let mut acc: Vec<CustomFile> = Vec::new();
    acc.push(f0);
    let mut cur: usize = j1;
    proof {
        assert(files_view(acc@) =~= seq![f0@]);
        if let Some(r2) = pars_files_tail(data@.skip(cur as int)) {
            assert(seq![f0@] + r2.0 =~= files_view(acc@) + r2.0);
        }
    }
    loop
        invariant
            i < cur <= data@.len(),
            pars_files(data@.skip(i as int)) == prepend_files(
                files_view(acc@),
                pars_files_tail(data@.skip(cur as int)),
            ),
        decreases data@.len() - cur,
    {
        if let Some(jj) = expect_byte(data, cur, CLOSE_BRACKET) {
            proof {
                Seq::<FileView>::add_empty_right(files_view(acc@), Seq::<FileView>::empty());
            }
            return Some((acc, jj));
        }
        let jc = match expect_byte(data, cur, COMMA) {
            Some(j) => j,
            None => {
                return None;
            },
        };
        let (f, jn) = match parse_file(data, jc) {
            Some(p) => p,
            None => {
                return None;
            },
        };
        let ghost before = files_view(acc@);
        acc.push(f);
        proof {
            assert(files_view(acc@) =~= before.push(f@));
            if let Some(r2) = pars_files_tail(data@.skip(jn as int)) {
                assert(pars_files_tail(data@.skip(cur as int)) == Some((seq![f@] + r2.0, r2.1)));
                assert(before + (seq![f@] + r2.0) =~= files_view(acc@) + r2.0);
            } else {
                assert(pars_files_tail(data@.skip(cur as int)) is None);
            }
        }
        cur = jn;
    }
}

/// Parse a list of entries at position `i`.
#[verifier::rlimit(100)]
fn parse_entries(data: &[u8], i: usize) -> (r: Option<(Vec<PasswordEntry>, usize)>)
    requires
        i <= data@.len(),
    ensures
        r matches Some(p) ==> i < p.1 <= data@.len() && pars_entries(data@.skip(i as int)) == Some(
            (entries_view(p.0@), data@.skip(p.1 as int)),
        ),
        r is None ==> pars_entries(data@.skip(i as int)) is None,
{
    let j0 = match expect_byte(data, i, OPEN_BRACKET) {
        Some(j) => j,
        None => {
            return None;
        },
    };
    if let Some(j1) = expect_byte(data, j0, CLOSE_BRACKET) {
        let empty_list: Vec<PasswordEntry> = Vec::new();
        proof {
            assert(entries_view(empty_list@) =~= Seq::<EntryView>::empty());
        }
        return Some((empty_list, j1));
    }
    let (e0, j1) = match parse_entry(data, j0) {
        Some(p) => p,
        None => {
            return None;
        },
    };
    let mut acc: Vec<PasswordEntry> = Vec::new();
    acc.push(e0);
    let mut cur: usize = j1;
    proof {
        assert(entries_view(acc@) =~= seq![e0@]);
        if let Some(r2) = pars_entries_tail(data@.skip(cur as int)) {
            assert(seq![e0@] + r2.0 =~= entries_view(acc@) + r2.0);
        }
    }
    loop
        invariant
            i < cur <= data@.len(),
            pars_entries(data@.skip(i as int)) == prepend_entries(
                entries_view(acc@),
                pars_entries_tail(data@.skip(cur as int)),
            ),
        decreases data@.len() - cur,
    {
        if let Some(jj) = expect_byte(data, cur, CLOSE_BRACKET) {
            proof {
                Seq::<EntryView>::add_empty_right(entries_view(acc@), Seq::<EntryView>::empty());
            }
            return Some((acc, jj));
        }
        let jc = match expect_byte(data, cur, COMMA) {
            Some(j) => j,
            None => {
                return None;
            },
        };
        let (e, jn) = match parse_entry(data, jc) {
            Some(p) => p,
            None => {
                return None;
            },
        };
        let ghost before = entries_view(acc@);
        acc.push(e);
        proof {
            assert(entries_view(acc@) =~= before.push(e@));
            if let Some(r2) = pars_entries_tail(data@.skip(jn as int)) {
                assert(pars_entries_tail(data@.skip(cur as int)) == Some((seq![e@] + r2.0, r2.1)));
                assert(before + (seq![e@] + r2.0) =~= entries_view(acc@) + r2.0);
            } else {
                assert(pars_entries_tail(data@.skip(cur as int)) is None);
            }
        }
        cur = jn;
    }
}

/// Parse one attached file at position `i`.
#[verifier::rlimit(100)]
fn parse_file(data: &[u8], i: usize) -> (r: Option<(CustomFile, usize)>)
    requires
        i <= data@.len(),
    ensures
        r matches Some(p) ==> i < p.1 <= data@.len() && pars_file(data@.skip(i as int)) == Some(
            (p.0@, data@.skip(p.1 as int)),
        ),
        r is None ==> pars_file(data@.skip(i as int)) is None,
{
    let p1 = match expect_byte(data, i, OPEN_BRACE) {
        Some(j) => j,
        None => {
            proof {
                reveal(pars_file);
            }
            return None;
        },
    };
    let p2 = match expect_lit(data, p1, "\"content\":") {
        Some(j) => j,
        None => {
            proof {
                reveal(pars_file);
            }
            return None;
        },
    };
    let (content, p3) = match parse_str(data, p2) {
        Some(p) => p,
        None => {
            proof {
                reveal(pars_file);
            }
            return None;
        },
    };
    let p4 = match expect_byte(data, p3, COMMA) {
        Some(j) => j,
        None => {
            proof {
                reveal(pars_file);
            }
            return None;
        },
    };
    let p5 = match expect_lit(data, p4, "\"comment\":") {
        Some(j) => j,
        None => {
            proof {
                reveal(pars_file);
            }
            return None;
        },
    };
    let (comment, p6) = match parse_str(data, p5) {
        Some(p) => p,
        None => {
            proof {
                reveal(pars_file);
            }
            return None;
        },
    };
    let p7 = match expect_byte(data, p6, COMMA) {
        Some(j) => j,
        None => {
            proof {
                reveal(pars_file);
            }
            return None;
        },
    };
    let p8 = match expect_lit(data, p7, "\"name\":") {
        Some(j) => j,
        None => {
            proof {
                reveal(pars_file);
            }
            return None;
        },
    };
    let (name, p9) = match parse_str(data, p8) {
        Some(p) => p,
        None => {
            proof {
                reveal(pars_file);
            }
            return None;
        },
    };
    let p10 = match expect_byte(data, p9, CLOSE_BRACE) {
        Some(j) => j,
        None => {
            proof {
                reveal(pars_file);
            }
            return None;
        },
    };
    let f = CustomFile { content, comment, name };
    proof {
        reveal(pars_file);
        assert(pars_file(data@.skip(i as int)) == Some((f@, data@.skip(p10 as int))));
    }
    Some((f, p10))
}

/// Parse one entry at position `i`.
#[verifier::rlimit(100)]
#[verifier::spinoff_prover]
fn parse_entry(data: &[u8], i: usize) -> (r: Option<(PasswordEntry, usize)>)
    requires
        i <= data@.len(),
    ensures
        r matches Some(p) ==> i < p.1 <= data@.len() && pars_entry(data@.skip(i as int)) == Some(
            (p.0@, data@.skip(p.1 as int)),
        ),
        r is None ==> pars_entry(data@.skip(i as int)) is None,
{
    let p1 = match expect_byte(data, i, OPEN_BRACE) {
        Some(j) => j,
        None => {
            proof {
                reveal(pars_entry);
            }
            return None;
        },
    };
    let p2 = match expect_lit(data, p1, "\"id\":") {
        Some(j) => j,
        None => {
            proof {
                reveal(pars_entry);
            }
            return None;
        },
    };
    let (id, p3) = match parse_str(data, p2) {
        Some(p) => p,
        None => {
            proof {
                reveal(pars_entry);
            }
            return None;
        },
    };
    let p4 = match expect_byte(data, p3, COMMA) {
        Some(j) => j,
        None => {
            proof {
                reveal(pars_entry);
            }
            return None;
        },
    };
    let p5 = match expect_lit(data, p4, "\"title\":") {
        Some(j) => j,
        None => {
            proof {
                reveal(pars_entry);
            }
            return None;
        },
    };
    let (title, p6) = match parse_str(data, p5) {
        Some(p) => p,
        None => {
            proof {
                reveal(pars_entry);
            }
            return None;
        },
    };
    let p7 = match expect_byte(data, p6, COMMA) {
        Some(j) => j,
        None => {
            proof {
                reveal(pars_entry);
            }
            return None;
        },
    };
    let p8 = match expect_lit(data, p7, "\"name\":") {
        Some(j) => j,
        None => {
            proof {
                reveal(pars_entry);
            }
            return None;
        },
    };
    let (name, p9) = match parse_str(data, p8) {
        Some(p) => p,
        None => {
            proof {
                reveal(pars_entry);
            }
            return None;
        },
    };
    let p10 = match expect_byte(data, p9, COMMA) {
        Some(j) => j,
        None => {
            proof {
                reveal(pars_entry);
            }
            return None;
        },
    };
    let p11 = match expect_lit(data, p10, "\"value\":") {
        Some(j) => j,
        None => {
            proof {
                reveal(pars_entry);
            }
            return None;
        },
    };
    let (value, p12) = match parse_str(data, p11) {
        Some(p) => p,
        None => {
            proof {
                reveal(pars_entry);
            }
            return None;
        },
    };
    let p13 = match expect_byte(data, p12, COMMA) {
        Some(j) => j,
        None => {
            proof {
                reveal(pars_entry);
            }
            return None;
        },
    };
    let p14 = match expect_lit(data, p13, "\"url\":") {
        Some(j) => j,
        None => {
            proof {
                reveal(pars_entry);
            }
            return None;
        },
    };
    let (url, p15) = match parse_str(data, p14) {
        Some(p) => p,
        None => {
            proof {
                reveal(pars_entry);
            }
            return None;
        },
    };
    let p16 = match expect_byte(data, p15, COMMA) {
        Some(j) => j,
        None => {
            proof {
                reveal(pars_entry);
            }
            return None;
        },
    };
    let p17 = match expect_lit(data, p16, "\"comment\":") {
        Some(j) => j,
        None => {
            proof {
                reveal(pars_entry);
            }
            return None;
        },
    };
    let (comment, p18) = match parse_str(data, p17) {
        Some(p) => p,
        None => {
            proof {
                reveal(pars_entry);
            }
            return None;
        },
    };
    let p19 = match expect_byte(data, p18, COMMA) {
        Some(j) => j,
        None => {
            proof {
                reveal(pars_entry);
            }
            return None;
        },
    };
    let p20 = match expect_lit(data, p19, "\"entry_type\":") {
        Some(j) => j,
        None => {
            proof {
                reveal(pars_entry);
            }
            return None;
        },
    };
    let (entry_type, p21) = match parse_etype(data, p20) {
        Some(p) => p,
        None => {
            proof {
                reveal(pars_entry);
            }
            return None;
        },
    };
    let p22 = match expect_byte(data, p21, COMMA) {
        Some(j) => j,
        None => {
            proof {
                reveal(pars_entry);
            }
            return None;
        },
    };
    let p23 = match expect_lit(data, p22, "\"last_modified\":") {
        Some(j) => j,
        None => {
            proof {
                reveal(pars_entry);
            }
            return None;
        },
    };
    let (last_modified, p24) = match parse_str(data, p23) {
        Some(p) => p,
        None => {
            proof {
                reveal(pars_entry);
            }
            return None;
        },
    };
    let p25 = match expect_byte(data, p24, COMMA) {
        Some(j) => j,
        None => {
            proof {
                reveal(pars_entry);
            }
            return None;
        },
    };
    let p26 = match expect_lit(data, p25, "\"files\":") {
        Some(j) => j,
        None => {
            proof {
                reveal(pars_entry);
            }
            return None;
        },
    };
    let (files, p27) = match parse_files(data, p26) {
        Some(p) => p,
        None => {
            proof {
                reveal(pars_entry);
            }
            return None;
        },
    };
    let p28 = match expect_byte(data, p27, CLOSE_BRACE) {
        Some(j) => j,
        None => {
            proof {
                reveal(pars_entry);
            }
            return None;
        },
    };
    let e = PasswordEntry { id, title, name, value, url, comment, entry_type, last_modified, files };
    proof {
        reveal(pars_entry);
        assert(pars_entry(data@.skip(i as int)) == Some((e@, data@.skip(p28 as int))));
    }
    Some((e, p28))
}

/// Parse a whole payload into a store.  The passphrase of the result is
/// empty: the codec never learns it.  Exactly the canonical serialized
/// forms are accepted.
#[verifier::rlimit(100)]
#[verifier::spinoff_prover]
pub fn parse_store(data: &[u8]) -> (r: Option<DatabaseFile>)
    ensures
        r matches Some(d) ==> pars_body(data@) == Some(d@) && d@.password == Seq::<char>::empty()
            && data@ == ser_body(d@),
        r is None ==> pars_body(data@) is None,
{
    let i: usize = 0;
    proof {
        assert(data@.skip(0) =~= data@);
    }
    let p1 = match expect_byte(data, i, OPEN_BRACE) {
        Some(j) => j,
        None => {
            proof {
                reveal(pars_body);
            }
            return None;
        },
    };
    let p2 = match expect_lit(data, p1, "\"entries\":") {
        Some(j) => j,
        None => {
            proof {
                reveal(pars_body);
            }
            return None;
        },
    };
    let (entries, p3) = match parse_entries(data, p2) {
        Some(p) => p,
        None => {
            proof {
                reveal(pars_body);
            }
            return None;
        },
    };
    let p4 = match expect_byte(data, p3, COMMA) {
        Some(j) => j,
        None => {
            proof {
                reveal(pars_body);
            }
            return None;
        },
    };
    let p5 = match expect_lit(data, p4, "\"config\":") {
        Some(j) => j,
        None => {
            proof {
                reveal(pars_body);
            }
            return None;
        },
    };
    let p6 = match expect_byte(data, p5, OPEN_BRACE) {
        Some(j) => j,
        None => {
            proof {
                reveal(pars_body);
            }
            return None;
        },
    };
    let p7 = match expect_lit(data, p6, "\"comment\":") {
        Some(j) => j,
        None => {
            proof {
                reveal(pars_body);
            }
            return None;
        },
    };
    let (comment, p8) = match parse_str(data, p7) {
        Some(p) => p,
        None => {
            proof {
                reveal(pars_body);
            }
            return None;
        },
    };
    let p9 = match expect_byte(data, p8, COMMA) {
        Some(j) => j,
        None => {
            proof {
                reveal(pars_body);
            }
            return None;
        },
    };
    let p10 = match expect_lit(data, p9, "\"author\":") {
        Some(j) => j,
        None => {
            proof {
                reveal(pars_body);
            }
            return None;
        },
    };
    let (author, p11) = match parse_str(data, p10) {
        Some(p) => p,
        None => {
            proof {
                reveal(pars_body);
            }
            return None;
        },
    };
    let p12 = match expect_byte(data, p11, CLOSE_BRACE) {
        Some(j) => j,
        None => {
            proof {
                reveal(pars_body);
            }
            return None;
        },
    };
    let p13 = match expect_byte(data, p12, COMMA) {
        Some(j) => j,
        None => {
            proof {
                reveal(pars_body);
            }
            return None;
        },
    };
    let p14 = match expect_lit(data, p13, "\"last_access\":") {
        Some(j) => j,
        None => {
            proof {
                reveal(pars_body);
            }
            return None;
        },
    };
    let (last_access, p15) = match parse_str(data, p14) {
        Some(p) => p,
        None => {
            proof {
                reveal(pars_body);
            }
            return None;
        },
    };
    let p16 = match expect_byte(data, p15, CLOSE_BRACE) {
        Some(j) => j,
        None => {
            proof {
                reveal(pars_body);
            }
            return None;
        },
    };
    if p16 != data.len() {
        proof {
            reveal(pars_body);
        }
        return None;
    }
    let db = DatabaseFile {
        entries,
        config: Config { comment, author },
        last_access,
        password: String::new(),
    };
    proof {
        reveal(pars_body);
        assert(data@.skip(p16 as int).len() == 0);
        assert(pars_body(data@) == Some(db@));
        lemma_pars_body_sound(data@);
    }
    Some(db)
}

/// Append one byte.
fn push_byte(out: &mut Vec<u8>, b: u8)
    ensures
        final(out)@ == old(out)@ + seq![b],
{
    out.push(b);
    proof {
        assert(out@ =~= old(out)@ + seq![b]);
    }
}

/// Append the serialized form of one file.
#[verifier::rlimit(100)]
fn serialize_file(out: &mut Vec<u8>, f: &CustomFile)
    ensures
        final(out)@ == old(out)@ + ser_file(f@),
{
    let ghost base = out@;
    push_byte(out, OPEN_BRACE);
    push_lit(out, "\"content\":");
    push_str_field(out, f.content.as_str());
    push_byte(out, COMMA);
    push_lit(out, "\"comment\":");
    push_str_field(out, f.comment.as_str());
    push_byte(out, COMMA);
    push_lit(out, "\"name\":");
    push_str_field(out, f.name.as_str());
    push_byte(out, CLOSE_BRACE);
    proof {
        reveal(ser_file);
        lemma_append10(
            base,
            seq![OPEN_BRACE],
        kb("\"content\":"@),
        ser_str(f@.content),
        seq![COMMA],
        kb("\"comment\":"@),
        ser_str(f@.comment),
        seq![COMMA],
        kb("\"name\":"@),
        ser_str(f@.name),
        seq![CLOSE_BRACE],
        );
    }
}

/// Append the serialized form of an entry type.
fn serialize_etype(out: &mut Vec<u8>, t: &EntryType)
    ensures
        final(out)@ == old(out)@ + ser_etype(*t),
{
    match t {
        EntryType::ClassicPassword => push_str_field(out, "ClassicPassword"),
        EntryType::EnvironmentVariable => push_str_field(out, "EnvironmentVariable"),
    }
}

/// Append the serialized form of a CustomFile list.
#[verifier::rlimit(100)]
fn serialize_files(out: &mut Vec<u8>, xs: &Vec<CustomFile>)
    ensures
        final(out)@ == old(out)@ + ser_files(files_view(xs@)),
{
    let ghost base = out@;
    let ghost xv = files_view(xs@);
    push_byte(out, OPEN_BRACKET);
    let n = xs.len();
    if n == 0 {
        push_byte(out, CLOSE_BRACKET);
        proof {
            assert(xv.len() == 0);
            assert(base + seq![OPEN_BRACKET] + seq![CLOSE_BRACKET] =~= base + ser_files(xv));
        }
        return ;
    }
    serialize_file(out, &xs[0]);
    proof {
        assert(xv.first() == xs@[0]@);
        assert(xv.skip(1) =~= xv.drop_first());
        assert(ser_files(xv) == seq![OPEN_BRACKET] + ser_file(xv.first()) + ser_files_tail(xv.drop_first()));
        vstd::seq_lib::lemma_concat_associative(base, seq![OPEN_BRACKET], ser_file(xv.first()));
        vstd::seq_lib::lemma_concat_associative(
            base,
            seq![OPEN_BRACKET] + ser_file(xv.first()),
            ser_files_tail(xv.skip(1)),
        );
        vstd::seq_lib::lemma_concat_associative(
            seq![OPEN_BRACKET],
            ser_file(xv.first()),
            ser_files_tail(xv.skip(1)),
        );
    }
    let mut k: usize = 1;
    while k < n
        invariant
            1 <= k <= n,
            n == xs@.len(),
            xv == files_view(xs@),
            xv.len() == n,
            out@ + ser_files_tail(xv.skip(k as int)) == base + ser_files(xv),
        decreases n - k,
    {
        let ghost pre = out@;
        push_byte(out, COMMA);
        serialize_file(out, &xs[k]);
        proof {
            assert(xv.skip(k as int).first() == xv[k as int]);
            assert(xv[k as int] == xs@[k as int]@);
            assert(xv.skip(k as int).drop_first() =~= xv.skip(k + 1));
            assert(ser_files_tail(xv.skip(k as int)) == seq![COMMA] + ser_file(xv[k as int]) + ser_files_tail(
                xv.skip(k + 1),
            ));
            vstd::seq_lib::lemma_concat_associative(pre, seq![COMMA], ser_file(xv[k as int]));
            vstd::seq_lib::lemma_concat_associative(
                pre,
                seq![COMMA] + ser_file(xv[k as int]),
                ser_files_tail(xv.skip(k + 1)),
            );
            vstd::seq_lib::lemma_concat_associative(
                seq![COMMA],
                ser_file(xv[k as int]),
                ser_files_tail(xv.skip(k + 1)),
            );
        }
        k = k + 1;
    }
    push_byte(out, CLOSE_BRACKET);
    proof {
        assert(xv.skip(n as int) =~= Seq::<FileView>::empty());
        assert(ser_files_tail(xv.skip(n as int)) == seq![CLOSE_BRACKET]);
    }
}

/// Append the serialized form of one entry.
#[verifier::rlimit(100)]
#[verifier::spinoff_prover]
fn serialize_entry(out: &mut Vec<u8>, e: &PasswordEntry)
    ensures
        final(out)@ == old(out)@ + ser_entry(e@),
{
    let ghost base = out@;
    push_byte(out, OPEN_BRACE);
    push_lit(out, "\"id\":");
    push_str_field(out, e.id.as_str());
    push_byte(out, COMMA);
    push_lit(out, "\"title\":");
    push_str_field(out, e.title.as_str());
    push_byte(out, COMMA);
    push_lit(out, "\"name\":");
    push_str_field(out, e.name.as_str());
    push_byte(out, COMMA);
    push_lit(out, "\"value\":");
    push_str_field(out, e.value.as_str());
    push_byte(out, COMMA);
    push_lit(out, "\"url\":");
    push_str_field(out, e.url.as_str());
    push_byte(out, COMMA);
    push_lit(out, "\"comment\":");
    push_str_field(out, e.comment.as_str());
    push_byte(out, COMMA);
    push_lit(out, "\"entry_type\":");
    serialize_etype(out, &e.entry_type);
    push_byte(out, COMMA);
    push_lit(out, "\"last_modified\":");
    push_str_field(out, e.last_modified.as_str());
    push_byte(out, COMMA);
    push_lit(out, "\"files\":");
    serialize_files(out, &e.files);
    push_byte(out, CLOSE_BRACE);
    proof {
        reveal(ser_entry);
        lemma_append28(
            base,
            seq![OPEN_BRACE],
        kb("\"id\":"@),
        ser_str(e@.id),
        seq![COMMA],
        kb("\"title\":"@),
        ser_str(e@.title),
        seq![COMMA],
        kb("\"name\":"@),
        ser_str(e@.name),
        seq![COMMA],
        kb("\"value\":"@),
        ser_str(e@.value),
        seq![COMMA],
        kb("\"url\":"@),
        ser_str(e@.url),
        seq![COMMA],
        kb("\"comment\":"@),
        ser_str(e@.comment),
        seq![COMMA],
        kb("\"entry_type\":"@),
        ser_etype(e@.entry_type),
        seq![COMMA],
        kb("\"last_modified\":"@),
        ser_str(e@.last_modified),
        seq![COMMA],
        kb("\"files\":"@),
        ser_files(e@.files),
        seq![CLOSE_BRACE],
        );
    }
}

/// Append the serialized form of a PasswordEntry list.
#[verifier::rlimit(100)]
fn serialize_entries(out: &mut Vec<u8>, xs: &Vec<PasswordEntry>)
    ensures
        final(out)@ == old(out)@ + ser_entries(entries_view(xs@)),
{
    let ghost base = out@;
    let ghost xv = entries_view(xs@);
    push_byte(out, OPEN_BRACKET);
    let n = xs.len();
    if n == 0 {
        push_byte(out, CLOSE_BRACKET);
        proof {
            assert(xv.len() == 0);
            assert(base + seq![OPEN_BRACKET] + seq![CLOSE_BRACKET] =~= base + ser_entries(xv));
        }
        return ;
    }
    serialize_entry(out, &xs[0]);
    proof {
        assert(xv.first() == xs@[0]@);
        assert(xv.skip(1) =~= xv.drop_first());
        assert(ser_entries(xv) == seq![OPEN_BRACKET] + ser_entry(xv.first()) + ser_entries_tail(xv.drop_first()));
        vstd::seq_lib::lemma_concat_associative(base, seq![OPEN_BRACKET], ser_entry(xv.first()));
        vstd::seq_lib::lemma_concat_associative(
            base,
            seq![OPEN_BRACKET] + ser_entry(xv.first()),
            ser_entries_tail(xv.skip(1)),
        );
        vstd::seq_lib::lemma_concat_associative(
            seq![OPEN_BRACKET],
            ser_entry(xv.first()),
            ser_entries_tail(xv.skip(1)),
        );
    }
    let mut k: usize = 1;
    while k < n
        invariant
            1 <= k <= n,
            n == xs@.len(),
            xv == entries_view(xs@),
            xv.len() == n,
            out@ + ser_entries_tail(xv.skip(k as int)) == base + ser_entries(xv),
        decreases n - k,
    {
        let ghost pre = out@;
        push_byte(out, COMMA);
        serialize_entry(out, &xs[k]);
        proof {
            assert(xv.skip(k as int).first() == xv[k as int]);
            assert(xv[k as int] == xs@[k as int]@);
            assert(xv.skip(k as int).drop_first() =~= xv.skip(k + 1));
            assert(ser_entries_tail(xv.skip(k as int)) == seq![COMMA] + ser_entry(xv[k as int]) + ser_entries_tail(
                xv.skip(k + 1),
            ));
            vstd::seq_lib::lemma_concat_associative(pre, seq![COMMA], ser_entry(xv[k as int]));
            vstd::seq_lib::lemma_concat_associative(
                pre,
                seq![COMMA] + ser_entry(xv[k as int]),
                ser_entries_tail(xv.skip(k + 1)),
            );
            vstd::seq_lib::lemma_concat_associative(
                seq![COMMA],
                ser_entry(xv[k as int]),
                ser_entries_tail(xv.skip(k + 1)),
            );
        }
        k = k + 1;
    }
    push_byte(out, CLOSE_BRACKET);
    proof {
        assert(xv.skip(n as int) =~= Seq::<EntryView>::empty());
        assert(ser_entries_tail(xv.skip(n as int)) == seq![CLOSE_BRACKET]);
    }
}

/// Serialize the whole store into its canonical payload.  The passphrase
/// is not written.
#[verifier::rlimit(100)]
pub fn serialize_store(db: &DatabaseFile) -> (out: Vec<u8>)
    ensures
        out@ == ser_body(db@),
{
    let mut out: Vec<u8> = Vec::new();
    let ghost base = out@;
    push_byte(&mut out, OPEN_BRACE);
    push_lit(&mut out, "\"entries\":");
    serialize_entries(&mut out, &db.entries);
    push_byte(&mut out, COMMA);
    push_lit(&mut out, "\"config\":");
    push_byte(&mut out, OPEN_BRACE);
    push_lit(&mut out, "\"comment\":");
    push_str_field(&mut out, db.config.comment.as_str());
    push_byte(&mut out, COMMA);
    push_lit(&mut out, "\"author\":");
    push_str_field(&mut out, db.config.author.as_str());
    push_byte(&mut out, CLOSE_BRACE);
    push_byte(&mut out, COMMA);
    push_lit(&mut out, "\"last_access\":");
    push_str_field(&mut out, db.last_access.as_str());
    push_byte(&mut out, CLOSE_BRACE);
    proof {
        reveal(ser_body);
        lemma_append16(
            base,
            seq![OPEN_BRACE],
            kb("\"entries\":"@),
            ser_entries(db@.entries),
            seq![COMMA],
            kb("\"config\":"@),
            seq![OPEN_BRACE],
            kb("\"comment\":"@),
            ser_str(db@.config.comment),
            seq![COMMA],
            kb("\"author\":"@),
            ser_str(db@.config.author),
            seq![CLOSE_BRACE],
            seq![COMMA],
            kb("\"last_access\":"@),
            ser_str(db@.last_access),
            seq![CLOSE_BRACE],
        );
        assert(base + ser_body(db@) =~= ser_body(db@));
    }
    out
}

} // verus!
