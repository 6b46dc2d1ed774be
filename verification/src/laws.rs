//! Format-level laws of the decoder, each proved against the model in
//! [`crate::model`].  Because [`crate::vm::from_bytecode`] is proved to
//! agree with [`sp_chunk`] exactly, each law transfers to the executable
//! decoder as well.

use crate::error::{ErrorKind, HeaderField};
use crate::model::{be_value, sp_chunk, sp_string, uint_of, ChunkModel};
use vstd::prelude::*;

verus! {

/// Every buffer shorter than the 12-byte header fails with `TooShort`.
pub proof fn lemma_short_buffer_too_short(s: Seq<u8>)
    requires
        s.len() < 12,
    ensures
        sp_chunk(s) == Err::<ChunkModel, ErrorKind>(ErrorKind::TooShort),
{
}

/// The big-endian value of four bytes is their base-256 polynomial.
proof fn lemma_be4_poly(b: Seq<u8>)
    requires
        b.len() == 4,
    ensures
        be_value(b) == ((b[0] as nat * 256 + b[1] as nat) * 256 + b[2] as nat) * 256
            + b[3] as nat,
{
    reveal_with_fuel(be_value, 5);
    assert(b.drop_last().drop_last().drop_last().drop_last().len() == 0);
}

/// Four bounded base-256 digits determine their polynomial value, so a
/// buffer opens with the signature value exactly when its first four
/// bytes are `1B 4C 75 61`.
pub proof fn lemma_signature_bytes(s: Seq<u8>)
    requires
        s.len() >= 4,
    ensures
        be_value(s.subrange(0, 4)) == 0x1B4C7561 <==> (s[0] == 0x1b && s[1] == 0x4c && s[2]
            == 0x75 && s[3] == 0x61),
{
    let b = s.subrange(0, 4);
    lemma_be4_poly(b);
}

/// A buffer of at least 12 bytes beginning with any four bytes other
/// than `1B 4C 75 61` fails with `InvalidHeader` naming the signature,
/// whatever the later bytes hold.
pub proof fn lemma_bad_signature(s: Seq<u8>)
    requires
        s.len() >= 12,
        !(s[0] == 0x1b && s[1] == 0x4c && s[2] == 0x75 && s[3] == 0x61),
    ensures
        sp_chunk(s) == Err::<ChunkModel, ErrorKind>(
            ErrorKind::InvalidHeader(HeaderField::Signature),
        ),
{
    lemma_signature_bytes(s);
}

/// A buffer with the correct signature but a version byte other than
/// `0x51` fails with `InvalidHeader` naming the version, regardless of
/// all subsequent bytes.
pub proof fn lemma_bad_version(s: Seq<u8>)
    requires
        s.len() >= 12,
        s[0] == 0x1b,
        s[1] == 0x4c,
        s[2] == 0x75,
        s[3] == 0x61,
        s[4] != 0x51,
    ensures
        sp_chunk(s) == Err::<ChunkModel, ErrorKind>(
            ErrorKind::InvalidHeader(HeaderField::Version),
        ),
{
    lemma_signature_bytes(s);
}

/// A string field whose length prefix is zero decodes to "absent",
/// not to an empty string.
pub proof fn lemma_zero_prefix_absent(s: Seq<u8>, pos: int, size_w: nat, little: bool)
    requires
        0 <= pos,
        pos + size_w <= s.len(),
        uint_of(s.subrange(pos, pos + size_w), little) == 0,
    ensures
        sp_string(s, pos, size_w, little) == Ok::<(Option<Seq<char>>, int), ErrorKind>(
            (None, pos + size_w),
        ),
{
}

/// A little-endian value equals the big-endian value of the reversed
/// bytes: supplying the same integer in the two byte orders under the
/// matching endianness flags decodes to the same value.
pub proof fn lemma_endianness_symmetry(s: Seq<u8>)
    ensures
        uint_of(s, true) == uint_of(s.reverse(), false),
    decreases s.len(),
{
    if s.len() == 0 {
        assert(s.reverse().len() == 0);
    } else {
        lemma_endianness_symmetry(s.drop_first());
        assert(s.reverse().last() == s[0]);
        assert(s.reverse().drop_last() =~= s.drop_first().reverse());
    }
}

} // verus!
