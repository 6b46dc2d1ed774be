//! Building the byte encoding of a minimal chunk, and the proof that
//! decoding such an encoding yields back exactly the values it was built
//! from.
//!
//! The minimal shape is a valid header plus a root prototype with no
//! source name, no instructions, no constants, no nested prototypes and
//! an empty debug section; the integer and `size_t` widths are fixed at
//! 4 bytes, the number width at 8, and the endianness is the caller's
//! choice.

use crate::error::ErrorKind;
use crate::laws::{lemma_endianness_symmetry, lemma_signature_bytes};
use crate::model::{
    cfg_of, le_value, lemma_pow256_values, sint_of, sp_chunk, sp_consts, sp_header, sp_instrs,
    sp_lines, sp_locals, sp_read, sp_sint, sp_string, sp_uint, sp_upvals, uint_of, ChunkModel,
    ProtoModel,
};
use crate::vm::Header;
use vstd::prelude::*;

verus! {

/// The four bytes of `v` in little-endian order.
pub open spec fn le4(v: u32) -> Seq<u8> {
    seq![
        (v % 256) as u8,
        ((v / 256) % 256) as u8,
        ((v / 65536) % 256) as u8,
        ((v / 16777216) % 256) as u8,
    ]
}

/// The four bytes of `v` in the given byte order.
pub open spec fn enc4(v: u32, little: bool) -> Seq<u8> {
    if little {
        le4(v)
    } else {
        le4(v).reverse()
    }
}

/// `n` zero bytes: an absent string, or a count of zero.
pub open spec fn spec_zeros(n: nat) -> Seq<u8> {
    Seq::new(n, |i: int| 0u8)
}

/// The minimal valid header: the signature, version `0x51`, format
/// version `0`, the chosen endianness, 4-byte integers and sizes, 4-byte
/// instructions, 8-byte numbers, and the floating-point integral flag.
pub open spec fn spec_minimal_header(little: bool) -> Seq<u8> {
    seq![
        0x1bu8,
        0x4cu8,
        0x75u8,
        0x61u8,
        0x51u8,
        0u8,
        (if little { 1u8 } else { 0u8 }),
        4u8,
        4u8,
        4u8,
        8u8,
        0u8,
    ]
}

/// The encoding of a minimal chunk: the header, an absent source name,
/// the two line numbers, the four single-byte fields, and six zero
/// counts.
pub open spec fn spec_minimal_chunk(
    little: bool,
    line_defined: u32,
    last_line_defined: u32,
    num_upvalues: u8,
    num_params: u8,
    is_vararg: u8,
    max_stack: u8,
) -> Seq<u8> {
    spec_minimal_header(little) + spec_zeros(4) + enc4(line_defined, little) + enc4(
        last_line_defined,
        little,
    ) + seq![num_upvalues, num_params, is_vararg, max_stack] + spec_zeros(24)
}

/// The little-endian bytes of `v` read back as `v`.
proof fn lemma_le4_value(v: u32)
    ensures
        le_value(le4(v)) == v,
{
    reveal_with_fuel(le_value, 5);
    let b = le4(v);
    assert(b.drop_first() =~= seq![b[1], b[2], b[3]]);
    assert(seq![b[1], b[2], b[3]].drop_first() =~= seq![b[2], b[3]]);
    assert(seq![b[2], b[3]].drop_first() =~= seq![b[3]]);
    assert(seq![b[3]].drop_first() =~= Seq::<u8>::empty());
    assert(v as nat == (v as nat % 256) + 256 * (((v as nat / 256) % 256) + 256 * (((v as nat
        / 65536) % 256) + 256 * ((v as nat / 16777216) % 256)))) by (nonlinear_arith);
}

/// The bytes of `v` in either order read back as `v` under the matching
/// endianness.
proof fn lemma_enc4_value(v: u32, little: bool)
    ensures
        uint_of(enc4(v, little), little) == v,
{
    lemma_le4_value(v);
    if !little {
        lemma_endianness_symmetry(le4(v));
    }
}

/// A run of zero bytes reads back as zero in either byte order.
proof fn lemma_zeros_value(n: nat, little: bool)
    ensures
        uint_of(spec_zeros(n), little) == 0,
    decreases n,
{
    if n > 0 {
        lemma_zeros_value((n - 1) as nat, little);
        assert(spec_zeros(n).drop_first() =~= spec_zeros((n - 1) as nat));
        assert(spec_zeros(n).drop_last() =~= spec_zeros((n - 1) as nat));
    }
}

/// Builds the encoding of a minimal chunk.
///
/// The line numbers are limited to values whose 4-byte encoding is
/// non-negative under sign extension, so that decoding returns them
/// unchanged.
pub fn encode_minimal_chunk(
    little: bool,
    line_defined: u32,
    last_line_defined: u32,
    num_upvalues: u8,
    num_params: u8,
    is_vararg: u8,
    max_stack: u8,
) -> (r: Vec<u8>)
    requires
        line_defined < 0x8000_0000,
        last_line_defined < 0x8000_0000,
    ensures
        r@ == spec_minimal_chunk(
            little,
            line_defined,
            last_line_defined,
            num_upvalues,
            num_params,
            is_vararg,
            max_stack,
        ),
{
    let mut out: Vec<u8> = Vec::new();
    out.push(0x1b);
    out.push(0x4c);
    out.push(0x75);
    out.push(0x61);
    out.push(0x51);
    out.push(0);
    out.push(if little { 1 } else { 0 });
    out.push(4);
    out.push(4);
    out.push(4);
    out.push(8);
    out.push(0);
    proof {
        assert(out@ =~= spec_minimal_header(little));
    }
    push_zeros(&mut out, 4);
    push_word(&mut out, line_defined, little);
    push_word(&mut out, last_line_defined, little);
    let ghost before_flags = out@;
    out.push(num_upvalues);
    out.push(num_params);
    out.push(is_vararg);
    out.push(max_stack);
    proof {
        assert(out@ =~= before_flags + seq![num_upvalues, num_params, is_vararg, max_stack]);
    }
    push_zeros(&mut out, 24);
    out
}

/// Appends `n` zero bytes.
fn push_zeros(out: &mut Vec<u8>, n: usize)
    ensures
        final(out)@ == old(out)@ + spec_zeros(n as nat),
{
    let mut i: usize = 0;
    while i < n
        invariant
            i <= n,
            out@.len() == old(out)@.len() + i,
            out@.subrange(0, old(out)@.len() as int) == old(out)@,
            forall|k: int| old(out)@.len() <= k < out@.len() ==> out@[k] == 0u8,
        decreases n - i,
    {
        out.push(0);
        i += 1;
    }
    proof {
        assert(out@ =~= old(out)@ + spec_zeros(n as nat));
    }
}

/// Appends the four bytes of `v` in the given byte order.
fn push_word(out: &mut Vec<u8>, v: u32, little: bool)
    ensures
        final(out)@ == old(out)@ + enc4(v, little),
{
    let b0 = (v % 256) as u8;
    let b1 = ((v / 256) % 256) as u8;
    let b2 = ((v / 65536) % 256) as u8;
    let b3 = ((v / 16777216) % 256) as u8;
    if little {
        out.push(b0);
        out.push(b1);
        out.push(b2);
        out.push(b3);
        proof {
            assert(out@ =~= old(out)@ + enc4(v, true));
        }
    } else {
        out.push(b3);
        out.push(b2);
        out.push(b1);
        out.push(b0);
        proof {
            assert(le4(v).reverse() =~= seq![b3, b2, b1, b0]);
            assert(out@ =~= old(out)@ + enc4(v, false));
        }
    }
}

/// Round trip: decoding the encoding of a minimal chunk yields exactly
/// the header and prototype fields the encoding was built from.
#[verifier::rlimit(100)]
pub proof fn lemma_minimal_round_trip(
    little: bool,
    line_defined: u32,
    last_line_defined: u32,
    num_upvalues: u8,
    num_params: u8,
    is_vararg: u8,
    max_stack: u8,
)
    requires
        line_defined < 0x8000_0000,
        last_line_defined < 0x8000_0000,
    ensures
        sp_chunk(
            spec_minimal_chunk(
                little,
                line_defined,
                last_line_defined,
                num_upvalues,
                num_params,
                is_vararg,
                max_stack,
            ),
        ) == Ok::<ChunkModel, ErrorKind>(
            ChunkModel {
                header: Header {
                    version: 0x51,
                    format_version: 0,
                    endianness: if little { 1 } else { 0 },
                    int_size: 4,
                    size_t_size: 4,
                    instruction_size: 4,
                    number_size: 8,
                    integral_flag: 0,
                },
                root: ProtoModel {
                    source_name: None,
                    line_defined: line_defined as i128,
                    last_line_defined: last_line_defined as i128,
                    num_upvalues,
                    num_params,
                    is_vararg,
                    max_stack,
                    instructions: Seq::empty(),
                    constants: Seq::empty(),
                    protos: Seq::empty(),
                    source_lines: Seq::empty(),
                    locals: Seq::empty(),
                    upvalue_names: Seq::empty(),
                },
            },
        ),
{
    let s = spec_minimal_chunk(
        little,
        line_defined,
        last_line_defined,
        num_upvalues,
        num_params,
        is_vararg,
        max_stack,
    );
    let h = Header {
        version: 0x51,
        format_version: 0,
        endianness: if little { 1 } else { 0 },
        int_size: 4,
        size_t_size: 4,
        instruction_size: 4,
        number_size: 8,
        integral_flag: 0,
    };
    assert(s.len() == 52);
    assert(s[0] == 0x1b && s[1] == 0x4c && s[2] == 0x75 && s[3] == 0x61);
    lemma_signature_bytes(s);
    assert(s[4] == 0x51 && s[5] == 0 && s[7] == 4 && s[8] == 4 && s[9] == 4 && s[10] == 8 && s[11]
        == 0);
    assert(s[6] == if little { 1u8 } else { 0u8 });
    assert(sp_header(s) == Ok::<Header, ErrorKind>(h));
    let cfg = cfg_of(h);
    assert(cfg.little == little && cfg.int_w == 4 && cfg.size_w == 4 && cfg.num_w == 8);
    lemma_zeros_value(4, little);
    lemma_pow256_values();
    assert(s.subrange(12, 16) =~= spec_zeros(4));
    assert(sp_string(s, 12, 4, little) == Ok::<(Option<Seq<char>>, int), ErrorKind>((None, 16)));
    assert(s.subrange(16, 20) =~= enc4(line_defined, little));
    lemma_enc4_value(line_defined, little);
    assert(sint_of(enc4(line_defined, little), little) == line_defined);
    assert(sp_sint(s, 16, 4, little) == Ok::<(i128, int), ErrorKind>((line_defined as i128, 20)));
    assert(s.subrange(20, 24) =~= enc4(last_line_defined, little));
    lemma_enc4_value(last_line_defined, little);
    assert(sint_of(enc4(last_line_defined, little), little) == last_line_defined);
    assert(sp_sint(s, 20, 4, little) == Ok::<(i128, int), ErrorKind>(
        (last_line_defined as i128, 24),
    ));
    assert(s.subrange(24, 28) =~= seq![num_upvalues, num_params, is_vararg, max_stack]);
    assert(sp_read(s, 24, 4) == Ok::<(Seq<u8>, int), ErrorKind>(
        (seq![num_upvalues, num_params, is_vararg, max_stack], 28),
    ));
    assert(s.subrange(28, 32) =~= spec_zeros(4));
    assert(s.subrange(32, 36) =~= spec_zeros(4));
    assert(s.subrange(36, 40) =~= spec_zeros(4));
    assert(s.subrange(40, 44) =~= spec_zeros(4));
    assert(s.subrange(44, 48) =~= spec_zeros(4));
    assert(s.subrange(48, 52) =~= spec_zeros(4));
    assert(sp_uint(s, 28, 4, little) == Ok::<(u64, int), ErrorKind>((0, 32)));
    assert(sp_instrs(s, 32, little, 0) == Ok::<(Seq<u32>, int), ErrorKind>((Seq::empty(), 32)));
    assert(sp_uint(s, 32, 4, little) == Ok::<(u64, int), ErrorKind>((0, 36)));
    assert(sp_consts(s, 36, cfg, 0) == Ok::<(Seq<crate::model::ConstModel>, int), ErrorKind>(
        (Seq::empty(), 36),
    ));
    assert(sp_uint(s, 36, 4, little) == Ok::<(u64, int), ErrorKind>((0, 40)));
    assert(sp_uint(s, 40, 4, little) == Ok::<(u64, int), ErrorKind>((0, 44)));
    assert(sp_lines(s, 44, 4, little, 0) == Ok::<(Seq<i128>, int), ErrorKind>((Seq::empty(), 44)));
    assert(sp_uint(s, 44, 4, little) == Ok::<(u64, int), ErrorKind>((0, 48)));
    assert(sp_locals(s, 48, 4, 4, little, 0) == Ok::<(Seq<crate::model::LocalModel>, int), ErrorKind>(
        (Seq::empty(), 48),
    ));
    assert(sp_uint(s, 48, 4, little) == Ok::<(u64, int), ErrorKind>((0, 52)));
    assert(sp_upvals(s, 52, 4, little, 0) == Ok::<(Seq<Option<Seq<char>>>, int), ErrorKind>(
        (Seq::empty(), 52),
    ));
}

} // verus!
