//! The mathematical model of the chunk format.
//!
//! Everything here is specification-level: pure functions over `Seq<u8>`
//! that say, byte for byte, what each part of a chunk means.  The
//! executable decoder in [`crate::vm`] is proved to agree with these
//! functions exactly, and [`crate::laws`] proves the format-level laws
//! over them.

use crate::error::{ErrorKind, HeaderField};
use vstd::prelude::*;

verus! {

/// The value of `s` read as a little-endian unsigned integer:
/// byte 0 is the least significant.
pub open spec fn le_value(s: Seq<u8>) -> nat
    decreases s.len(),
{
    if s.len() == 0 {
        0
    } else {
        s[0] as nat + 256 * le_value(s.drop_first())
    }
}

/// The value of `s` read as a big-endian unsigned integer:
/// the last byte is the least significant.
pub open spec fn be_value(s: Seq<u8>) -> nat
    decreases s.len(),
{
    if s.len() == 0 {
        0
    } else {
        256 * be_value(s.drop_last()) + s.last() as nat
    }
}

/// 256 to the power `n`: the number of values a run of `n` bytes can take.
pub open spec fn pow256(n: nat) -> nat
    decreases n,
{
    if n == 0 {
        1
    } else {
        256 * pow256((n - 1) as nat)
    }
}

/// The value of `s` under the given byte order, zero-extended.
pub open spec fn uint_of(s: Seq<u8>, little: bool) -> nat {
    if little {
        le_value(s)
    } else {
        be_value(s)
    }
}

/// The value of `s` under the given byte order, sign-extended
/// (two's complement: values with the top bit of the most significant
/// byte set are negative).
pub open spec fn sint_of(s: Seq<u8>, little: bool) -> int {
    let u = uint_of(s, little);
    if 2 * u < pow256(s.len()) {
        u as int
    } else {
        u - pow256(s.len())
    }
}

/// A little-endian value is bounded by the count of its bytes.
pub proof fn lemma_le_value_bound(s: Seq<u8>)
    ensures
        le_value(s) < pow256(s.len()),
    decreases s.len(),
{
    if s.len() > 0 {
        lemma_le_value_bound(s.drop_first());
    }
}

/// A big-endian value is bounded by the count of its bytes.
pub proof fn lemma_be_value_bound(s: Seq<u8>)
    ensures
        be_value(s) < pow256(s.len()),
    decreases s.len(),
{
    if s.len() > 0 {
        lemma_be_value_bound(s.drop_last());
    }
}

/// Either byte order's value is bounded by the count of the bytes.
pub proof fn lemma_uint_of_bound(s: Seq<u8>, little: bool)
    ensures
        uint_of(s, little) < pow256(s.len()),
{
    lemma_le_value_bound(s);
    lemma_be_value_bound(s);
}

/// `pow256` is monotone in the exponent.
pub proof fn lemma_pow256_monotone(a: nat, b: nat)
    requires
        a <= b,
    ensures
        pow256(a) <= pow256(b),
    decreases b,
{
    if a < b {
        lemma_pow256_monotone(a, (b - 1) as nat);
    }
}

/// What `String::from_utf8` decides: `Some` of the character sequence when
/// `bytes` is valid UTF-8, `None` otherwise.  The result depends on the
/// bytes alone; it is given this name rather than spelled out.
pub uninterp spec fn utf8_decode(bytes: Seq<u8>) -> Option<Seq<char>>;

/// The machine parameters the header declares, as the model carries them.
pub struct Cfg {
    /// Whether multi-byte fields are little-endian.
    pub little: bool,
    /// Width of integer fields, in bytes (at most 16).
    pub int_w: nat,
    /// Width of `size_t`-class fields, in bytes (at most 8).
    pub size_w: nat,
    /// Width of number constants, in bytes.
    pub num_w: nat,
}

impl Cfg {
    /// The width bounds the header validation enforces.
    pub open spec fn wf(self) -> bool {
        self.int_w <= 16 && self.size_w <= 8
    }
}

/// The error for a read of `requested` bytes when only `available` remain.
pub open spec fn eof(requested: int, available: int) -> ErrorKind {
    ErrorKind::UnexpectedEof { requested: requested as u64, available: available as u64 }
}

/// Reading `n` raw bytes at `pos`: the bytes and the new position, or
/// `UnexpectedEof` when fewer than `n` remain.
pub open spec fn sp_read(s: Seq<u8>, pos: int, n: int) -> Result<(Seq<u8>, int), ErrorKind> {
    if pos + n <= s.len() {
        Ok((s.subrange(pos, pos + n), pos + n))
    } else {
        Err(eof(n, s.len() - pos))
    }
}

/// Reading the fixed big-endian 32-bit signature field.
pub open spec fn sp_u32(s: Seq<u8>, pos: int) -> Result<(u32, int), ErrorKind> {
    match sp_read(s, pos, 4) {
        Ok((b, p)) => Ok((be_value(b) as u32, p)),
        Err(e) => Err(e),
    }
}

/// Reading one `size_t`-class field: `w` bytes, zero-extended under the
/// given byte order.
pub open spec fn sp_uint(s: Seq<u8>, pos: int, w: nat, little: bool) -> Result<
    (u64, int),
    ErrorKind,
> {
    match sp_read(s, pos, w as int) {
        Ok((b, p)) => Ok((uint_of(b, little) as u64, p)),
        Err(e) => Err(e),
    }
}

/// Reading one integer field: `w` bytes, sign-extended under the given
/// byte order.
pub open spec fn sp_sint(s: Seq<u8>, pos: int, w: nat, little: bool) -> Result<
    (i128, int),
    ErrorKind,
> {
    match sp_read(s, pos, w as int) {
        Ok((b, p)) => Ok((sint_of(b, little) as i128, p)),
        Err(e) => Err(e),
    }
}

/// Reading one length-prefixed string, with a `size_w`-byte prefix.
///
/// A prefix of `0` means the string is absent.  Otherwise the prefix
/// counts the text bytes plus one trailing NUL terminator: the run of
/// `prefix` bytes is consumed whole, its first `prefix - 1` bytes are the
/// text, and the terminator is dropped.  Text that is not valid UTF-8 is
/// `InvalidString`; the declared run is consumed either way.
pub open spec fn sp_string(s: Seq<u8>, pos: int, size_w: nat, little: bool) -> Result<
    (Option<Seq<char>>, int),
    ErrorKind,
> {
    match sp_read(s, pos, size_w as int) {
        Err(e) => Err(e),
        Ok((pre, p1)) => {
            let n = uint_of(pre, little) as int;
            if n == 0 {
                Ok((None, p1))
            } else if p1 + n <= s.len() {
                match utf8_decode(s.subrange(p1, p1 + n - 1)) {
                    Some(t) => Ok((Some(t), p1 + n)),
                    None => Err(ErrorKind::InvalidString),
                }
            } else {
                Err(eof(n, s.len() - p1))
            }
        },
    }
}

/// One constant of a prototype, as the model carries it.
///
/// Number constants keep their raw byte run: their interpretation (the
/// header's number width and integral flag describe it) is the execution
/// engine's concern, and the run is preserved byte-exact.
pub enum ConstModel {
    /// The nil constant.
    Nil,
    /// A boolean constant; any nonzero byte reads as `true`.
    Bool(bool),
    /// A number constant: its raw bytes, in stream order.
    Num(Seq<u8>),
    /// A string constant; `None` when the length prefix was zero.
    Str(Option<Seq<char>>),
}

/// One local-variable descriptor from the debug section.
pub struct LocalModel {
    /// The variable's name; `None` when the length prefix was zero.
    pub name: Option<Seq<char>>,
    /// First instruction index where the variable is live.
    pub start_pc: i128,
    /// Last instruction index where the variable is live.
    pub end_pc: i128,
}

/// One function prototype, as the model carries it.
pub struct ProtoModel {
    /// The source file name; `None` when the length prefix was zero.
    pub source_name: Option<Seq<char>>,
    /// First source line of the function.
    pub line_defined: i128,
    /// Last source line of the function.
    pub last_line_defined: i128,
    /// Count of captured upvalues.
    pub num_upvalues: u8,
    /// Count of parameters.
    pub num_params: u8,
    /// Vararg bit-flag.
    pub is_vararg: u8,
    /// Registers the function needs.
    pub max_stack: u8,
    /// The instruction words, each 4 bytes under the declared endianness.
    pub instructions: Seq<u32>,
    /// The constant table.
    pub constants: Seq<ConstModel>,
    /// The nested prototypes, each fully decoded.
    pub protos: Seq<ProtoModel>,
    /// Debug: the line of each instruction.
    pub source_lines: Seq<i128>,
    /// Debug: the local-variable descriptors.
    pub locals: Seq<LocalModel>,
    /// Debug: the upvalue names.
    pub upvalue_names: Seq<Option<Seq<char>>>,
}

/// A whole decoded chunk: the validated header and the root prototype.
pub struct ChunkModel {
    /// The validated header.
    pub header: crate::vm::Header,
    /// The top-level prototype.
    pub root: ProtoModel,
}

/// Reading one 4-byte instruction word under the given byte order.
pub open spec fn sp_instr(s: Seq<u8>, pos: int, little: bool) -> Result<(u32, int), ErrorKind> {
    match sp_read(s, pos, 4) {
        Ok((b, p)) => Ok((uint_of(b, little) as u32, p)),
        Err(e) => Err(e),
    }
}

/// Reading `n` instruction words in sequence.
pub open spec fn sp_instrs(s: Seq<u8>, pos: int, little: bool, n: nat) -> Result<
    (Seq<u32>, int),
    ErrorKind,
>
    decreases n,
{
    if n == 0 {
        Ok((Seq::empty(), pos))
    } else {
        match sp_instr(s, pos, little) {
            Err(e) => Err(e),
            Ok((w, p)) => match sp_instrs(s, p, little, (n - 1) as nat) {
                Err(e) => Err(e),
                Ok((ws, p2)) => Ok((seq![w] + ws, p2)),
            },
        }
    }
}

/// Reading one tagged constant.
///
/// The tag byte selects the payload: `0` nil, `1` a one-byte boolean
/// (nonzero reads as `true`), `3` a number of `num_w` raw bytes, `4` a
/// length-prefixed string.  Any other tag is `InvalidConstant`.
pub open spec fn sp_const(s: Seq<u8>, pos: int, cfg: Cfg) -> Result<(ConstModel, int), ErrorKind> {
    match sp_read(s, pos, 1) {
        Err(e) => Err(e),
        Ok((t, p)) => {
            let tag = t[0];
            if tag == 0 {
                Ok((ConstModel::Nil, p))
            } else if tag == 1 {
                match sp_read(s, p, 1) {
                    Err(e) => Err(e),
                    Ok((b, p2)) => Ok((ConstModel::Bool(b[0] != 0), p2)),
                }
            } else if tag == 3 {
                match sp_read(s, p, cfg.num_w as int) {
                    Err(e) => Err(e),
                    Ok((b, p2)) => Ok((ConstModel::Num(b), p2)),
                }
            } else if tag == 4 {
                match sp_string(s, p, cfg.size_w, cfg.little) {
                    Err(e) => Err(e),
                    Ok((os, p2)) => Ok((ConstModel::Str(os), p2)),
                }
            } else {
                Err(ErrorKind::InvalidConstant(tag))
            }
        },
    }
}

/// Reading `n` tagged constants in sequence.
pub open spec fn sp_consts(s: Seq<u8>, pos: int, cfg: Cfg, n: nat) -> Result<
    (Seq<ConstModel>, int),
    ErrorKind,
>
    decreases n,
{
    if n == 0 {
        Ok((Seq::empty(), pos))
    } else {
        match sp_const(s, pos, cfg) {
            Err(e) => Err(e),
            Ok((c, p)) => match sp_consts(s, p, cfg, (n - 1) as nat) {
                Err(e) => Err(e),
                Ok((cs, p2)) => Ok((seq![c] + cs, p2)),
            },
        }
    }
}

/// Reading `n` line numbers (the debug line table) in sequence.
pub open spec fn sp_lines(s: Seq<u8>, pos: int, int_w: nat, little: bool, n: nat) -> Result<
    (Seq<i128>, int),
    ErrorKind,
>
    decreases n,
{
    if n == 0 {
        Ok((Seq::empty(), pos))
    } else {
        match sp_sint(s, pos, int_w, little) {
            Err(e) => Err(e),
            Ok((v, p)) => match sp_lines(s, p, int_w, little, (n - 1) as nat) {
                Err(e) => Err(e),
                Ok((vs, p2)) => Ok((seq![v] + vs, p2)),
            },
        }
    }
}

/// Reading one local-variable descriptor: a name then the live range.
pub open spec fn sp_local(s: Seq<u8>, pos: int, size_w: nat, int_w: nat, little: bool) -> Result<
    (LocalModel, int),
    ErrorKind,
> {
    match sp_string(s, pos, size_w, little) {
        Err(e) => Err(e),
        Ok((name, p1)) => match sp_sint(s, p1, int_w, little) {
            Err(e) => Err(e),
            Ok((start_pc, p2)) => match sp_sint(s, p2, int_w, little) {
                Err(e) => Err(e),
                Ok((end_pc, p3)) => Ok((LocalModel { name, start_pc, end_pc }, p3)),
            },
        },
    }
}

/// Reading `n` local-variable descriptors in sequence.
pub open spec fn sp_locals(s: Seq<u8>, pos: int, size_w: nat, int_w: nat, little: bool, n: nat) -> Result<
    (Seq<LocalModel>, int),
    ErrorKind,
>
    decreases n,
{
    if n == 0 {
        Ok((Seq::empty(), pos))
    } else {
        match sp_local(s, pos, size_w, int_w, little) {
            Err(e) => Err(e),
            Ok((l, p)) => match sp_locals(s, p, size_w, int_w, little, (n - 1) as nat) {
                Err(e) => Err(e),
                Ok((ls, p2)) => Ok((seq![l] + ls, p2)),
            },
        }
    }
}

/// Reading `n` upvalue names in sequence.
pub open spec fn sp_upvals(s: Seq<u8>, pos: int, size_w: nat, little: bool, n: nat) -> Result<
    (Seq<Option<Seq<char>>>, int),
    ErrorKind,
>
    decreases n,
{
    if n == 0 {
        Ok((Seq::empty(), pos))
    } else {
        match sp_string(s, pos, size_w, little) {
            Err(e) => Err(e),
            Ok((name, p)) => match sp_upvals(s, p, size_w, little, (n - 1) as nat) {
                Err(e) => Err(e),
                Ok((ns, p2)) => Ok((seq![name] + ns, p2)),
            },
        }
    }
}

/// Reading one function prototype, recursively.
///
/// The fields come in the stream order of the format: source name, the
/// two line numbers, four single-byte counts and flags, then the
/// count-prefixed instruction, constant, nested-prototype, debug-line,
/// local and upvalue-name sequences.  `depth` is the defensive bound on
/// prototype nesting: reading a nested prototype when it is exhausted is
/// `NestingTooDeep`.
pub open spec fn sp_proto(s: Seq<u8>, pos: int, cfg: Cfg, depth: nat) -> Result<
    (ProtoModel, int),
    ErrorKind,
>
    decreases depth, 2nat, 0nat,
{
    match sp_string(s, pos, cfg.size_w, cfg.little) {
        Err(e) => Err(e),
        Ok((source_name, p1)) => match sp_sint(s, p1, cfg.int_w, cfg.little) {
            Err(e) => Err(e),
            Ok((line_defined, p2)) => match sp_sint(s, p2, cfg.int_w, cfg.little) {
                Err(e) => Err(e),
                Ok((last_line_defined, p3)) => match sp_read(s, p3, 4) {
                    Err(e) => Err(e),
                    Ok((fb, p4)) => match sp_uint(s, p4, cfg.size_w, cfg.little) {
                        Err(e) => Err(e),
                        Ok((ninstr, p5)) => match sp_instrs(s, p5, cfg.little, ninstr as nat) {
                            Err(e) => Err(e),
                            Ok((instructions, p6)) => match sp_uint(s, p6, cfg.size_w, cfg.little) {
                                Err(e) => Err(e),
                                Ok((nconst, p7)) => match sp_consts(s, p7, cfg, nconst as nat) {
                                    Err(e) => Err(e),
                                    Ok((constants, p8)) => match sp_uint(
                                        s,
                                        p8,
                                        cfg.size_w,
                                        cfg.little,
                                    ) {
                                        Err(e) => Err(e),
                                        Ok((nproto, p9)) => sp_proto_tail(
                                            s,
                                            cfg,
                                            depth,
                                            ProtoModel {
                                                source_name,
                                                line_defined,
                                                last_line_defined,
                                                num_upvalues: fb[0],
                                                num_params: fb[1],
                                                is_vararg: fb[2],
                                                max_stack: fb[3],
                                                instructions,
                                                constants,
                                                protos: Seq::empty(),
                                                source_lines: Seq::empty(),
                                                locals: Seq::empty(),
                                                upvalue_names: Seq::empty(),
                                            },
                                            nproto,
                                            p9,
                                        ),
                                    },
                                },
                            },
                        },
                    },
                },
            },
        },
    }
}

/// The tail of [`sp_proto`]: the nested prototypes and the debug section,
/// folded into the partial model built so far.
pub open spec fn sp_proto_tail(
    s: Seq<u8>,
    cfg: Cfg,
    depth: nat,
    partial: ProtoModel,
    nproto: u64,
    p9: int,
) -> Result<(ProtoModel, int), ErrorKind>
    decreases depth, 1nat, 0nat,
{
    let protos_res = if nproto == 0 {
        Ok((Seq::<ProtoModel>::empty(), p9))
    } else if depth == 0 {
        Err(ErrorKind::NestingTooDeep)
    } else {
        sp_protos(s, p9, cfg, nproto as nat, (depth - 1) as nat)
    };
    match protos_res {
        Err(e) => Err(e),
        Ok((protos, p10)) => match sp_uint(s, p10, cfg.size_w, cfg.little) {
            Err(e) => Err(e),
            Ok((nline, p11)) => match sp_lines(s, p11, cfg.int_w, cfg.little, nline as nat) {
                Err(e) => Err(e),
                Ok((source_lines, p12)) => match sp_uint(s, p12, cfg.size_w, cfg.little) {
                    Err(e) => Err(e),
                    Ok((nlocal, p13)) => match sp_locals(s, p13, cfg.size_w, cfg.int_w, cfg.little, nlocal as nat) {
                        Err(e) => Err(e),
                        Ok((locals, p14)) => match sp_uint(s, p14, cfg.size_w, cfg.little) {
                            Err(e) => Err(e),
                            Ok((nupval, p15)) => match sp_upvals(s, p15, cfg.size_w, cfg.little, nupval as nat) {
                                Err(e) => Err(e),
                                Ok((upvalue_names, p16)) => Ok(
                                    (
                                        ProtoModel {
                                            protos,
                                            source_lines,
                                            locals,
                                            upvalue_names,
                                            ..partial
                                        },
                                        p16,
                                    ),
                                ),
                            },
                        },
                    },
                },
            },
        },
    }
}

/// Reading `n` nested prototypes in sequence, each at nesting budget `d`.
pub open spec fn sp_protos(s: Seq<u8>, pos: int, cfg: Cfg, n: nat, d: nat) -> Result<
    (Seq<ProtoModel>, int),
    ErrorKind,
>
    decreases d, 3nat, n,
{
    if n == 0 {
        Ok((Seq::empty(), pos))
    } else {
        match sp_proto(s, pos, cfg, d) {
            Err(e) => Err(e),
            Ok((pm, p)) => match sp_protos(s, p, cfg, (n - 1) as nat, d) {
                Err(e) => Err(e),
                Ok((pms, p2)) => Ok((seq![pm] + pms, p2)),
            },
        }
    }
}

/// The limit on prototype nesting: the format itself places no bound, so
/// the decoder imposes one defensively against adversarial input.
pub const MAX_NESTING_DEPTH: u64 = 100;

/// Decoding the fixed 12-byte header.
///
/// A buffer under 12 bytes is `TooShort`; then the signature, version,
/// endianness flag, the two width bytes, the instruction width and the
/// integral flag are each validated in stream order, and the first
/// failure names its field.
pub open spec fn sp_header(s: Seq<u8>) -> Result<crate::vm::Header, ErrorKind> {
    if s.len() < 12 {
        Err(ErrorKind::TooShort)
    } else if be_value(s.subrange(0, 4)) != 0x1B4C7561 {
        Err(ErrorKind::InvalidHeader(HeaderField::Signature))
    } else if s[4] != 0x51 {
        Err(ErrorKind::InvalidHeader(HeaderField::Version))
    } else if s[6] > 1 {
        Err(ErrorKind::InvalidHeader(HeaderField::Endianness))
    } else if s[7] > 16 {
        Err(ErrorKind::InvalidHeader(HeaderField::IntSize))
    } else if s[8] > 8 {
        Err(ErrorKind::InvalidHeader(HeaderField::SizeTSize))
    } else if s[9] != 4 {
        Err(ErrorKind::InvalidHeader(HeaderField::InstructionSize))
    } else if s[11] > 1 {
        Err(ErrorKind::InvalidHeader(HeaderField::IntegralFlag))
    } else {
        Ok(crate::vm::Header {
            version: s[4],
            format_version: s[5],
            endianness: s[6],
            int_size: s[7],
            size_t_size: s[8],
            instruction_size: s[9],
            number_size: s[10],
            integral_flag: s[11],
        })
    }
}

/// The machine parameters a validated header declares.
pub open spec fn cfg_of(h: crate::vm::Header) -> Cfg {
    Cfg {
        little: h.endianness == 1,
        int_w: h.int_size as nat,
        size_w: h.size_t_size as nat,
        num_w: h.number_size as nat,
    }
}

/// Decoding a whole chunk: the header, then the root prototype under the
/// machine parameters the header declared.  Trailing bytes after the
/// root prototype are left unread.
pub open spec fn sp_chunk(s: Seq<u8>) -> Result<ChunkModel, ErrorKind> {
    match sp_header(s) {
        Err(e) => Err(e),
        Ok(h) => match sp_proto(s, 12, cfg_of(h), MAX_NESTING_DEPTH as nat) {
            Err(e) => Err(e),
            Ok((root, pos)) => Ok(ChunkModel { header: h, root }),
        },
    }
}

/// The concrete powers of 256 the decoder's width bounds need.

/// The concrete powers of 256 the decoder's width bounds need.
pub proof fn lemma_pow256_values()
    ensures
        pow256(4) == 0x1_0000_0000,
        pow256(8) == 0x1_0000_0000_0000_0000,
        pow256(15) == 0x100_0000_0000_0000_0000_0000_0000_0000,
        pow256(16) == 0x1_0000_0000_0000_0000_0000_0000_0000_0000,
{
    reveal_with_fuel(pow256, 17);
}

} // verus!
