//! The executable decoder: a cursor over the chunk bytes and the
//! header / prototype decode routines, each proved to agree with the
//! model in [`crate::model`].

use crate::error::{ErrorKind, HeaderField};
use crate::model::{
    be_value, cfg_of, le_value, lemma_be_value_bound, lemma_le_value_bound,
    lemma_pow256_monotone, lemma_pow256_values, lemma_uint_of_bound, pow256, sp_chunk, sp_const,
    sp_consts, sp_header, sp_instr, sp_instrs, sp_lines, sp_local, sp_locals, sp_proto,
    sp_protos, sp_read, sp_sint, sp_string, sp_u32, sp_uint, sp_upvals, uint_of, utf8_decode,
    Cfg, ChunkModel, ConstModel, LocalModel, ProtoModel, MAX_NESTING_DEPTH,
};
use vstd::prelude::*;

verus! {

/// The validated 12-byte chunk header.
#[derive(Clone, Copy, Debug, PartialEq, Eq, Structural)]
pub struct Header {
    /// The version byte; always `0x51` once validated.
    pub version: u8,
    /// The format-version byte, consumed but not validated.
    pub format_version: u8,
    /// The endianness flag: `0` big, `1` little.
    pub endianness: u8,
    /// Width of integer fields, in bytes (at most 16).
    pub int_size: u8,
    /// Width of `size_t`-class fields, in bytes (at most 8).
    pub size_t_size: u8,
    /// Width of an instruction word; always `4` once validated.
    pub instruction_size: u8,
    /// Width of a number constant, in bytes.
    pub number_size: u8,
    /// The integral-representation flag: `0` floating, `1` integral.
    pub integral_flag: u8,
}

/// One constant of a prototype.
///
/// A number constant keeps its raw byte run: interpreting it is the
/// execution engine's concern, and the run is preserved byte-exact.
#[derive(Debug)]
pub enum Constant {
    /// The nil constant.
    Nil,
    /// A boolean constant.
    Boolean(bool),
    /// A number constant: its raw bytes, in stream order.
    Number(Vec<u8>),
    /// A string constant; `None` when the length prefix was zero.
    Str(Option<String>),
}

/// One local-variable descriptor from a prototype's debug section.
#[derive(Debug)]
pub struct LocalVar {
    /// The variable's name; `None` when the length prefix was zero.
    pub name: Option<String>,
    /// First instruction index where the variable is live.
    pub start_pc: i128,
    /// Last instruction index where the variable is live.
    pub end_pc: i128,
}

/// One compiled function body.
#[derive(Debug)]
pub struct FunctionPrototype {
    /// The source file name; `None` when the length prefix was zero.
    pub source_name: Option<String>,
    /// First source line of the function.
    pub line_defined: i128,
    /// Last source line of the function.
    pub last_line_defined: i128,
    /// Count of captured upvalues.
    pub num_upvalues: u8,
    /// Count of parameters.
    pub num_params: u8,
    /// Vararg bit-flag.
    pub is_vararg: u8,
    /// Registers the function needs.
    pub max_stack: u8,
    /// The instruction words, each 4 bytes under the declared endianness.
    pub instructions: Vec<u32>,
    /// The constant table.
    pub constants: Vec<Constant>,
    /// The nested prototypes, each fully decoded before its parent
    /// continues.
    pub prototypes: Vec<FunctionPrototype>,
    /// Debug: the line of each instruction.
    pub source_lines: Vec<i128>,
    /// Debug: the local-variable descriptors.
    pub locals: Vec<LocalVar>,
    /// Debug: the upvalue names.
    pub upvalue_names: Vec<Option<String>>,
}

/// One fully decoded chunk.
#[derive(Debug)]
pub struct Chunk {
    /// The validated header.
    pub header: Header,
    /// The top-level function prototype.
    pub root_prototype: FunctionPrototype,
}

/// Whether an optional decoded string carries exactly the model's text.
pub open spec fn opt_str_matches(o: Option<String>, m: Option<Seq<char>>) -> bool {
    match (o, m) {
        (None, None) => true,
        (Some(s), Some(t)) => s@ == t,
        _ => false,
    }
}

/// Whether a decoded constant carries exactly the model's value.
pub open spec fn const_matches(c: Constant, m: ConstModel) -> bool {
    match (c, m) {
        (Constant::Nil, ConstModel::Nil) => true,
        (Constant::Boolean(a), ConstModel::Bool(b)) => a == b,
        (Constant::Number(v), ConstModel::Num(s)) => v@ == s,
        (Constant::Str(os), ConstModel::Str(ms)) => opt_str_matches(os, ms),
        _ => false,
    }
}

/// Whether a decoded local-variable descriptor carries exactly the
/// model's fields.
pub open spec fn local_matches(l: LocalVar, m: LocalModel) -> bool {
    &&& opt_str_matches(l.name, m.name)
    &&& l.start_pc == m.start_pc
    &&& l.end_pc == m.end_pc
}

/// Whether a decoded prototype carries exactly the model's fields,
/// recursively through its nested prototypes.
pub open spec fn proto_matches(p: FunctionPrototype, m: ProtoModel) -> bool
    decreases m,
{
    &&& opt_str_matches(p.source_name, m.source_name)
    &&& p.line_defined == m.line_defined
    &&& p.last_line_defined == m.last_line_defined
    &&& p.num_upvalues == m.num_upvalues
    &&& p.num_params == m.num_params
    &&& p.is_vararg == m.is_vararg
    &&& p.max_stack == m.max_stack
    &&& p.instructions@ == m.instructions
    &&& p.constants@.len() == m.constants.len()
    &&& (forall|i: int|
        0 <= i < m.constants.len() ==> const_matches(#[trigger] p.constants@[i], m.constants[i]))
    &&& p.prototypes@.len() == m.protos.len()
    &&& (forall|i: int|
        0 <= i < m.protos.len() ==> proto_matches(#[trigger] p.prototypes@[i], m.protos[i]))
    &&& p.source_lines@ == m.source_lines
    &&& p.locals@.len() == m.locals.len()
    &&& (forall|i: int|
        0 <= i < m.locals.len() ==> local_matches(#[trigger] p.locals@[i], m.locals[i]))
    &&& p.upvalue_names@.len() == m.upvalue_names.len()
    &&& (forall|i: int|
        0 <= i < m.upvalue_names.len() ==> opt_str_matches(
            #[trigger] p.upvalue_names@[i],
            m.upvalue_names[i],
        ))
}

/// Whether a decoded chunk carries exactly the model's fields.
pub open spec fn chunk_matches(c: Chunk, m: ChunkModel) -> bool {
    &&& c.header == m.header
    &&& proto_matches(c.root_prototype, m.root)
}

/// A cursor over the raw chunk bytes.
///
/// Owns the buffer and a read position, together with the machine
/// parameters (integer width, `size_t` width, endianness) that the header
/// declares; all multi-byte reads are interpreted under them.
pub struct BytecodeReader {
    buf: Vec<u8>,
    needle: usize,
    size_t: usize,
    int: usize,
    endianness: u8,
}

impl BytecodeReader {
    /// The bytes the reader was built over.
    pub closed spec fn sbytes(self) -> Seq<u8> {
        self.buf@
    }

    /// The current read position.
    pub closed spec fn pos(self) -> int {
        self.needle as int
    }

    /// The configured width of `size_t`-class fields, in bytes.
    pub closed spec fn size_w(self) -> nat {
        self.size_t as nat
    }

    /// The configured width of integer fields, in bytes.
    pub closed spec fn int_w(self) -> nat {
        self.int as nat
    }

    /// The configured endianness flag: `0` big, `1` little.
    pub closed spec fn endian(self) -> u8 {
        self.endianness
    }

    /// Whether multi-byte reads are little-endian.
    pub open spec fn little(self) -> bool {
        self.endian() == 1
    }

    /// Well-formedness: the position stays inside the buffer and the
    /// configured widths stay inside the format's bounds.
    pub open spec fn wf(self) -> bool {
        &&& 0 <= self.pos() <= self.sbytes().len()
        &&& self.size_w() <= 8
        &&& self.int_w() <= 16
        &&& self.endian() <= 1
    }

    /// The reader's machine parameters as the model carries them,
    /// together with the given number-constant width.
    pub open spec fn cfg(self, num_w: nat) -> Cfg {
        Cfg { little: self.little(), int_w: self.int_w(), size_w: self.size_w(), num_w }
    }

    /// Everything but the position: the buffer and the configured
    /// machine parameters.
    pub open spec fn same_config(self, other: Self) -> bool {
        &&& self.sbytes() == other.sbytes()
        &&& self.size_w() == other.size_w()
        &&& self.int_w() == other.int_w()
        &&& self.endian() == other.endian()
    }

    /// A fresh reader over `buf`, positioned at the start, with the
    /// default machine parameters (4-byte integers and sizes,
    /// little-endian) that hold until the header overrides them.
    pub fn new(buf: Vec<u8>) -> (r: BytecodeReader)
        ensures
            r.sbytes() == buf@,
            r.pos() == 0,
            r.size_w() == 4,
            r.int_w() == 4,
            r.endian() == 1,
            r.wf(),
    {
        BytecodeReader { buf, needle: 0, size_t: 4, int: 4, endianness: 1 }
    }

    /// The current read position, for callers accounting for consumed bytes.
    pub fn position(&self) -> (r: usize)
        ensures
            r == self.pos(),
    {
        self.needle
    }

    /// Registers the width of `size_t`-class fields.
    pub fn set_size_t(&mut self, size_t: usize)
        requires
            old(self).wf(),
            size_t <= 8,
        ensures
            final(self).wf(),
            final(self).sbytes() == old(self).sbytes(),
            final(self).pos() == old(self).pos(),
            final(self).size_w() == size_t,
            final(self).int_w() == old(self).int_w(),
            final(self).endian() == old(self).endian(),
    {
        self.size_t = size_t;
    }

    /// Registers the width of integer fields.
    pub fn set_int(&mut self, size: usize)
        requires
            old(self).wf(),
            size <= 16,
        ensures
            final(self).wf(),
            final(self).sbytes() == old(self).sbytes(),
            final(self).pos() == old(self).pos(),
            final(self).size_w() == old(self).size_w(),
            final(self).int_w() == size,
            final(self).endian() == old(self).endian(),
    {
        self.int = size;
    }

    /// Registers the endianness flag: `0` big, `1` little.
    pub fn set_endian(&mut self, flag: u8)
        requires
            old(self).wf(),
            flag <= 1,
        ensures
            final(self).wf(),
            final(self).sbytes() == old(self).sbytes(),
            final(self).pos() == old(self).pos(),
            final(self).size_w() == old(self).size_w(),
            final(self).int_w() == old(self).int_w(),
            final(self).endian() == flag,
    {
        self.endianness = flag;
    }

    /// Reads the next `size` raw bytes and advances the position past
    /// them; `UnexpectedEof` (reporting the requested and the remaining
    /// counts) when fewer remain, leaving the position unchanged.
    pub fn read(&mut self, size: usize) -> (r: Result<Vec<u8>, ErrorKind>)
        requires
            old(self).wf(),
        ensures
            final(self).wf(),
            old(self).same_config(*final(self)),
            match r {
                Ok(bytes) => sp_read(old(self).sbytes(), old(self).pos(), size as int)
                    == Ok::<_, ErrorKind>((bytes@, final(self).pos())),
                Err(e) => {
                    &&& sp_read(old(self).sbytes(), old(self).pos(), size as int)
                        == Err::<(Seq<u8>, int), ErrorKind>(e)
                    &&& final(self).pos() == old(self).pos()
                },
            },
    {
        let remaining = self.buf.len() - self.needle;
        if remaining < size {
            return Err(ErrorKind::UnexpectedEof {
                requested: size as u64,
                available: remaining as u64,
            });
        }
        let mut out: Vec<u8> = Vec::new();
        let mut i: usize = 0;
        while i < size
            invariant
                i <= size,
                self.needle + size <= self.buf.len(),
                out@.len() == i,
                forall|k: int| 0 <= k < i ==> out@[k] == self.buf@[self.needle + k],
            decreases size - i,
        {
            out.push(self.buf[self.needle + i]);
            i += 1;
        }
        proof {
            assert(out@ =~= self.buf@.subrange(
                self.needle as int,
                self.needle + size,
            ));
        }
        self.needle = self.needle + size;
        Ok(out)
    }

    /// Reads the fixed big-endian 32-bit signature field.
    pub fn read_u32(&mut self) -> (r: Result<u32, ErrorKind>)
        requires
            old(self).wf(),
        ensures
            final(self).wf(),
            old(self).same_config(*final(self)),
            match r {
                Ok(v) => sp_u32(old(self).sbytes(), old(self).pos())
                    == Ok::<_, ErrorKind>((v, final(self).pos())),
                Err(e) => {
                    &&& sp_u32(old(self).sbytes(), old(self).pos())
                        == Err::<(u32, int), ErrorKind>(e)
                    &&& final(self).pos() == old(self).pos()
                },
            },
    {
        let bytes = self.read(4)?;
        let v = uint128_from_bytes(&bytes, false);
        proof {
            lemma_be_value_bound(bytes@);
            lemma_pow256_values();
        }
        Ok(v as u32)
    }

    /// Reads one `size_t`-class field: `size_w` bytes under the configured
    /// endianness, zero-extended.
    pub fn read_size_t(&mut self) -> (r: Result<u64, ErrorKind>)
        requires
            old(self).wf(),
        ensures
            final(self).wf(),
            old(self).same_config(*final(self)),
            match r {
                Ok(v) => sp_uint(old(self).sbytes(), old(self).pos(), old(self).size_w(),
                    old(self).little()) == Ok::<_, ErrorKind>((v, final(self).pos())),
                Err(e) => {
                    &&& sp_uint(old(self).sbytes(), old(self).pos(), old(self).size_w(),
                        old(self).little()) == Err::<(u64, int), ErrorKind>(e)
                    &&& final(self).pos() == old(self).pos()
                },
            },
    {
        let w = self.size_t;
        let little = self.endianness == 1;
        let bytes = self.read(w)?;
        let v = uint128_from_bytes(&bytes, little);
        proof {
            lemma_uint_of_bound(bytes@, little);
            lemma_pow256_monotone(bytes@.len(), 8);
            lemma_pow256_values();
        }
        Ok(v as u64)
    }

    /// Reads one integer field: `int_w` bytes under the configured
    /// endianness, sign-extended.
    pub fn read_int(&mut self) -> (r: Result<i128, ErrorKind>)
        requires
            old(self).wf(),
        ensures
            final(self).wf(),
            old(self).same_config(*final(self)),
            match r {
                Ok(v) => sp_sint(old(self).sbytes(), old(self).pos(), old(self).int_w(),
                    old(self).little()) == Ok::<_, ErrorKind>((v, final(self).pos())),
                Err(e) => {
                    &&& sp_sint(old(self).sbytes(), old(self).pos(), old(self).int_w(),
                        old(self).little()) == Err::<(i128, int), ErrorKind>(e)
                    &&& final(self).pos() == old(self).pos()
                },
            },
    {
        let w = self.int;
        let little = self.endianness == 1;
        let bytes = self.read(w)?;
        proof {
            lemma_uint_of_bound(bytes@, little);
            lemma_pow256_monotone(bytes@.len(), 16);
            lemma_pow256_values();
        }
        let u = uint128_from_bytes(&bytes, little);
        if w == 16 {
            if u >= HALF_U128 {
                let d = u - HALF_U128;
                Ok(i128::MIN + (d as i128))
            } else {
                Ok(u as i128)
            }
        } else {
            proof {
                lemma_pow256_monotone(bytes@.len(), 15);
            }
            let p = pow256_exec(w);
            if 2 * u >= p {
                Ok((u as i128) - (p as i128))
            } else {
                Ok(u as i128)
            }
        }
    }

    /// Reads one length-prefixed string.
    ///
    /// A prefix of `0` means absent (`Ok(None)`, not an empty string).
    /// Otherwise the prefix counts the text plus one trailing NUL
    /// terminator: the whole run is consumed, the text is its first
    /// `prefix - 1` bytes, and non-UTF-8 text is `InvalidString` with the
    /// position nevertheless advanced past the declared run.
    pub fn read_string(&mut self) -> (r: Result<Option<String>, ErrorKind>)
        requires
            old(self).wf(),
        ensures
            final(self).wf(),
            old(self).same_config(*final(self)),
            old(self).pos() <= final(self).pos(),
            match r {
                Ok(os) => sp_string(old(self).sbytes(), old(self).pos(), old(self).size_w(),
                    old(self).little()) == Ok::<_, ErrorKind>(
                    (
                        match os {
                            Some(st) => Some(st@),
                            None => None::<Seq<char>>,
                        },
                        final(self).pos(),
                    ),
                ),
                Err(e) => {
                    &&& sp_string(old(self).sbytes(), old(self).pos(), old(self).size_w(),
                        old(self).little()) == Err::<(Option<Seq<char>>, int), ErrorKind>(e)
                    &&& (e == ErrorKind::InvalidString ==> final(self).pos() == old(self).pos()
                        + old(self).size_w() + uint_of(
                        old(self).sbytes().subrange(
                            old(self).pos(),
                            old(self).pos() + old(self).size_w(),
                        ),
                        old(self).little(),
                    ))
                },
            },
    {
        let n = self.read_size_t()?;
        proof {
            // the prefix value fits in 64 bits, so the u64 is exact

            lemma_uint_of_bound(
                old(self).sbytes().subrange(
                    old(self).pos(),
                    old(self).pos() + old(self).size_w(),
                ),
                old(self).little(),
            );
            lemma_pow256_monotone(old(self).size_w(), 8);
            lemma_pow256_values();
        }
        if n == 0 {
            return Ok(None);
        }
        let rem = (self.buf.len() - self.needle) as u64;
        if n > rem {
            return Err(ErrorKind::UnexpectedEof { requested: n, available: rem });
        }
        let text = self.read((n - 1) as usize)?;
        let _term = self.read(1)?;
        match bytes_to_string(text) {
            Some(s) => Ok(Some(s)),
            None => Err(ErrorKind::invalid_string()),
        }
    }

    /// Reads one 4-byte instruction word under the configured endianness.
    fn read_instruction(&mut self) -> (r: Result<u32, ErrorKind>)
        requires
            old(self).wf(),
        ensures
            final(self).wf(),
            old(self).same_config(*final(self)),
            match r {
                Ok(v) => sp_instr(old(self).sbytes(), old(self).pos(), old(self).little())
                    == Ok::<_, ErrorKind>((v, final(self).pos())),
                Err(e) => {
                    &&& sp_instr(old(self).sbytes(), old(self).pos(), old(self).little())
                        == Err::<(u32, int), ErrorKind>(e)
                    &&& final(self).pos() == old(self).pos()
                },
            },
    {
        let little = self.endianness == 1;
        let bytes = self.read(4)?;
        let v = uint128_from_bytes(&bytes, little);
        proof {
            lemma_uint_of_bound(bytes@, little);
            lemma_pow256_values();
        }
        Ok(v as u32)
    }

    /// Reads one tagged constant; `number_size` is the header-declared
    /// width of a number constant.
    fn read_constant(&mut self, number_size: u8) -> (r: Result<Constant, ErrorKind>)
        requires
            old(self).wf(),
        ensures
            final(self).wf(),
            old(self).same_config(*final(self)),
            old(self).pos() <= final(self).pos(),
            match r {
                Ok(c) => sp_const(old(self).sbytes(), old(self).pos(), old(self).cfg(
                    number_size as nat,
                )) matches Ok(pr) && const_matches(c, pr.0) && final(self).pos() == pr.1,
                Err(e) => sp_const(old(self).sbytes(), old(self).pos(), old(self).cfg(
                    number_size as nat,
                )) == Err::<(ConstModel, int), ErrorKind>(e),
            },
    {
        let tagv = self.read(1)?;
        let tag = tagv[0];
        if tag == 0 {
            Ok(Constant::Nil)
        } else if tag == 1 {
            let b = self.read(1)?;
            Ok(Constant::Boolean(b[0] != 0))
        } else if tag == 3 {
            let b = self.read(number_size as usize)?;
            Ok(Constant::Number(b))
        } else if tag == 4 {
            let s = self.read_string()?;
            Ok(Constant::Str(s))
        } else {
            Err(ErrorKind::InvalidConstant(tag))
        }
    }

    /// Reads one local-variable descriptor: a name then its live range.
    fn read_local(&mut self) -> (r: Result<LocalVar, ErrorKind>)
        requires
            old(self).wf(),
        ensures
            final(self).wf(),
            old(self).same_config(*final(self)),
            old(self).pos() <= final(self).pos(),
            match r {
                Ok(l) => sp_local(old(self).sbytes(), old(self).pos(), old(self).size_w(),
                    old(self).int_w(), old(self).little()) matches Ok(pr) && local_matches(l, pr.0)
                    && final(self).pos() == pr.1,
                Err(e) => sp_local(old(self).sbytes(), old(self).pos(), old(self).size_w(),
                    old(self).int_w(), old(self).little()) == Err::<(LocalModel, int), ErrorKind>(
                    e,
                ),
            },
    {
        let name = self.read_string()?;
        let start_pc = self.read_int()?;
        let end_pc = self.read_int()?;
        Ok(LocalVar { name, start_pc, end_pc })
    }
}

/// Reads `n` instruction words in sequence.
fn read_instr_list(r: &mut BytecodeReader, n: u64) -> (res: Result<Vec<u32>, ErrorKind>)
    requires
        old(r).wf(),
    ensures
        final(r).wf(),
        old(r).same_config(*final(r)),
        old(r).pos() <= final(r).pos(),
        match res {
            Ok(ws) => sp_instrs(old(r).sbytes(), old(r).pos(), old(r).little(), n as nat)
                == Ok::<_, ErrorKind>((ws@, final(r).pos())),
            Err(e) => sp_instrs(old(r).sbytes(), old(r).pos(), old(r).little(), n as nat)
                == Err::<(Seq<u32>, int), ErrorKind>(e),
        },
{
    let ghost s = old(r).sbytes();
    let ghost pos0 = old(r).pos();
    let ghost little = old(r).little();
    let mut out: Vec<u32> = Vec::new();
    let mut i: u64 = 0;
    while i < n
        invariant
            r.wf(),
            old(r).same_config(*r),
            pos0 <= r.pos(),
            s == old(r).sbytes(),
            pos0 == old(r).pos(),
            little == old(r).little(),
            i <= n,
            out@.len() == i,
            sp_instrs(s, pos0, little, n as nat) == (match sp_instrs(
                s,
                r.pos(),
                little,
                (n - i) as nat,
            ) {
                Ok(rp) => Ok::<(Seq<u32>, int), ErrorKind>((out@ + rp.0, rp.1)),
                Err(e) => Err::<(Seq<u32>, int), ErrorKind>(e),
            }),
        decreases n - i,
    {
        let w = match r.read_instruction() {
            Ok(w) => w,
            Err(e) => {
                return Err(e);
            },
        };
        proof {
            let tail = sp_instrs(s, r.pos(), little, ((n - i) - 1) as nat);
            match tail {
                Ok(rp) => {
                    assert(out@ + (seq![w] + rp.0) =~= out@.push(w) + rp.0);
                },
                Err(_) => {},
            }
        }
        out.push(w);
        i += 1;
    }
    proof {
        assert(out@ + Seq::<u32>::empty() =~= out@);
    }
    Ok(out)
}

/// Reads `n` debug line numbers in sequence.
fn read_line_list(r: &mut BytecodeReader, n: u64) -> (res: Result<Vec<i128>, ErrorKind>)
    requires
        old(r).wf(),
    ensures
        final(r).wf(),
        old(r).same_config(*final(r)),
        old(r).pos() <= final(r).pos(),
        match res {
            Ok(vs) => sp_lines(old(r).sbytes(), old(r).pos(), old(r).int_w(), old(r).little(),
                n as nat) == Ok::<_, ErrorKind>((vs@, final(r).pos())),
            Err(e) => sp_lines(old(r).sbytes(), old(r).pos(), old(r).int_w(), old(r).little(),
                n as nat) == Err::<(Seq<i128>, int), ErrorKind>(e),
        },
{
    let ghost s = old(r).sbytes();
    let ghost pos0 = old(r).pos();
    let ghost int_w = old(r).int_w();
    let ghost little = old(r).little();
    let mut out: Vec<i128> = Vec::new();
    let mut i: u64 = 0;
    while i < n
        invariant
            r.wf(),
            old(r).same_config(*r),
            pos0 <= r.pos(),
            s == old(r).sbytes(),
            pos0 == old(r).pos(),
            int_w == old(r).int_w(),
            little == old(r).little(),
            i <= n,
            out@.len() == i,
            sp_lines(s, pos0, int_w, little, n as nat) == (match sp_lines(
                s,
                r.pos(),
                int_w,
                little,
                (n - i) as nat,
            ) {
                Ok(rp) => Ok::<(Seq<i128>, int), ErrorKind>((out@ + rp.0, rp.1)),
                Err(e) => Err::<(Seq<i128>, int), ErrorKind>(e),
            }),
        decreases n - i,
    {
        let v = match r.read_int() {
            Ok(v) => v,
            Err(e) => {
                return Err(e);
            },
        };
        proof {
            let tail = sp_lines(s, r.pos(), int_w, little, ((n - i) - 1) as nat);
            match tail {
                Ok(rp) => {
                    assert(out@ + (seq![v] + rp.0) =~= out@.push(v) + rp.0);
                },
                Err(_) => {},
            }
        }
        out.push(v);
        i += 1;
    }
    proof {
        assert(out@ + Seq::<i128>::empty() =~= out@);
    }
    Ok(out)
}

/// Reads `n` tagged constants in sequence.
fn read_const_list(r: &mut BytecodeReader, number_size: u8, n: u64) -> (res: Result<
    Vec<Constant>,
    ErrorKind,
>)
    requires
        old(r).wf(),
    ensures
        final(r).wf(),
        old(r).same_config(*final(r)),
        old(r).pos() <= final(r).pos(),
        match res {
            Ok(cs) => sp_consts(old(r).sbytes(), old(r).pos(), old(r).cfg(number_size as nat),
                n as nat) matches Ok(pr) && cs@.len() == pr.0.len() && (forall|k: int|
                0 <= k < pr.0.len() ==> const_matches(#[trigger] cs@[k], pr.0[k])) && final(r).pos()
                == pr.1,
            Err(e) => sp_consts(old(r).sbytes(), old(r).pos(), old(r).cfg(number_size as nat),
                n as nat) == Err::<(Seq<ConstModel>, int), ErrorKind>(e),
        },
{
    let ghost s = old(r).sbytes();
    let ghost pos0 = old(r).pos();
    let ghost cfg = old(r).cfg(number_size as nat);
    let mut out: Vec<Constant> = Vec::new();
    let ghost mut ms: Seq<ConstModel> = Seq::empty();
    let mut i: u64 = 0;
    while i < n
        invariant
            r.wf(),
            old(r).same_config(*r),
            pos0 <= r.pos(),
            s == old(r).sbytes(),
            pos0 == old(r).pos(),
            cfg == old(r).cfg(number_size as nat),
            i <= n,
            out@.len() == i,
            ms.len() == i,
            forall|k: int| 0 <= k < i ==> const_matches(#[trigger] out@[k], ms[k]),
            sp_consts(s, pos0, cfg, n as nat) == (match sp_consts(
                s,
                r.pos(),
                cfg,
                (n - i) as nat,
            ) {
                Ok(rp) => Ok::<(Seq<ConstModel>, int), ErrorKind>((ms + rp.0, rp.1)),
                Err(e) => Err::<(Seq<ConstModel>, int), ErrorKind>(e),
            }),
        decreases n - i,
    {
        let ghost prev = r.pos();
        let c = match r.read_constant(number_size) {
            Ok(c) => c,
            Err(e) => {
                return Err(e);
            },
        };
        proof {
            let cm = sp_const(s, prev, cfg)->Ok_0.0;
            let tail = sp_consts(s, r.pos(), cfg, ((n - i) - 1) as nat);
            match tail {
                Ok(rp) => {
                    assert(ms + (seq![cm] + rp.0) =~= ms.push(cm) + rp.0);
                },
                Err(_) => {},
            }
            ms = ms.push(cm);
        }
        out.push(c);
        i += 1;
    }
    proof {
        assert(ms + Seq::<ConstModel>::empty() =~= ms);
    }
    Ok(out)
}

/// Reads `n` local-variable descriptors in sequence.
fn read_local_list(r: &mut BytecodeReader, n: u64) -> (res: Result<Vec<LocalVar>, ErrorKind>)
    requires
        old(r).wf(),
    ensures
        final(r).wf(),
        old(r).same_config(*final(r)),
        old(r).pos() <= final(r).pos(),
        match res {
            Ok(ls) => sp_locals(old(r).sbytes(), old(r).pos(), old(r).size_w(), old(r).int_w(),
                old(r).little(), n as nat) matches Ok(pr) && ls@.len() == pr.0.len() && (forall|
                k: int,
            |
                0 <= k < pr.0.len() ==> local_matches(#[trigger] ls@[k], pr.0[k])) && final(r).pos()
                == pr.1,
            Err(e) => sp_locals(old(r).sbytes(), old(r).pos(), old(r).size_w(), old(r).int_w(),
                old(r).little(), n as nat) == Err::<(Seq<LocalModel>, int), ErrorKind>(e),
        },
{
    let ghost s = old(r).sbytes();
    let ghost pos0 = old(r).pos();
    let ghost size_w = old(r).size_w();
    let ghost int_w = old(r).int_w();
    let ghost little = old(r).little();
    let mut out: Vec<LocalVar> = Vec::new();
    let ghost mut ms: Seq<LocalModel> = Seq::empty();
    let mut i: u64 = 0;
    while i < n
        invariant
            r.wf(),
            old(r).same_config(*r),
            pos0 <= r.pos(),
            s == old(r).sbytes(),
            pos0 == old(r).pos(),
            size_w == old(r).size_w(),
            int_w == old(r).int_w(),
            little == old(r).little(),
            i <= n,
            out@.len() == i,
            ms.len() == i,
            forall|k: int| 0 <= k < i ==> local_matches(#[trigger] out@[k], ms[k]),
            sp_locals(s, pos0, size_w, int_w, little, n as nat) == (match sp_locals(
                s,
                r.pos(),
                size_w,
                int_w,
                little,
                (n - i) as nat,
            ) {
                Ok(rp) => Ok::<(Seq<LocalModel>, int), ErrorKind>((ms + rp.0, rp.1)),
                Err(e) => Err::<(Seq<LocalModel>, int), ErrorKind>(e),
            }),
        decreases n - i,
    {
        let ghost prev = r.pos();
        let l = match r.read_local() {
            Ok(l) => l,
            Err(e) => {
                return Err(e);
            },
        };
        proof {
            let lm = sp_local(s, prev, size_w, int_w, little)->Ok_0.0;
            let tail = sp_locals(s, r.pos(), size_w, int_w, little, ((n - i) - 1) as nat);
            match tail {
                Ok(rp) => {
                    assert(ms + (seq![lm] + rp.0) =~= ms.push(lm) + rp.0);
                },
                Err(_) => {},
            }
            ms = ms.push(lm);
        }
        out.push(l);
        i += 1;
    }
    proof {
        assert(ms + Seq::<LocalModel>::empty() =~= ms);
    }
    Ok(out)
}

/// Reads `n` upvalue names in sequence.
fn read_upval_list(r: &mut BytecodeReader, n: u64) -> (res: Result<
    Vec<Option<String>>,
    ErrorKind,
>)
    requires
        old(r).wf(),
    ensures
        final(r).wf(),
        old(r).same_config(*final(r)),
        old(r).pos() <= final(r).pos(),
        match res {
            Ok(ns) => sp_upvals(old(r).sbytes(), old(r).pos(), old(r).size_w(), old(r).little(),
                n as nat) matches Ok(pr) && ns@.len() == pr.0.len() && (forall|k: int|
                0 <= k < pr.0.len() ==> opt_str_matches(#[trigger] ns@[k], pr.0[k])) && final(r).pos()
                == pr.1,
            Err(e) => sp_upvals(old(r).sbytes(), old(r).pos(), old(r).size_w(), old(r).little(),
                n as nat) == Err::<(Seq<Option<Seq<char>>>, int), ErrorKind>(e),
        },
{
    let ghost s = old(r).sbytes();
    let ghost pos0 = old(r).pos();
    let ghost size_w = old(r).size_w();
    let ghost little = old(r).little();
    let mut out: Vec<Option<String>> = Vec::new();
    let ghost mut ms: Seq<Option<Seq<char>>> = Seq::empty();
    let mut i: u64 = 0;
    while i < n
        invariant
            r.wf(),
            old(r).same_config(*r),
            pos0 <= r.pos(),
            s == old(r).sbytes(),
            pos0 == old(r).pos(),
            size_w == old(r).size_w(),
            little == old(r).little(),
            i <= n,
            out@.len() == i,
            ms.len() == i,
            forall|k: int| 0 <= k < i ==> opt_str_matches(#[trigger] out@[k], ms[k]),
            sp_upvals(s, pos0, size_w, little, n as nat) == (match sp_upvals(
                s,
                r.pos(),
                size_w,
                little,
                (n - i) as nat,
            ) {
                Ok(rp) => Ok::<(Seq<Option<Seq<char>>>, int), ErrorKind>((ms + rp.0, rp.1)),
                Err(e) => Err::<(Seq<Option<Seq<char>>>, int), ErrorKind>(e),
            }),
        decreases n - i,
    {
        let ghost prev = r.pos();
        let name = match r.read_string() {
            Ok(name) => name,
            Err(e) => {
                return Err(e);
            },
        };
        proof {
            let nm = sp_string(s, prev, size_w, little)->Ok_0.0;
            let tail = sp_upvals(s, r.pos(), size_w, little, ((n - i) - 1) as nat);
            match tail {
                Ok(rp) => {
                    assert(ms + (seq![nm] + rp.0) =~= ms.push(nm) + rp.0);
                },
                Err(_) => {},
            }
            ms = ms.push(nm);
        }
        out.push(name);
        i += 1;
    }
    proof {
        assert(ms + Seq::<Option<Seq<char>>>::empty() =~= ms);
    }
    Ok(out)
}

/// Decodes one function prototype from the reader's current position,
/// recursively decoding its nested prototypes.
///
/// `number_size` is the header-declared width of a number constant and
/// `depth` the remaining nesting budget: a nested prototype beyond it is
/// `NestingTooDeep` rather than unbounded recursion.  The result, the
/// error and the final position agree exactly with [`sp_proto`].
#[verifier::rlimit(100)]
pub fn function_block(
    bytecode: &mut BytecodeReader,
    number_size: u8,
    depth: u64,
) -> (r: Result<FunctionPrototype, ErrorKind>)
    requires
        old(bytecode).wf(),
    ensures
        final(bytecode).wf(),
        old(bytecode).same_config(*final(bytecode)),
        old(bytecode).pos() <= final(bytecode).pos(),
        match r {
            Ok(p) => sp_proto(old(bytecode).sbytes(), old(bytecode).pos(), old(bytecode).cfg(
                number_size as nat,
            ), depth as nat) matches Ok(pr) && proto_matches(p, pr.0) && final(bytecode).pos()
                == pr.1,
            Err(e) => sp_proto(old(bytecode).sbytes(), old(bytecode).pos(), old(bytecode).cfg(
                number_size as nat,
            ), depth as nat) == Err::<(ProtoModel, int), ErrorKind>(e),
        },
    decreases depth, 0nat,
{
    let source_name = bytecode.read_string()?;
    let line_defined = bytecode.read_int()?;
    let last_line_defined = bytecode.read_int()?;
    let fb = bytecode.read(4)?;
    let num_upvalues = fb[0];
    let num_params = fb[1];
    let is_vararg = fb[2];
    let max_stack = fb[3];
    let ninstr = bytecode.read_size_t()?;
    let instructions = read_instr_list(bytecode, ninstr)?;
    let nconst = bytecode.read_size_t()?;
    let constants = read_const_list(bytecode, number_size, nconst)?;
    let nproto = bytecode.read_size_t()?;
    if nproto > 0 && depth == 0 {
        return Err(ErrorKind::NestingTooDeep);
    }
    let prototypes = if nproto == 0 {
        Vec::new()
    } else {
        read_proto_list(bytecode, number_size, nproto, depth - 1)?
    };
    let nline = bytecode.read_size_t()?;
    let source_lines = read_line_list(bytecode, nline)?;
    let nlocal = bytecode.read_size_t()?;
    let locals = read_local_list(bytecode, nlocal)?;
    let nupval = bytecode.read_size_t()?;
    let upvalue_names = read_upval_list(bytecode, nupval)?;
    Ok(
        FunctionPrototype {
            source_name,
            line_defined,
            last_line_defined,
            num_upvalues,
            num_params,
            is_vararg,
            max_stack,
            instructions,
            constants,
            prototypes,
            source_lines,
            locals,
            upvalue_names,
        },
    )
}

/// Reads `n` nested prototypes in sequence, each at nesting budget `d`.
fn read_proto_list(r: &mut BytecodeReader, number_size: u8, n: u64, d: u64) -> (res: Result<
    Vec<FunctionPrototype>,
    ErrorKind,
>)
    requires
        old(r).wf(),
    ensures
        final(r).wf(),
        old(r).same_config(*final(r)),
        old(r).pos() <= final(r).pos(),
        match res {
            Ok(ps) => sp_protos(old(r).sbytes(), old(r).pos(), old(r).cfg(number_size as nat),
                n as nat, d as nat) matches Ok(pr) && ps@.len() == pr.0.len() && (forall|k: int|
                0 <= k < pr.0.len() ==> proto_matches(#[trigger] ps@[k], pr.0[k])) && final(r).pos()
                == pr.1,
            Err(e) => sp_protos(old(r).sbytes(), old(r).pos(), old(r).cfg(number_size as nat),
                n as nat, d as nat) == Err::<(Seq<ProtoModel>, int), ErrorKind>(e),
        },
    decreases d, 1nat,
{
    let ghost s = old(r).sbytes();
    let ghost pos0 = old(r).pos();
    let ghost cfg = old(r).cfg(number_size as nat);
    let mut out: Vec<FunctionPrototype> = Vec::new();
    let ghost mut ms: Seq<ProtoModel> = Seq::empty();
    let mut i: u64 = 0;
    while i < n
        invariant
            r.wf(),
            old(r).same_config(*r),
            pos0 <= r.pos(),
            s == old(r).sbytes(),
            pos0 == old(r).pos(),
            cfg == old(r).cfg(number_size as nat),
            i <= n,
            out@.len() == i,
            ms.len() == i,
            forall|k: int| 0 <= k < i ==> proto_matches(#[trigger] out@[k], ms[k]),
            sp_protos(s, pos0, cfg, n as nat, d as nat) == (match sp_protos(
                s,
                r.pos(),
                cfg,
                (n - i) as nat,
                d as nat,
            ) {
                Ok(rp) => Ok::<(Seq<ProtoModel>, int), ErrorKind>((ms + rp.0, rp.1)),
                Err(e) => Err::<(Seq<ProtoModel>, int), ErrorKind>(e),
            }),
        decreases n - i,
    {
        let ghost prev = r.pos();
        let p = match function_block(r, number_size, d) {
            Ok(p) => p,
            Err(e) => {
                return Err(e);
            },
        };
        proof {
            let pm = sp_proto(s, prev, cfg, d as nat)->Ok_0.0;
            let tail = sp_protos(s, r.pos(), cfg, ((n - i) - 1) as nat, d as nat);
            match tail {
                Ok(rp) => {
                    assert(ms + (seq![pm] + rp.0) =~= ms.push(pm) + rp.0);
                },
                Err(_) => {},
            }
            ms = ms.push(pm);
        }
        out.push(p);
        i += 1;
    }
    proof {
        assert(ms + Seq::<ProtoModel>::empty() =~= ms);
    }
    Ok(out)
}

/// The smallest `u128` with the top bit set: the sign threshold of a
/// 16-byte integer field.
const HALF_U128: u128 = 0x8000_0000_0000_0000_0000_0000_0000_0000;

/// 256 to the power `n`, for the widths an integer field can declare
/// below the full 16 bytes.
fn pow256_exec(n: usize) -> (r: u128)
    requires
        n <= 15,
    ensures
        r == pow256(n as nat),
{
    let mut acc: u128 = 1;
    let mut i: usize = 0;
    while i < n
        invariant
            i <= n <= 15,
            acc == pow256(i as nat),
        decreases n - i,
    {
        proof {
            lemma_pow256_monotone(i as nat + 1, 15);
            lemma_pow256_values();
        }
        acc = acc * 256;
        i += 1;
    }
    acc
}

/// The value of `bytes` as an unsigned integer under the given byte
/// order, zero-extended.
fn uint128_from_bytes(bytes: &Vec<u8>, little: bool) -> (r: u128)
    requires
        bytes@.len() <= 16,
    ensures
        r == uint_of(bytes@, little),
{
    let n = bytes.len();
    if little {
        let mut acc: u128 = 0;
        let mut j: usize = n;
        while j > 0
            invariant
                j <= n == bytes@.len() <= 16,
                acc == le_value(bytes@.skip(j as int)),
            decreases j,
        {
            let jm = j - 1;
            proof {
                lemma_le_value_bound(bytes@.skip(j as int));
                lemma_pow256_monotone(bytes@.skip(j as int).len(), 15);
                lemma_pow256_values();
                assert(bytes@.skip(jm as int).drop_first() =~= bytes@.skip(j as int));
                assert(bytes@.skip(jm as int)[0] == bytes@[jm as int]);
            }
            acc = acc * 256 + (bytes[jm] as u128);
            j = jm;
        }
        proof {
            assert(bytes@.skip(0) =~= bytes@);
        }
        acc
    } else {
        let mut acc: u128 = 0;
        let mut i: usize = 0;
        while i < n
            invariant
                i <= n == bytes@.len() <= 16,
                acc == be_value(bytes@.take(i as int)),
            decreases n - i,
        {
            proof {
                lemma_be_value_bound(bytes@.take(i as int));
                lemma_pow256_monotone(bytes@.take(i as int).len(), 15);
                lemma_pow256_values();
                assert(bytes@.take(i as int + 1).drop_last() =~= bytes@.take(i as int));
            }
            acc = acc * 256 + (bytes[i] as u128);
            i += 1;
        }
        proof {
            assert(bytes@.take(n as int) =~= bytes@);
        }
        acc
    }
}

/// Decodes a whole precompiled chunk from `buf`.
///
/// Validates the 12-byte header, configures the reader with the machine
/// parameters the header declares, then decodes the root function
/// prototype recursively.  The result agrees exactly with [`sp_chunk`]:
/// a chunk value on well-formed input, and the model's error on every
/// malformed or truncated input.  Trailing bytes after the root
/// prototype are ignored.
pub fn from_bytecode(buf: Vec<u8>) -> (r: Result<Chunk, ErrorKind>)
    ensures
        match r {
            Ok(c) => sp_chunk(buf@) matches Ok(m) && chunk_matches(c, m),
            Err(e) => sp_chunk(buf@) == Err::<ChunkModel, ErrorKind>(e),
        },
{
    if buf.len() < 12 {
        return Err(ErrorKind::too_short());
    }
    let mut bytecode = BytecodeReader::new(buf);
    let sig = bytecode.read_u32()?;
    proof {
        lemma_be_value_bound(bytecode.sbytes().subrange(0, 4));
        lemma_pow256_values();
    }
    if sig != 0x1B4C7561u32 {
        return Err(ErrorKind::invalid_header(HeaderField::Signature));
    }
    let vb = bytecode.read(1)?;
    let version = vb[0];
    if version != 0x51 {
        return Err(ErrorKind::invalid_header(HeaderField::Version));
    }
    let fb = bytecode.read(1)?;
    let format_version = fb[0];
    let eb = bytecode.read(1)?;
    let endianness = eb[0];
    if endianness > 1 {
        return Err(ErrorKind::invalid_header(HeaderField::Endianness));
    }
    bytecode.set_endian(endianness);
    let ib = bytecode.read(1)?;
    let int_size = ib[0];
    if int_size > 16 {
        return Err(ErrorKind::invalid_header(HeaderField::IntSize));
    }
    bytecode.set_int(int_size as usize);
    let sb = bytecode.read(1)?;
    let size_t_size = sb[0];
    if size_t_size > 8 {
        return Err(ErrorKind::invalid_header(HeaderField::SizeTSize));
    }
    bytecode.set_size_t(size_t_size as usize);
    let inb = bytecode.read(1)?;
    let instruction_size = inb[0];
    if instruction_size != 4 {
        return Err(ErrorKind::invalid_header(HeaderField::InstructionSize));
    }
    let nb = bytecode.read(1)?;
    let number_size = nb[0];
    let gb = bytecode.read(1)?;
    let integral_flag = gb[0];
    if integral_flag > 1 {
        return Err(ErrorKind::invalid_header(HeaderField::IntegralFlag));
    }
    let header = Header {
        version,
        format_version,
        endianness,
        int_size,
        size_t_size,
        instruction_size,
        number_size,
        integral_flag,
    };
    proof {
        assert(sp_header(bytecode.sbytes()) == Ok::<Header, ErrorKind>(header));
        assert(bytecode.pos() == 12);
        assert(bytecode.cfg(number_size as nat) == cfg_of(header));
    }
    let root_prototype = function_block(&mut bytecode, number_size, MAX_NESTING_DEPTH)?;
    Ok(Chunk { header, root_prototype })
}

/// Relies on `String::from_utf8`: it succeeds exactly on valid UTF-8
/// input, returning the decoded characters.
#[verifier::external_body]
fn bytes_to_string(bytes: Vec<u8>) -> (r: Option<String>)
    ensures
        match r {
            Some(s) => utf8_decode(bytes@) == Some(s@),
            None => utf8_decode(bytes@) == None::<Seq<char>>,
        },
{
    match String::from_utf8(bytes) {
        Ok(s) => Some(s),
        Err(_) => None,
    }
}

} // verus!
