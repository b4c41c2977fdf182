//! The assembler: parsing of tokenized lines into instructions, the
//! two-pass layout and emission, and the assembler's error type.
//!
//! The first pass walks the instruction list keeping a running output
//! address — four bytes per command word plus four per inline literal, the
//! exact datum width for data directives — and binds every label to the
//! address it stands at.  The second pass evaluates every expression
//! against the finished table and emits the image bytes.

use vstd::prelude::*;

use vstd::string::StringExecFns;
use vstd::string::StrSliceExecFns;
use vstd::string::StringSliceAdditionalSpecFns;

use crate::alu::from_i32;
use crate::arch::NUM_REGS;
use crate::arch::OP_ACOS;
use crate::arch::OP_ACOSH;
use crate::arch::OP_ADD;
use crate::arch::OP_AND;
use crate::arch::OP_ASIN;
use crate::arch::OP_ASINH;
use crate::arch::OP_ATAN;
use crate::arch::OP_ATAN2;
use crate::arch::OP_ATANH;
use crate::arch::OP_CADD;
use crate::arch::OP_CALL;
use crate::arch::OP_CBRT;
use crate::arch::OP_CEIL;
use crate::arch::OP_CLCF;
use crate::arch::OP_CLEF;
use crate::arch::OP_CLLF;
use crate::arch::OP_CLSF;
use crate::arch::OP_CLZF;
use crate::arch::OP_CMP;
use crate::arch::OP_CMUL;
use crate::arch::OP_CONVF2I;
use crate::arch::OP_CONVF2U;
use crate::arch::OP_CONVI2F;
use crate::arch::OP_CONVI2U;
use crate::arch::OP_CONVU2F;
use crate::arch::OP_CONVU2I;
use crate::arch::OP_COS;
use crate::arch::OP_COSH;
use crate::arch::OP_CSUB;
use crate::arch::OP_DIV;
use crate::arch::OP_EXP;
use crate::arch::OP_EXP2;
use crate::arch::OP_EXPM1;
use crate::arch::OP_FABS;
use crate::arch::OP_FADD;
use crate::arch::OP_FCMP;
use crate::arch::OP_FDIV;
use crate::arch::OP_FLOOR;
use crate::arch::OP_FLUSH_STDOUT;
use crate::arch::OP_FMAX;
use crate::arch::OP_FMIN;
use crate::arch::OP_FMUL;
use crate::arch::OP_FPART;
use crate::arch::OP_FPOW;
use crate::arch::OP_FPOWI;
use crate::arch::OP_FREM;
use crate::arch::OP_FREME;
use crate::arch::OP_FSUB;
use crate::arch::OP_IABS;
use crate::arch::OP_IADD;
use crate::arch::OP_ICADD;
use crate::arch::OP_ICMP;
use crate::arch::OP_ICSUB;
use crate::arch::OP_IDIV;
use crate::arch::OP_IMAX;
use crate::arch::OP_IMIN;
use crate::arch::OP_IMUL;
use crate::arch::OP_IPART;
use crate::arch::OP_IPOW;
use crate::arch::OP_IREM;
use crate::arch::OP_IREME;
use crate::arch::OP_ISUB;
use crate::arch::OP_JC;
use crate::arch::OP_JE;
use crate::arch::OP_JL;
use crate::arch::OP_JMP;
use crate::arch::OP_JNC;
use crate::arch::OP_JNE;
use crate::arch::OP_JNL;
use crate::arch::OP_JNS;
use crate::arch::OP_JNZ;
use crate::arch::OP_JS;
use crate::arch::OP_JZ;
use crate::arch::OP_LD;
use crate::arch::OP_LD8;
use crate::arch::OP_LN;
use crate::arch::OP_LN1P;
use crate::arch::OP_LOG;
use crate::arch::OP_LOG10;
use crate::arch::OP_LOG2;
use crate::arch::OP_MAG2D;
use crate::arch::OP_MAX;
use crate::arch::OP_MIN;
use crate::arch::OP_MOV;
use crate::arch::OP_MUL;
use crate::arch::OP_NEG;
use crate::arch::OP_NOOP;
use crate::arch::OP_OR;
use crate::arch::OP_POW;
use crate::arch::OP_READ_STDIN;
use crate::arch::OP_RECIP;
use crate::arch::OP_REM;
use crate::arch::OP_RET;
use crate::arch::OP_ROUND;
use crate::arch::OP_SHL;
use crate::arch::OP_SHR;
use crate::arch::OP_SIGN;
use crate::arch::OP_SIN;
use crate::arch::OP_SINCOS;
use crate::arch::OP_SINH;
use crate::arch::OP_SQRT;
use crate::arch::OP_ST;
use crate::arch::OP_ST8;
use crate::arch::OP_SUB;
use crate::arch::OP_TAN;
use crate::arch::OP_TANH;
use crate::arch::OP_WRITE_STDOUT;
use crate::arch::OP_WSHL;
use crate::arch::OP_WSHR;
use crate::arch::OP_XOR;
use crate::arch::REG_C;
use crate::arch::REG_D;
use crate::arch::REG_F;
use crate::arch::REG_I;
use crate::arch::REG_L;
use crate::arch::REG_S;
use crate::expr::collect_expr;
use crate::expr::expr_view;
use crate::expr::spec_collect_expr;
use crate::expr::ExpressionV;
use crate::expr::eval;
use crate::expr::Env;
use crate::expr::Expression;
use crate::expr::Value;
use crate::lexer::tokenize;
use crate::lexer::Token;
use crate::lexer::TokenV;
use crate::mem::word_byte;
use crate::mem::lemma_word_bytes;

verus! {

/// An assembling failure: a message and the source line it points at.
#[derive(Debug)]
pub struct Error {
    pub msg: String,
    pub line: Option<usize>,
}

impl Error {
    /// An error at a known line.
    pub fn at_line(msg: &str, line: usize) -> (e: Error)
        ensures
            e.msg@ == msg@,
            e.line == Some(line),
    {
        Error { msg: String::from_str(msg), line: Some(line) }
    }

    /// An error with no location.
    pub fn new(msg: &str) -> (e: Error)
        ensures
            e.msg@ == msg@,
            e.line is None,
    {
        Error { msg: String::from_str(msg), line: None }
    }

    /// Pins the error to a line when the caller knows one.
    pub fn at(self, line: Option<usize>) -> (e: Error)
        ensures
            e.msg@ == self.msg@,
            e.line == if line is Some {
                line
            } else {
                self.line
            },
    {
        match line {
            Some(l) => Error { msg: self.msg, line: Some(l) },
            None => self,
        }
    }
}

/// One operand of a command: an expression (emitted as an inline
/// literal), a register, or the stack top.
pub enum Arg {
    Expr(Expression),
    Register(u32),
    Stack,
}

/// One data directive.
pub enum Data {
    Ascii(Vec<u8>),
    U32(Expression),
    I32(Expression),
    U16(Expression),
    I16(Expression),
    U8(Expression),
    I8(Expression),
}

/// One parsed source line.
pub enum Instruction {
    /// `$name expr`: binds a variable.
    Variable(String, Expression),
    /// `@expr`: moves the output address forward.
    Location(Expression),
    /// `name:`: binds a label to the current address.
    Label(String),
    /// `mnemonic args…`: one machine instruction.
    Command(String, Vec<Arg>),
    /// `.type expr` or `.ascii "…"`: emits a datum.
    Data(Data),
    /// `!include "name"`: a reference the embedder resolves by parsing
    /// the named file and splicing its instructions in.
    Include(String),
}

/// The mathematical shadow of an [`Arg`].
pub enum ArgV {
    Expr(ExpressionV),
    Register(u32),
    Stack,
}

/// The mathematical shadow of a [`Data`].
pub enum DataV {
    Ascii(Seq<u8>),
    U32(ExpressionV),
    I32(ExpressionV),
    U16(ExpressionV),
    I16(ExpressionV),
    U8(ExpressionV),
    I8(ExpressionV),
}

/// The mathematical shadow of an [`Instruction`].
pub enum InstructionV {
    Variable(Seq<char>, ExpressionV),
    Location(ExpressionV),
    Label(Seq<char>),
    Command(Seq<char>, Seq<ArgV>),
    Data(DataV),
    Include(Seq<char>),
}

/// The shadow of an operand.
pub open spec fn arg_view(a: Arg) -> ArgV {
    match a {
        Arg::Expr(e) => ArgV::Expr(expr_view(e)),
        Arg::Register(r) => ArgV::Register(r),
        Arg::Stack => ArgV::Stack,
    }
}

/// The shadows of an operand list.
pub open spec fn args_view(s: Seq<Arg>) -> Seq<ArgV> {
    s.map_values(|a: Arg| arg_view(a))
}

/// The shadow of a datum.
pub open spec fn data_view(d: Data) -> DataV {
    match d {
        Data::Ascii(bytes) => DataV::Ascii(bytes@),
        Data::U32(e) => DataV::U32(expr_view(e)),
        Data::I32(e) => DataV::I32(expr_view(e)),
        Data::U16(e) => DataV::U16(expr_view(e)),
        Data::I16(e) => DataV::I16(expr_view(e)),
        Data::U8(e) => DataV::U8(expr_view(e)),
        Data::I8(e) => DataV::I8(expr_view(e)),
    }
}

/// The shadow of a parsed line.
pub open spec fn instr_view(i: Instruction) -> InstructionV {
    match i {
        Instruction::Variable(name, e) => InstructionV::Variable(name@, expr_view(e)),
        Instruction::Location(e) => InstructionV::Location(expr_view(e)),
        Instruction::Label(l) => InstructionV::Label(l@),
        Instruction::Command(name, args) => InstructionV::Command(name@, args_view(args@)),
        Instruction::Data(d) => InstructionV::Data(data_view(d)),
        Instruction::Include(f) => InstructionV::Include(f@),
    }
}

/// The shadows of an alias table.
pub open spec fn aliases_view(s: Seq<(Token, Token)>) -> Seq<(TokenV, TokenV)> {
    s.map_values(|p: (Token, Token)| (p.0@, p.1@))
}

/// Whether a string equals a literal.
fn is_name(name: &String, lit: &str) -> (r: bool)
    ensures
        r == (name@ == lit@),
{
    name.eq(&String::from_str(lit))
}

/// The opcode a mnemonic denotes.
pub open spec fn spec_opcode_of_name(name: Seq<char>) -> Option<u32> {
    if name == "noop"@ {
        Some(OP_NOOP)
    } else if name == "add"@ {
        Some(OP_ADD)
    } else if name == "sub"@ {
        Some(OP_SUB)
    } else if name == "mul"@ {
        Some(OP_MUL)
    } else if name == "div"@ {
        Some(OP_DIV)
    } else if name == "rem"@ {
        Some(OP_REM)
    } else if name == "pow"@ {
        Some(OP_POW)
    } else if name == "min"@ {
        Some(OP_MIN)
    } else if name == "max"@ {
        Some(OP_MAX)
    } else if name == "cadd"@ {
        Some(OP_CADD)
    } else if name == "csub"@ {
        Some(OP_CSUB)
    } else if name == "cmul"@ {
        Some(OP_CMUL)
    } else if name == "iadd"@ {
        Some(OP_IADD)
    } else if name == "isub"@ {
        Some(OP_ISUB)
    } else if name == "imul"@ {
        Some(OP_IMUL)
    } else if name == "idiv"@ {
        Some(OP_IDIV)
    } else if name == "irem"@ {
        Some(OP_IREM)
    } else if name == "ireme"@ {
        Some(OP_IREME)
    } else if name == "iabs"@ {
        Some(OP_IABS)
    } else if name == "ipow"@ {
        Some(OP_IPOW)
    } else if name == "imin"@ {
        Some(OP_IMIN)
    } else if name == "imax"@ {
        Some(OP_IMAX)
    } else if name == "icadd"@ {
        Some(OP_ICADD)
    } else if name == "icsub"@ {
        Some(OP_ICSUB)
    } else if name == "shl"@ {
        Some(OP_SHL)
    } else if name == "shr"@ {
        Some(OP_SHR)
    } else if name == "wshl"@ {
        Some(OP_WSHL)
    } else if name == "wshr"@ {
        Some(OP_WSHR)
    } else if name == "and"@ {
        Some(OP_AND)
    } else if name == "or"@ {
        Some(OP_OR)
    } else if name == "xor"@ {
        Some(OP_XOR)
    } else if name == "neg"@ {
        Some(OP_NEG)
    } else if name == "convi2u"@ {
        Some(OP_CONVI2U)
    } else if name == "convu2i"@ {
        Some(OP_CONVU2I)
    } else if name == "convf2u"@ {
        Some(OP_CONVF2U)
    } else if name == "convu2f"@ {
        Some(OP_CONVU2F)
    } else if name == "convf2i"@ {
        Some(OP_CONVF2I)
    } else if name == "convi2f"@ {
        Some(OP_CONVI2F)
    } else if name == "fadd"@ {
        Some(OP_FADD)
    } else if name == "fsub"@ {
        Some(OP_FSUB)
    } else if name == "fmul"@ {
        Some(OP_FMUL)
    } else if name == "fdiv"@ {
        Some(OP_FDIV)
    } else if name == "frem"@ {
        Some(OP_FREM)
    } else if name == "freme"@ {
        Some(OP_FREME)
    } else if name == "fabs"@ {
        Some(OP_FABS)
    } else if name == "fpowi"@ {
        Some(OP_FPOWI)
    } else if name == "fpow"@ {
        Some(OP_FPOW)
    } else if name == "floor"@ {
        Some(OP_FLOOR)
    } else if name == "ceil"@ {
        Some(OP_CEIL)
    } else if name == "round"@ {
        Some(OP_ROUND)
    } else if name == "sign"@ {
        Some(OP_SIGN)
    } else if name == "fpart"@ {
        Some(OP_FPART)
    } else if name == "ipart"@ {
        Some(OP_IPART)
    } else if name == "recip"@ {
        Some(OP_RECIP)
    } else if name == "sqrt"@ {
        Some(OP_SQRT)
    } else if name == "cbrt"@ {
        Some(OP_CBRT)
    } else if name == "exp"@ {
        Some(OP_EXP)
    } else if name == "exp2"@ {
        Some(OP_EXP2)
    } else if name == "expm1"@ {
        Some(OP_EXPM1)
    } else if name == "ln"@ {
        Some(OP_LN)
    } else if name == "log"@ {
        Some(OP_LOG)
    } else if name == "log2"@ {
        Some(OP_LOG2)
    } else if name == "log10"@ {
        Some(OP_LOG10)
    } else if name == "ln1p"@ {
        Some(OP_LN1P)
    } else if name == "fmin"@ {
        Some(OP_FMIN)
    } else if name == "fmax"@ {
        Some(OP_FMAX)
    } else if name == "sin"@ {
        Some(OP_SIN)
    } else if name == "asin"@ {
        Some(OP_ASIN)
    } else if name == "sinh"@ {
        Some(OP_SINH)
    } else if name == "asinh"@ {
        Some(OP_ASINH)
    } else if name == "cos"@ {
        Some(OP_COS)
    } else if name == "acos"@ {
        Some(OP_ACOS)
    } else if name == "cosh"@ {
        Some(OP_COSH)
    } else if name == "acosh"@ {
        Some(OP_ACOSH)
    } else if name == "tan"@ {
        Some(OP_TAN)
    } else if name == "atan"@ {
        Some(OP_ATAN)
    } else if name == "tanh"@ {
        Some(OP_TANH)
    } else if name == "atanh"@ {
        Some(OP_ATANH)
    } else if name == "atan2"@ {
        Some(OP_ATAN2)
    } else if name == "sincos"@ {
        Some(OP_SINCOS)
    } else if name == "mag2d"@ {
        Some(OP_MAG2D)
    } else if name == "cmp"@ {
        Some(OP_CMP)
    } else if name == "icmp"@ {
        Some(OP_ICMP)
    } else if name == "fcmp"@ {
        Some(OP_FCMP)
    } else if name == "jmp"@ {
        Some(OP_JMP)
    } else if name == "jz"@ {
        Some(OP_JZ)
    } else if name == "jnz"@ {
        Some(OP_JNZ)
    } else if name == "clzf"@ {
        Some(OP_CLZF)
    } else if name == "js"@ {
        Some(OP_JS)
    } else if name == "jns"@ {
        Some(OP_JNS)
    } else if name == "clsf"@ {
        Some(OP_CLSF)
    } else if name == "jc"@ {
        Some(OP_JC)
    } else if name == "jnc"@ {
        Some(OP_JNC)
    } else if name == "clcf"@ {
        Some(OP_CLCF)
    } else if name == "je"@ {
        Some(OP_JE)
    } else if name == "jne"@ {
        Some(OP_JNE)
    } else if name == "clef"@ {
        Some(OP_CLEF)
    } else if name == "jl"@ {
        Some(OP_JL)
    } else if name == "jnl"@ {
        Some(OP_JNL)
    } else if name == "cllf"@ {
        Some(OP_CLLF)
    } else if name == "write_stdout"@ {
        Some(OP_WRITE_STDOUT)
    } else if name == "flush_stdout"@ {
        Some(OP_FLUSH_STDOUT)
    } else if name == "read_stdin"@ {
        Some(OP_READ_STDIN)
    } else if name == "ld"@ {
        Some(OP_LD)
    } else if name == "st"@ {
        Some(OP_ST)
    } else if name == "mov"@ {
        Some(OP_MOV)
    } else if name == "ld8"@ {
        Some(OP_LD8)
    } else if name == "st8"@ {
        Some(OP_ST8)
    } else if name == "call"@ {
        Some(OP_CALL)
    } else if name == "ret"@ {
        Some(OP_RET)
    } else     {
        None
    }
}

/// The opcode a mnemonic denotes.
pub fn opcode_of_name(name: &String) -> (r: Option<u32>)
    ensures
        r == spec_opcode_of_name(name@),
        r matches Some(op) ==> op < 2048,
{
    if is_name(name, "noop") {
        Some(OP_NOOP)
    } else if is_name(name, "add") {
        Some(OP_ADD)
    } else if is_name(name, "sub") {
        Some(OP_SUB)
    } else if is_name(name, "mul") {
        Some(OP_MUL)
    } else if is_name(name, "div") {
        Some(OP_DIV)
    } else if is_name(name, "rem") {
        Some(OP_REM)
    } else if is_name(name, "pow") {
        Some(OP_POW)
    } else if is_name(name, "min") {
        Some(OP_MIN)
    } else if is_name(name, "max") {
        Some(OP_MAX)
    } else if is_name(name, "cadd") {
        Some(OP_CADD)
    } else if is_name(name, "csub") {
        Some(OP_CSUB)
    } else if is_name(name, "cmul") {
        Some(OP_CMUL)
    } else if is_name(name, "iadd") {
        Some(OP_IADD)
    } else if is_name(name, "isub") {
        Some(OP_ISUB)
    } else if is_name(name, "imul") {
        Some(OP_IMUL)
    } else if is_name(name, "idiv") {
        Some(OP_IDIV)
    } else if is_name(name, "irem") {
        Some(OP_IREM)
    } else if is_name(name, "ireme") {
        Some(OP_IREME)
    } else if is_name(name, "iabs") {
        Some(OP_IABS)
    } else if is_name(name, "ipow") {
        Some(OP_IPOW)
    } else if is_name(name, "imin") {
        Some(OP_IMIN)
    } else if is_name(name, "imax") {
        Some(OP_IMAX)
    } else if is_name(name, "icadd") {
        Some(OP_ICADD)
    } else if is_name(name, "icsub") {
        Some(OP_ICSUB)
    } else if is_name(name, "shl") {
        Some(OP_SHL)
    } else if is_name(name, "shr") {
        Some(OP_SHR)
    } else if is_name(name, "wshl") {
        Some(OP_WSHL)
    } else if is_name(name, "wshr") {
        Some(OP_WSHR)
    } else if is_name(name, "and") {
        Some(OP_AND)
    } else if is_name(name, "or") {
        Some(OP_OR)
    } else if is_name(name, "xor") {
        Some(OP_XOR)
    } else if is_name(name, "neg") {
        Some(OP_NEG)
    } else if is_name(name, "convi2u") {
        Some(OP_CONVI2U)
    } else if is_name(name, "convu2i") {
        Some(OP_CONVU2I)
    } else if is_name(name, "convf2u") {
        Some(OP_CONVF2U)
    } else if is_name(name, "convu2f") {
        Some(OP_CONVU2F)
    } else if is_name(name, "convf2i") {
        Some(OP_CONVF2I)
    } else if is_name(name, "convi2f") {
        Some(OP_CONVI2F)
    } else if is_name(name, "fadd") {
        Some(OP_FADD)
    } else if is_name(name, "fsub") {
        Some(OP_FSUB)
    } else if is_name(name, "fmul") {
        Some(OP_FMUL)
    } else if is_name(name, "fdiv") {
        Some(OP_FDIV)
    } else if is_name(name, "frem") {
        Some(OP_FREM)
    } else if is_name(name, "freme") {
        Some(OP_FREME)
    } else if is_name(name, "fabs") {
        Some(OP_FABS)
    } else if is_name(name, "fpowi") {
        Some(OP_FPOWI)
    } else if is_name(name, "fpow") {
        Some(OP_FPOW)
    } else if is_name(name, "floor") {
        Some(OP_FLOOR)
    } else if is_name(name, "ceil") {
        Some(OP_CEIL)
    } else if is_name(name, "round") {
        Some(OP_ROUND)
    } else if is_name(name, "sign") {
        Some(OP_SIGN)
    } else if is_name(name, "fpart") {
        Some(OP_FPART)
    } else if is_name(name, "ipart") {
        Some(OP_IPART)
    } else if is_name(name, "recip") {
        Some(OP_RECIP)
    } else if is_name(name, "sqrt") {
        Some(OP_SQRT)
    } else if is_name(name, "cbrt") {
        Some(OP_CBRT)
    } else if is_name(name, "exp") {
        Some(OP_EXP)
    } else if is_name(name, "exp2") {
        Some(OP_EXP2)
    } else if is_name(name, "expm1") {
        Some(OP_EXPM1)
    } else if is_name(name, "ln") {
        Some(OP_LN)
    } else if is_name(name, "log") {
        Some(OP_LOG)
    } else if is_name(name, "log2") {
        Some(OP_LOG2)
    } else if is_name(name, "log10") {
        Some(OP_LOG10)
    } else if is_name(name, "ln1p") {
        Some(OP_LN1P)
    } else if is_name(name, "fmin") {
        Some(OP_FMIN)
    } else if is_name(name, "fmax") {
        Some(OP_FMAX)
    } else if is_name(name, "sin") {
        Some(OP_SIN)
    } else if is_name(name, "asin") {
        Some(OP_ASIN)
    } else if is_name(name, "sinh") {
        Some(OP_SINH)
    } else if is_name(name, "asinh") {
        Some(OP_ASINH)
    } else if is_name(name, "cos") {
        Some(OP_COS)
    } else if is_name(name, "acos") {
        Some(OP_ACOS)
    } else if is_name(name, "cosh") {
        Some(OP_COSH)
    } else if is_name(name, "acosh") {
        Some(OP_ACOSH)
    } else if is_name(name, "tan") {
        Some(OP_TAN)
    } else if is_name(name, "atan") {
        Some(OP_ATAN)
    } else if is_name(name, "tanh") {
        Some(OP_TANH)
    } else if is_name(name, "atanh") {
        Some(OP_ATANH)
    } else if is_name(name, "atan2") {
        Some(OP_ATAN2)
    } else if is_name(name, "sincos") {
        Some(OP_SINCOS)
    } else if is_name(name, "mag2d") {
        Some(OP_MAG2D)
    } else if is_name(name, "cmp") {
        Some(OP_CMP)
    } else if is_name(name, "icmp") {
        Some(OP_ICMP)
    } else if is_name(name, "fcmp") {
        Some(OP_FCMP)
    } else if is_name(name, "jmp") {
        Some(OP_JMP)
    } else if is_name(name, "jz") {
        Some(OP_JZ)
    } else if is_name(name, "jnz") {
        Some(OP_JNZ)
    } else if is_name(name, "clzf") {
        Some(OP_CLZF)
    } else if is_name(name, "js") {
        Some(OP_JS)
    } else if is_name(name, "jns") {
        Some(OP_JNS)
    } else if is_name(name, "clsf") {
        Some(OP_CLSF)
    } else if is_name(name, "jc") {
        Some(OP_JC)
    } else if is_name(name, "jnc") {
        Some(OP_JNC)
    } else if is_name(name, "clcf") {
        Some(OP_CLCF)
    } else if is_name(name, "je") {
        Some(OP_JE)
    } else if is_name(name, "jne") {
        Some(OP_JNE)
    } else if is_name(name, "clef") {
        Some(OP_CLEF)
    } else if is_name(name, "jl") {
        Some(OP_JL)
    } else if is_name(name, "jnl") {
        Some(OP_JNL)
    } else if is_name(name, "cllf") {
        Some(OP_CLLF)
    } else if is_name(name, "write_stdout") {
        Some(OP_WRITE_STDOUT)
    } else if is_name(name, "flush_stdout") {
        Some(OP_FLUSH_STDOUT)
    } else if is_name(name, "read_stdin") {
        Some(OP_READ_STDIN)
    } else if is_name(name, "ld") {
        Some(OP_LD)
    } else if is_name(name, "st") {
        Some(OP_ST)
    } else if is_name(name, "mov") {
        Some(OP_MOV)
    } else if is_name(name, "ld8") {
        Some(OP_LD8)
    } else if is_name(name, "st8") {
        Some(OP_ST8)
    } else if is_name(name, "call") {
        Some(OP_CALL)
    } else if is_name(name, "ret") {
        Some(OP_RET)
    } else     {
        None
    }
}

/// A register alias resolves to its latest binding, or stands for
/// itself.
pub open spec fn spec_resolve_alias(aliases: Seq<(TokenV, TokenV)>, raw: TokenV) -> TokenV
    decreases aliases.len(),
{
    if aliases.len() == 0 {
        raw
    } else if aliases.last().0 == raw {
        aliases.last().1
    } else {
        spec_resolve_alias(aliases.drop_last(), raw)
    }
}

/// The register a `%` operand token names: a base-10 number up to 47, or
/// one of the special-register letters.
pub open spec fn spec_reg_of(t: TokenV) -> Option<u32> {
    match t {
        TokenV::Ident(n) => if n == "I"@ {
            Some(REG_I)
        } else if n == "L"@ || n == "W"@ {
            Some(REG_L)
        } else if n == "S"@ {
            Some(REG_S)
        } else if n == "F"@ {
            Some(REG_F)
        } else if n == "D"@ {
            Some(REG_D)
        } else if n == "C"@ {
            Some(REG_C)
        } else {
            None
        },
        TokenV::UnsignedInteger(v, radix) => if radix == 10 && v <= 47 {
            Some(v)
        } else {
            None
        },
        _ => None,
    }
}

/// The operand list of a command line from position `index` on: commas
/// separate, `%` takes a register (through the alias table), `*` is the
/// stack top, and anything else must parse as an expression, which the
/// command later carries as an inline literal.
///
/// As in [`spec_collect_expr`], the recursion clamps the expression
/// parser's returned index into `(position, length]`; the executable
/// parser makes strict progress, so the clamp changes no reachable
/// value.
pub open spec fn spec_parse_args(
    toks: Seq<TokenV>,
    aliases: Seq<(TokenV, TokenV)>,
    index: int,
) -> Option<Seq<ArgV>>
    decreases toks.len() - index,
{
    if index < 0 {
        None
    } else if index >= toks.len() {
        Some(Seq::empty())
    } else if toks[index] == TokenV::Control(',') {
        spec_parse_args(toks, aliases, index + 1)
    } else if toks[index] == TokenV::Control('%') {
        if index + 1 >= toks.len() {
            None
        } else {
            match spec_reg_of(spec_resolve_alias(aliases, toks[index + 1])) {
                Some(r) => match spec_parse_args(toks, aliases, index + 2) {
                    Some(rest) => Some(seq![ArgV::Register(r)] + rest),
                    None => None,
                },
                None => None,
            }
        }
    } else if toks[index] == TokenV::Control('*') {
        match spec_parse_args(toks, aliases, index + 1) {
            Some(rest) => Some(seq![ArgV::Stack] + rest),
            None => None,
        }
    } else {
        match spec_collect_expr(toks, index) {
            Some(p) => {
                let j = if p.1 <= index {
                    index + 1
                } else if p.1 > toks.len() {
                    toks.len() as int
                } else {
                    p.1
                };
                match spec_parse_args(toks, aliases, j) {
                    Some(rest) => Some(seq![ArgV::Expr(p.0)] + rest),
                    None => None,
                }
            },
            None => None,
        }
    }
}

/// The instruction a tokenized line denotes: `$name e` binds a variable,
/// `@e` moves the output address, `name :` binds a label, `.type …` is a
/// datum, and a leading identifier opens a command with its operands;
/// `None` is any syntax error.
pub open spec fn spec_instructionize(
    toks: Seq<TokenV>,
    aliases: Seq<(TokenV, TokenV)>,
) -> Option<InstructionV> {
    if toks.len() == 0 {
        None
    } else {
        match toks[0] {
            TokenV::Control(c0) => if c0 == '$' {
                if toks.len() < 2 {
                    None
                } else {
                    match toks[1] {
                        TokenV::Ident(name) => match spec_collect_expr(toks, 2) {
                            Some(p) => if p.1 == toks.len() {
                                Some(InstructionV::Variable(name, p.0))
                            } else {
                                None
                            },
                            None => None,
                        },
                        _ => None,
                    }
                }
            } else if c0 == '@' {
                match spec_collect_expr(toks, 1) {
                    Some(p) => if p.1 == toks.len() {
                        Some(InstructionV::Location(p.0))
                    } else {
                        None
                    },
                    None => None,
                }
            } else if c0 == '.' {
                if toks.len() < 2 {
                    None
                } else {
                    match toks[1] {
                        TokenV::Ident(d) => if d == "ascii"@ {
                            if toks.len() == 3 {
                                match toks[2] {
                                    TokenV::Ascii(content) => Some(
                                        InstructionV::Data(
                                            DataV::Ascii(vstd::utf8::encode_utf8(content)),
                                        ),
                                    ),
                                    _ => None,
                                }
                            } else {
                                None
                            }
                        } else if d == "f32"@ {
                            None
                        } else {
                            match spec_collect_expr(toks, 2) {
                                Some(p) => if p.1 != toks.len() {
                                    None
                                } else if d == "u32"@ {
                                    Some(InstructionV::Data(DataV::U32(p.0)))
                                } else if d == "i32"@ {
                                    Some(InstructionV::Data(DataV::I32(p.0)))
                                } else if d == "u16"@ {
                                    Some(InstructionV::Data(DataV::U16(p.0)))
                                } else if d == "i16"@ {
                                    Some(InstructionV::Data(DataV::I16(p.0)))
                                } else if d == "u8"@ {
                                    Some(InstructionV::Data(DataV::U8(p.0)))
                                } else if d == "i8"@ {
                                    Some(InstructionV::Data(DataV::I8(p.0)))
                                } else {
                                    None
                                },
                                None => None,
                            }
                        },
                        _ => None,
                    }
                }
            } else {
                None
            },
            TokenV::Ident(name) => if toks.len() == 2 && toks[1] == TokenV::Control(':') {
                Some(InstructionV::Label(name))
            } else {
                match spec_parse_args(toks, aliases, 1) {
                    Some(args) => Some(InstructionV::Command(name, args)),
                    None => None,
                }
            },
            _ => None,
        }
    }
}

/// Resolves a register alias: the latest binding wins; see
/// [`spec_resolve_alias`].
fn resolve_alias<'a>(aliases: &'a Vec<(Token, Token)>, raw: &'a Token) -> (r: &'a Token)
    ensures
        r@ == spec_resolve_alias(aliases_view(aliases@), raw@),
{
    let ghost av = aliases_view(aliases@);
    let mut i: usize = aliases.len();
    proof {
        assert(av.subrange(0, av.len() as int) =~= av);
    }
    loop
        invariant
            i <= aliases@.len(),
            av == aliases_view(aliases@),
            spec_resolve_alias(av, raw@) == spec_resolve_alias(av.subrange(0, i as int), raw@),
        decreases i,
    {
        if i == 0 {
            proof {
                assert(av.subrange(0, 0) =~= Seq::<(TokenV, TokenV)>::empty());
            }
            return raw;
        }
        i = i - 1;
        proof {
            assert(av.subrange(0, i + 1).last() == (aliases@[i as int].0@, aliases@[
                i as int].1@));
            assert(av.subrange(0, i + 1).drop_last() =~= av.subrange(0, i as int));
        }
        if aliases[i].0.token_eq(raw) {
            return &aliases[i].1;
        }
    }
}

/// The register a `%` operand names; see [`spec_reg_of`].
fn reg_from_token(t: &Token, line: usize) -> (r: Result<u32, Error>)
    ensures
        match spec_reg_of(t@) {
            Some(n) => r matches Ok(m) && m == n && n < NUM_REGS,
            None => r is Err,
        },
{
    match t {
        Token::Ident(name) => {
            if is_name(name, "I") {
                Ok(REG_I)
            } else if is_name(name, "L") || is_name(name, "W") {
                Ok(REG_L)
            } else if is_name(name, "S") {
                Ok(REG_S)
            } else if is_name(name, "F") {
                Ok(REG_F)
            } else if is_name(name, "D") {
                Ok(REG_D)
            } else if is_name(name, "C") {
                Ok(REG_C)
            } else {
                Err(
                    Error::at_line(
                        "invalid register name: expected a number up to 47 or one of I, L, S, F, D, C",
                        line,
                    ),
                )
            }
        },
        Token::UnsignedInteger(n, radix) => {
            if *radix == 10 && *n <= 47 {
                Ok(*n)
            } else {
                Err(Error::at_line("invalid register number: expected 0 through 47", line))
            }
        },
        _ => Err(Error::at_line("invalid token after `%`", line)),
    }
}

/// Parses one tokenized line into an instruction; see
/// [`spec_instructionize`].
#[verifier::loop_isolation(false)]
pub fn instructionize(tokens: &Vec<Token>, aliases: &Vec<(Token, Token)>, line: usize) -> (r:
    Result<Instruction, Error>)
    requires
        tokens@.len() > 0,
    ensures
        match spec_instructionize(tokens.deep_view(), aliases_view(aliases@)) {
            Some(iv) => r matches Ok(i) && instr_view(i) == iv,
            None => r is Err,
        },
{
    let ghost td = tokens.deep_view();
    let ghost av = aliases_view(aliases@);
    proof {
        assert(td.len() == tokens@.len());
        assert(td[0] == tokens@[0]@);
    }
    match &tokens[0] {
        Token::Control(c0) => {
            let c = *c0;
            if c == '$' {
                if tokens.len() < 2 {
                    return Err(Error::at_line("expected a variable name after `$`", line));
                }
                proof {
                    assert(td[1] == tokens@[1]@);
                }
                let name = match &tokens[1] {
                    Token::Ident(n) => n.clone(),
                    _ => {
                        return Err(Error::at_line("expected a variable name after `$`", line));
                    },
                };
                let (e, end) = collect_expr(tokens, 2, line)?;
                if end != tokens.len() {
                    return Err(Error::at_line("surplus argument after variable value", line));
                }
                Ok(Instruction::Variable(name, e))
            } else if c == '@' {
                let (e, end) = collect_expr(tokens, 1, line)?;
                if end != tokens.len() {
                    return Err(Error::at_line("surplus argument after location", line));
                }
                Ok(Instruction::Location(e))
            } else if c == '.' {
                if tokens.len() < 2 {
                    return Err(Error::at_line("expected a data type after `.`", line));
                }
                proof {
                    assert(td[1] == tokens@[1]@);
                }
                let dtype = match &tokens[1] {
                    Token::Ident(n) => n,
                    _ => {
                        return Err(Error::at_line("expected a data type after `.`", line));
                    },
                };
                if is_name(dtype, "ascii") {
                    if tokens.len() != 3 {
                        return Err(Error::at_line("expected one string after `.ascii`", line));
                    }
                    proof {
                        assert(td[2] == tokens@[2]@);
                    }
                    match &tokens[2] {
                        Token::Ascii(content) => Ok(
                            Instruction::Data(Data::Ascii(content.as_str().as_bytes_vec())),
                        ),
                        _ => Err(Error::at_line("expected one string after `.ascii`", line)),
                    }
                } else if is_name(dtype, "f32") {
                    Err(Error::at_line("float data is not supported here", line))
                } else {
                    let (e, end) = collect_expr(tokens, 2, line)?;
                    if end != tokens.len() {
                        return Err(Error::at_line("surplus argument after datum", line));
                    }
                    if is_name(dtype, "u32") {
                        Ok(Instruction::Data(Data::U32(e)))
                    } else if is_name(dtype, "i32") {
                        Ok(Instruction::Data(Data::I32(e)))
                    } else if is_name(dtype, "u16") {
                        Ok(Instruction::Data(Data::U16(e)))
                    } else if is_name(dtype, "i16") {
                        Ok(Instruction::Data(Data::I16(e)))
                    } else if is_name(dtype, "u8") {
                        Ok(Instruction::Data(Data::U8(e)))
                    } else if is_name(dtype, "i8") {
                        Ok(Instruction::Data(Data::I8(e)))
                    } else {
                        Err(Error::at_line("invalid data type", line))
                    }
                }
            } else {
                Err(Error::at_line("invalid instruction syntax", line))
            }
        },
        Token::Ident(name) => {
            proof {
                if tokens@.len() >= 2 {
                    assert(td[1] == tokens@[1]@);
                }
            }
            if tokens.len() == 2 && is_control_char(&tokens[1], ':') {
                return Ok(Instruction::Label(name.clone()));
            }
            let mut args: Vec<Arg> = Vec::new();
            let mut index: usize = 1;
            proof {
                assert(args_view(args@) =~= Seq::<ArgV>::empty());
            }
            loop
                invariant
                    1 <= index <= tokens@.len(),
                    ({
                        let tail = spec_parse_args(td, av, index as int);
                        match spec_parse_args(td, av, 1) {
                            Some(full) => tail matches Some(rest) && full == args_view(args@)
                                + rest,
                            None => tail is None,
                        }
                    }),
                decreases tokens@.len() - index,
            {
                if index == tokens.len() {
                    break;
                }
                proof {
                    assert(td[index as int] == tokens@[index as int]@);
                }
                if is_control_char(&tokens[index], ',') {
                    // Commas between operands are permitted separators.
                    index = index + 1;
                } else if is_control_char(&tokens[index], '%') {
                    if index + 1 >= tokens.len() {
                        return Err(Error::at_line("expected a register after `%`", line));
                    }
                    proof {
                        assert(td[index + 1] == tokens@[index + 1]@);
                    }
                    let reg = resolve_alias(aliases, &tokens[index + 1]);
                    let r = reg_from_token(reg, line)?;
                    let ghost prev = args_view(args@);
                    args.push(Arg::Register(r));
                    index = index + 2;
                    proof {
                        assert(args_view(args@) =~= prev.push(ArgV::Register(r)));
                        if spec_parse_args(td, av, index as int) is Some {
                            let rest = spec_parse_args(td, av, index as int).unwrap();
                            assert(prev + (seq![ArgV::Register(r)] + rest) =~= prev.push(
                                ArgV::Register(r),
                            ) + rest);
                        }
                    }
                } else if is_control_char(&tokens[index], '*') {
                    let ghost prev = args_view(args@);
                    args.push(Arg::Stack);
                    index = index + 1;
                    proof {
                        assert(args_view(args@) =~= prev.push(ArgV::Stack));
                        if spec_parse_args(td, av, index as int) is Some {
                            let rest = spec_parse_args(td, av, index as int).unwrap();
                            assert(prev + (seq![ArgV::Stack] + rest) =~= prev.push(ArgV::Stack)
                                + rest);
                        }
                    }
                } else {
                    let (e, end) = collect_expr(tokens, index, line)?;
                    let ghost prev = args_view(args@);
                    let ghost ev = expr_view(e);
                    args.push(Arg::Expr(e));
                    index = end;
                    proof {
                        assert(args_view(args@) =~= prev.push(ArgV::Expr(ev)));
                        if spec_parse_args(td, av, index as int) is Some {
                            let rest = spec_parse_args(td, av, index as int).unwrap();
                            assert(prev + (seq![ArgV::Expr(ev)] + rest) =~= prev.push(
                                ArgV::Expr(ev),
                            ) + rest);
                        }
                    }
                }
            }
            proof {
                assert(args_view(args@) + Seq::<ArgV>::empty() =~= args_view(args@));
            }
            Ok(Instruction::Command(name.clone(), args))
        },
        _ => Err(Error::at_line("invalid instruction syntax", line)),
    }
}

/// Whether a token is the given control character.
/// Whether a token is the given control character.
fn is_control_char(t: &Token, c: char) -> (r: bool)
    ensures
        r == (t@ == TokenV::Control(c)),
{
    match t {
        Token::Control(x) => *x == c,
        _ => false,
    }
}

/// The end of the line starting at `start`: the next newline or the end
/// of the text.
pub open spec fn spec_line_end(bytes: Seq<u8>, start: int) -> int
    decreases bytes.len() - start,
{
    if start < 0 || start >= bytes.len() {
        start
    } else if bytes[start] == 10 {
        start
    } else {
        spec_line_end(bytes, start + 1)
    }
}

/// A line end lies between its start and the end of the text.
proof fn lemma_line_end_bounds(bytes: Seq<u8>, start: int)
    requires
        0 <= start <= bytes.len(),
    ensures
        start <= spec_line_end(bytes, start) <= bytes.len(),
    decreases bytes.len() - start,
{
    if start < bytes.len() && bytes[start] != 10 {
        lemma_line_end_bounds(bytes, start + 1);
    }
}

/// Where a `//` comment cuts the line `[k, end)`: at the first double
/// slash, or not at all.
pub open spec fn spec_comment_cut(bytes: Seq<u8>, k: int, end: int) -> int
    decreases end - k,
{
    if k + 1 >= end {
        end
    } else if bytes[k] == 47 && bytes[k + 1] == 47 {
        k
    } else {
        spec_comment_cut(bytes, k + 1, end)
    }
}

/// Finds where a `//` comment cuts the line `[k, end)`; see
/// [`spec_comment_cut`].
fn comment_cut(bytes: &Vec<u8>, k: usize, end: usize) -> (cut: usize)
    requires
        k <= end <= bytes@.len(),
        end < 0xFFFF_FFFF,
    ensures
        k <= cut <= end,
        cut == spec_comment_cut(bytes@, k as int, end as int),
    decreases end - k,
{
    if k + 1 >= end {
        end
    } else if bytes[k] == 47 && bytes[k + 1] == 47 {
        k
    } else {
        comment_cut(bytes, k + 1, end)
    }
}

/// The parsed lines of the source from byte `start` on, numbering lines
/// from `line_no`, with the register aliases gathered so far.  Register
/// aliases (`!%alias = %reg`) apply from their line on; `!include`
/// lines stay in the list for the embedder to resolve.  `None` is any
/// lexing or parsing error.
pub open spec fn spec_parse_lines(
    bytes: Seq<u8>,
    start: int,
    line_no: int,
    aliases: Seq<(TokenV, TokenV)>,
) -> Option<Seq<(int, InstructionV)>>
    decreases bytes.len() + 1 - start,
    via spec_parse_lines_decreases
{
    if start < 0 || start > bytes.len() {
        Some(Seq::empty())
    } else {
        let end = spec_line_end(bytes, start);
        let cut = spec_comment_cut(bytes, start, end);
        match crate::lexer::spec_tokenize(bytes.subrange(start, cut), 0) {
            Some(ts) => if ts.len() == 0 {
                spec_parse_lines(bytes, end + 1, line_no + 1, aliases)
            } else if ts[0] == TokenV::Control('!') {
                if ts.len() < 2 {
                    None
                } else {
                    match ts[1] {
                        TokenV::Ident(n) => if n == "include"@ {
                            if ts.len() == 3 {
                                match ts[2] {
                                    TokenV::Ascii(f) => match spec_parse_lines(
                                        bytes,
                                        end + 1,
                                        line_no + 1,
                                        aliases,
                                    ) {
                                        Some(rest) => Some(
                                            seq![(line_no, InstructionV::Include(f))] + rest,
                                        ),
                                        None => None,
                                    },
                                    _ => None,
                                }
                            } else {
                                None
                            }
                        } else {
                            None
                        },
                        TokenV::Control(pc) => if pc == '%' {
                            if ts.len() == 6 {
                                spec_parse_lines(
                                    bytes,
                                    end + 1,
                                    line_no + 1,
                                    aliases.push((ts[2], ts[5])),
                                )
                            } else {
                                None
                            }
                        } else {
                            None
                        },
                        _ => None,
                    }
                }
            } else {
                match spec_instructionize(ts, aliases) {
                    Some(iv) => match spec_parse_lines(bytes, end + 1, line_no + 1, aliases) {
                        Some(rest) => Some(seq![(line_no, iv)] + rest),
                        None => None,
                    },
                    None => None,
                }
            },
            None => None,
        }
    }
}

/// Termination of [`spec_parse_lines`]: every line reaches at least one
/// byte further.
#[via_fn]
proof fn spec_parse_lines_decreases(
    bytes: Seq<u8>,
    start: int,
    line_no: int,
    aliases: Seq<(TokenV, TokenV)>,
) {
    if 0 <= start <= bytes.len() {
        lemma_line_end_bounds(bytes, start);
    }
}

/// The parsed source: its lines under an empty alias table.  A text too
/// large for a 32-bit address space is refused outright.
pub open spec fn spec_parse_source(bytes: Seq<u8>) -> Option<Seq<(int, InstructionV)>> {
    if bytes.len() >= 0xFFFF_FFFF {
        None
    } else {
        spec_parse_lines(bytes, 0, 0, Seq::empty())
    }
}

/// The shadows of a parsed line list.
pub open spec fn parsed_view(s: Seq<(usize, Instruction)>) -> Seq<(int, InstructionV)> {
    s.map_values(|p: (usize, Instruction)| (p.0 as int, instr_view(p.1)))
}

/// Splits source text into lines and strips `//` comments, then parses
/// every non-empty line — exactly [`spec_parse_source`] of the text's
/// bytes.  Register aliases (`!%alias = %reg`) apply from their line on;
/// `!include` lines come back as [`Instruction::Include`] for the
/// embedder to resolve.
#[verifier::loop_isolation(false)]
pub fn parse_source(text: &str) -> (r: Result<Vec<(usize, Instruction)>, Error>)
    ensures
        match spec_parse_source(text.spec_bytes()) {
            Some(ps) => r matches Ok(v) && parsed_view(v@) == ps,
            None => r is Err,
        },
{
    let bytes = text.as_bytes_vec();
    let mut out: Vec<(usize, Instruction)> = Vec::new();
    let mut aliases: Vec<(Token, Token)> = Vec::new();
    let mut line_no: usize = 0;
    let mut start: usize = 0;
    let n = bytes.len();
    if n >= 0xFFFF_FFFFusize {
        return Err(Error::new("the source text is too large"));
    }
    proof {
        assert(parsed_view(out@) =~= Seq::<(int, InstructionV)>::empty());
        assert(aliases_view(aliases@) =~= Seq::<(TokenV, TokenV)>::empty());
    }
    loop
        invariant
            start <= n + 1,
            line_no <= start,
            n < 0xFFFF_FFFF,
            n == bytes@.len(),
            ({
                let tail = spec_parse_lines(
                    bytes@,
                    start as int,
                    line_no as int,
                    aliases_view(aliases@),
                );
                match spec_parse_lines(bytes@, 0, 0, Seq::empty()) {
                    Some(full) => tail matches Some(rest) && full == parsed_view(out@) + rest,
                    None => tail is None,
                }
            }),
        decreases n - start + 1,
    {
        if start > n {
            proof {
                assert(parsed_view(out@) + Seq::<(int, InstructionV)>::empty() =~= parsed_view(
                    out@,
                ));
            }
            break;
        }
        // The current line runs to the next newline or the end.
        let mut end: usize = start;
        while end < n && bytes[end] != 10
            invariant
                start <= end <= n,
                spec_line_end(bytes@, start as int) == spec_line_end(bytes@, end as int),
            decreases n - end,
        {
            end = end + 1;
        }
        proof {
            assert(spec_line_end(bytes@, start as int) == end);
        }
        // Strip a trailing comment.
        let cut = comment_cut(&bytes, start, end);
        let line_bytes = crate::lexer::slice_bytes(&bytes, start, cut);
        let tokens = match tokenize(&line_bytes, line_no) {
            Ok(t) => t,
            Err(e) => {
                return Err(e);
            },
        };
        let ghost ts = tokens.deep_view();
        if tokens.len() > 0 {
            proof {
                assert(ts[0] == tokens@[0]@);
                if tokens@.len() >= 2 {
                    assert(ts[1] == tokens@[1]@);
                }
            }
            if is_control_char(&tokens[0], '!') {
                if tokens.len() < 2 {
                    return Err(Error::at_line("invalid macro syntax after `!`", line_no));
                }
                let is_include = match &tokens[1] {
                    Token::Ident(name) => is_name(name, "include"),
                    _ => false,
                };
                if is_include {
                    if tokens.len() == 3 {
                        proof {
                            assert(ts[2] == tokens@[2]@);
                        }
                        match &tokens[2] {
                            Token::Ascii(f) => {
                                let ghost prev = parsed_view(out@);
                                let ghost entry = (line_no as int, InstructionV::Include(f@));
                                out.push((line_no, Instruction::Include(f.clone())));
                                proof {
                                    assert(parsed_view(out@) =~= prev.push(entry));
                                    if spec_parse_lines(
                                        bytes@,
                                        end + 1,
                                        line_no + 1,
                                        aliases_view(aliases@),
                                    ) is Some {
                                        let rest = spec_parse_lines(
                                            bytes@,
                                            end + 1,
                                            line_no + 1,
                                            aliases_view(aliases@),
                                        ).unwrap();
                                        assert(prev + (seq![entry] + rest) =~= prev.push(entry)
                                            + rest);
                                    }
                                }
                            },
                            _ => {
                                return Err(
                                    Error::at_line("expected `!include \"module\"`", line_no),
                                );
                            },
                        }
                    } else {
                        return Err(Error::at_line("expected `!include \"module\"`", line_no));
                    }
                } else if is_control_char(&tokens[1], '%') {
                    if tokens.len() != 6 {
                        return Err(Error::at_line("expected `!%alias = %reg`", line_no));
                    }
                    let ghost prevav = aliases_view(aliases@);
                    let ghost t2 = tokens@[2]@;
                    let ghost t5 = tokens@[5]@;
                    aliases.push((tokens[2].duplicate(), tokens[5].duplicate()));
                    proof {
                        assert(ts[2] == t2 && ts[5] == t5);
                        assert(aliases_view(aliases@) =~= prevav.push((t2, t5)));
                    }
                } else {
                    return Err(Error::at_line("invalid macro syntax after `!`", line_no));
                }
            } else {
                let instr = instructionize(&tokens, &aliases, line_no)?;
                let ghost prev = parsed_view(out@);
                let ghost entry = (line_no as int, instr_view(instr));
                out.push((line_no, instr));
                proof {
                    assert(parsed_view(out@) =~= prev.push(entry));
                    if spec_parse_lines(
                        bytes@,
                        end + 1,
                        line_no + 1,
                        aliases_view(aliases@),
                    ) is Some {
                        let rest = spec_parse_lines(
                            bytes@,
                            end + 1,
                            line_no + 1,
                            aliases_view(aliases@),
                        ).unwrap();
                        assert(prev + (seq![entry] + rest) =~= prev.push(entry) + rest);
                    }
                }
            }
        }
        line_no = line_no + 1;
        start = end + 1;
    }
    Ok(out)
}

/// The machine word a value is emitted as.
/// The machine word a value is emitted as.
pub fn value_bits(v: &Value) -> (r: u32)
    ensures
        r == spec_value_bits(*v),
{
    match v {
        Value::UnsignedInteger(u) => *u,
        Value::SignedInteger(i) => crate::alu::i32_to_bits(*i),
    }
}

/// The machine word a value is emitted as.
pub open spec fn spec_value_bits(v: Value) -> u32 {
    match v {
        Value::UnsignedInteger(u) => u,
        Value::SignedInteger(i) => from_i32(i),
    }
}

/// Appends the little-endian bytes of a word.
fn push_word_le(code: &mut Vec<u8>, w: u32)
    ensures
        final(code)@ == old(code)@ + seq![
            word_byte(w, 0),
            word_byte(w, 1),
            word_byte(w, 2),
            word_byte(w, 3),
        ],
{
    proof {
        lemma_word_bytes(w);
    }
    let ghost prev = code@;
    code.push((w & 0xFF) as u8);
    code.push(((w >> 8) & 0xFF) as u8);
    code.push(((w >> 16) & 0xFF) as u8);
    code.push(((w >> 24) & 0xFF) as u8);
    proof {
        assert(code@ =~= prev + seq![
            word_byte(w, 0),
            word_byte(w, 1),
            word_byte(w, 2),
            word_byte(w, 3),
        ]);
    }
}

/// The instruction word of a command: the opcode above three packed
/// 7-bit operand specifiers, unused specifiers filling with zero.
pub open spec fn spec_command_word(op: u32, specs: Seq<u8>) -> u32
    decreases specs.len(),
{
    if specs.len() == 0 {
        op
    } else {
        (spec_command_word(op, specs.drop_last()) << 7) | (specs.last() as u32)
    }
}

/// The operand specifier an argument is encoded as: `0x7F` for an inline
/// literal, the register number, or the stack marker `0x7E`.
pub open spec fn spec_arg_spec(a: Arg) -> u8 {
    match a {
        Arg::Expr(_) => 0x7F,
        Arg::Register(r) => (r & 0x7F) as u8,
        Arg::Stack => 0x7E,
    }
}

/// Encodes a command word; see [`spec_command_word`] and
/// [`spec_arg_spec`].
fn encode_command_word(op: u32, args: &Vec<Arg>) -> (w: u32)
    requires
        op < 2048,
        args@.len() <= 3,
    ensures
        w == spec_command_word(op, args@.map_values(|a: Arg| spec_arg_spec(a)).add(
            Seq::new((3 - args@.len()) as nat, |i: int| 0u8),
        )),
{
    let mut w: u32 = op;
    let mut i: usize = 0;
    while i < args.len()
        invariant
            i <= args@.len() <= 3,
            w == spec_command_word(
                op,
                args@.subrange(0, i as int).map_values(|a: Arg| spec_arg_spec(a)),
            ),
        decreases args@.len() - i,
    {
        let sp: u32 = match &args[i] {
            Arg::Expr(_) => 0x7F,
            Arg::Register(r) => *r & 0x7F,
            Arg::Stack => 0x7E,
        };
        w = (w << 7) | sp;
        i = i + 1;
        proof {
            let specs = args@.subrange(0, i as int).map_values(|a: Arg| spec_arg_spec(a));
            assert(specs.drop_last() =~= args@.subrange(0, i - 1).map_values(
                |a: Arg| spec_arg_spec(a),
            ));
            lemma_spec_byte_fits(args@[i - 1]);
        }
    }
    proof {
        assert(args@.subrange(0, args@.len() as int) =~= args@);
        assert(args@.map_values(|a: Arg| spec_arg_spec(a)).add(
            Seq::new(0, |i: int| 0u8),
        ) =~= args@.map_values(|a: Arg| spec_arg_spec(a)));
    }
    let mut fill: usize = args.len();
    while fill < 3
        invariant
            args@.len() <= fill <= 3,
            w == spec_command_word(op, args@.map_values(|a: Arg| spec_arg_spec(a)).add(
                Seq::new((fill - args@.len()) as nat, |i: int| 0u8),
            )),
        decreases 3 - fill,
    {
        w = (w << 7) | 0;
        fill = fill + 1;
        proof {
            let specs = args@.map_values(|a: Arg| spec_arg_spec(a)).add(
                Seq::new((fill - args@.len()) as nat, |i: int| 0u8),
            );
            assert(specs.drop_last() =~= args@.map_values(|a: Arg| spec_arg_spec(a)).add(
                Seq::new((fill - 1 - args@.len()) as nat, |i: int| 0u8),
            ));
        }
    }
    w
}

/// An encoded operand specifier fits seven bits.
proof fn lemma_spec_byte_fits(a: Arg)
    ensures
        spec_arg_spec(a) < 128,
        (spec_arg_spec(a) as u32) == match a {
            Arg::Expr(_) => 0x7Fu32,
            Arg::Register(r) => r & 0x7F,
            Arg::Stack => 0x7Eu32,
        },
{
    match a {
        Arg::Register(r) => {
            assert(r & 0x7F < 128 && (((r & 0x7F) as u8) as u32) == r & 0x7F) by (bit_vector);
        },
        _ => {},
    }
}

/// The width of a datum in the image.
pub open spec fn spec_data_width(d: Data) -> int {
    match d {
        Data::Ascii(bytes) => bytes@.len() as int,
        Data::U32(_) | Data::I32(_) => 4,
        Data::U16(_) | Data::I16(_) => 2,
        Data::U8(_) | Data::I8(_) => 1,
    }
}

/// The layout pass as a function: walks the instructions keeping the
/// output address, binding labels to it and variables to their values
/// (deferring the ones that cannot be computed yet), and yields the
/// finished table together with the final output address.  `None` is
/// any of the layout errors: a malformed location, an address
/// regression, too many operands, or an image past the address space.
pub open spec fn slayout(
    instrs: Seq<(usize, Instruction)>,
    i: int,
    env: Seq<(Seq<char>, Value)>,
    addr: int,
) -> Option<(Seq<(Seq<char>, Value)>, int)>
    decreases instrs.len() - i,
{
    if i < 0 || i >= instrs.len() {
        Some((env, addr))
    } else {
        match instrs[i].1 {
            Instruction::Variable(name, e) => match crate::expr::seval(e, env) {
                Some(v) => slayout(instrs, i + 1, env.push((name@, v)), addr),
                None => slayout(instrs, i + 1, env, addr),
            },
            Instruction::Location(e) => match crate::expr::seval(e, env) {
                Some(Value::UnsignedInteger(u)) => if (u as int) < addr {
                    None
                } else {
                    slayout(instrs, i + 1, env, u as int)
                },
                _ => None,
            },
            Instruction::Label(l) => slayout(
                instrs,
                i + 1,
                env.push((l@, Value::UnsignedInteger(addr as u32))),
                addr,
            ),
            Instruction::Command(_, args) => if args@.len() > 3 {
                None
            } else {
                let size = 4 + 4 * count_lit_args(args@);
                if addr + size > 0xFFFF_FFFF {
                    None
                } else {
                    slayout(instrs, i + 1, env, addr + size)
                }
            },
            Instruction::Data(d) => if spec_data_width(d) > 0xFFFF_FFFF || addr + spec_data_width(
                d,
            ) > 0xFFFF_FFFF {
                None
            } else {
                slayout(instrs, i + 1, env, addr + spec_data_width(d))
            },
            Instruction::Include(_) => None,
        }
    }
}

/// Appending an operand extends its literal count by one when it is a
/// literal.
proof fn lemma_count_lit_push(s: Seq<Arg>, x: Arg)
    ensures
        count_lit_args(s.push(x)) == count_lit_args(s) + (if x is Expr {
            1int
        } else {
            0int
        }),
    decreases s.len(),
{
    if s.len() == 0 {
        assert(s.push(x).drop_first() =~= Seq::<Arg>::empty());
        assert(s.push(x).first() == x);
        assert(count_lit_args(Seq::<Arg>::empty()) == 0);
    } else {
        assert(s.push(x).drop_first() =~= s.drop_first().push(x));
        assert(s.push(x).first() == s.first());
        lemma_count_lit_push(s.drop_first(), x);
    }
}

/// The first pass: lays the program out, binding labels and variables;
/// the table it returns is exactly [`slayout`] of the instruction list.
/// Variables whose value cannot be computed yet are skipped; the second
/// pass holds them to account.
fn layout_pass(instrs: &Vec<(usize, Instruction)>) -> (r: Result<Env, Error>)
    ensures
        match slayout(instrs@, 0, Seq::empty(), 0) {
            Some(p) => r matches Ok(v) && crate::expr::env_view(v@) == p.0,
            None => r is Err,
        },
{
    let mut vars: Env = Vec::new();
    let mut addr: u32 = 0;
    let mut i: usize = 0;
    proof {
        assert(crate::expr::env_view(Seq::<(String, Value)>::empty())
            =~= Seq::<(Seq<char>, Value)>::empty());
        assert(crate::expr::env_view(vars@) =~= Seq::<(Seq<char>, Value)>::empty());
    }
    while i < instrs.len()
        invariant
            i <= instrs@.len(),
            slayout(instrs@, 0, Seq::empty(), 0) == slayout(
                instrs@,
                i as int,
                crate::expr::env_view(vars@),
                addr as int,
            ),
        decreases instrs@.len() - i,
    {
        let ghost env_now = crate::expr::env_view(vars@);
        let line = instrs[i].0;
        match &instrs[i].1 {
            Instruction::Variable(name, e) => {
                match eval(e, &vars, line) {
                    Ok(v) => {
                        vars.push((name.clone(), v));
                        proof {
                            assert(crate::expr::env_view(vars@) =~= env_now.push((name@, v)));
                        }
                    },
                    Err(_) => {
                        // Deferred: the value may depend on a later label.
                    },
                }
            },
            Instruction::Location(e) => {
                let v = eval(e, &vars, line)?;
                let target = match v {
                    Value::UnsignedInteger(u) => u,
                    Value::SignedInteger(_) => {
                        return Err(
                            Error::at_line("a location must be an unsigned integer", line),
                        );
                    },
                };
                if target < addr {
                    return Err(Error::at_line("location is already behind this address", line));
                }
                addr = target;
            },
            Instruction::Label(l) => {
                vars.push((l.clone(), Value::UnsignedInteger(addr)));
                proof {
                    assert(crate::expr::env_view(vars@) =~= env_now.push((
                        l@,
                        Value::UnsignedInteger(addr),
                    )));
                }
            },
            Instruction::Command(_, args) => {
                if args.len() > 3 {
                    return Err(Error::at_line("an instruction takes at most three operands", line));
                }
                let mut size: u32 = 4;
                let mut j: usize = 0;
                while j < args.len()
                    invariant
                        j <= args@.len() <= 3,
                        size == 4 + 4 * count_lit_args(args@.subrange(0, j as int)),
                        size <= 4 + 4 * j,
                    decreases args@.len() - j,
                {
                    let ghost prefix = args@.subrange(0, j as int);
                    proof {
                        assert(args@.subrange(0, j + 1) =~= prefix.push(args@[j as int]));
                        lemma_count_lit_push(prefix, args@[j as int]);
                    }
                    if matches!(&args[j], Arg::Expr(_)) {
                        size = size + 4;
                    }
                    j = j + 1;
                }
                proof {
                    assert(args@.subrange(0, args@.len() as int) =~= args@);
                }
                if addr as u64 + size as u64 > 0xFFFF_FFFFu64 {
                    return Err(Error::at_line("the image does not fit the address space", line));
                }
                addr = addr + size;
            },
            Instruction::Data(d) => {
                let width: usize = match d {
                    Data::Ascii(bytes) => bytes.len(),
                    Data::U32(_) | Data::I32(_) => 4,
                    Data::U16(_) | Data::I16(_) => 2,
                    Data::U8(_) | Data::I8(_) => 1,
                };
                if width as u64 > 0xFFFF_FFFFu64 || addr as u64 + width as u64
                    > 0xFFFF_FFFFu64 {
                    return Err(Error::at_line("the image does not fit the address space", line));
                }
                addr = addr + width as u32;
            },
            Instruction::Include(_) => {
                return Err(
                    Error::at_line("includes must be resolved before assembling", line),
                );
            },
        }
        i = i + 1;
    }
    Ok(vars)
}

/// The inline-literal words of a command's arguments, in operand order;
/// `None` when any literal expression fails to evaluate.
pub open spec fn spec_lit_words(args: Seq<Arg>, env: Seq<(Seq<char>, Value)>) -> Option<Seq<u32>>
    decreases args.len(),
{
    if args.len() == 0 {
        Some(Seq::empty())
    } else {
        let rest = spec_lit_words(args.drop_first(), env);
        match args.first() {
            Arg::Expr(e) => match crate::expr::seval(e, env) {
                Some(v) => match rest {
                    Some(ws) => Some(seq![spec_value_bits(v)] + ws),
                    None => None,
                },
                None => None,
            },
            _ => rest,
        }
    }
}

/// The little-endian bytes of a word list.
pub open spec fn words_le_bytes(ws: Seq<u32>) -> Seq<u8>
    decreases ws.len(),
{
    if ws.len() == 0 {
        Seq::empty()
    } else {
        seq![
            word_byte(ws.first(), 0),
            word_byte(ws.first(), 1),
            word_byte(ws.first(), 2),
            word_byte(ws.first(), 3),
        ] + words_le_bytes(ws.drop_first())
    }
}

/// The bytes one command emits under an environment: the packed
/// instruction word, then one little-endian word per inline literal.
/// `None` is any of the failures — an unknown mnemonic, more than three
/// operands, or a literal that does not evaluate.
pub open spec fn spec_command_bytes(
    name: Seq<char>,
    args: Seq<Arg>,
    env: Seq<(Seq<char>, Value)>,
) -> Option<Seq<u8>> {
    match spec_opcode_of_name(name) {
        Some(op) => if args.len() > 3 {
            None
        } else {
            match spec_lit_words(args, env) {
                Some(ws) => {
                    let w = spec_command_word(
                        op,
                        args.map_values(|a: Arg| spec_arg_spec(a)).add(
                            Seq::new((3 - args.len()) as nat, |i: int| 0u8),
                        ),
                    );
                    Some(
                        seq![word_byte(w, 0), word_byte(w, 1), word_byte(w, 2), word_byte(w, 3)]
                            + words_le_bytes(ws),
                    )
                },
                None => None,
            }
        },
        None => None,
    }
}

/// How many of a command's operands are inline literals.
pub open spec fn count_lit_args(args: Seq<Arg>) -> int
    decreases args.len(),
{
    if args.len() == 0 {
        0
    } else {
        (if args.first() is Expr {
            1int
        } else {
            0int
        }) + count_lit_args(args.drop_first())
    }
}

/// A command that emits at all emits exactly four bytes for its packed
/// word plus four per inline literal: the very amount the layout pass
/// advances its address by, so a label bound after the command stands at
/// the address its bytes end.
pub proof fn lemma_command_size(name: Seq<char>, args: Seq<Arg>, env: Seq<(Seq<char>, Value)>)
    requires
        spec_command_bytes(name, args, env) is Some,
    ensures
        spec_command_bytes(name, args, env).unwrap().len() == 4 + 4 * count_lit_args(args),
{
    lemma_lit_words_count(args, env);
    lemma_words_le_bytes_len(spec_lit_words(args, env).unwrap());
}

/// A datum that emits at all emits exactly its declared width: the
/// amount the layout pass advances its address by.
pub proof fn lemma_data_size(d: Data, env: Seq<(Seq<char>, Value)>)
    requires
        spec_data_bytes(d, env) is Some,
    ensures
        spec_data_bytes(d, env).unwrap().len() == spec_data_width(d),
{
}

/// The literal words of a command are one per literal operand.
proof fn lemma_lit_words_count(args: Seq<Arg>, env: Seq<(Seq<char>, Value)>)
    requires
        spec_lit_words(args, env) is Some,
    ensures
        spec_lit_words(args, env).unwrap().len() == count_lit_args(args),
    decreases args.len(),
{
    if args.len() > 0 {
        lemma_lit_words_count(args.drop_first(), env);
    }
}

/// A word list's bytes are four per word.
proof fn lemma_words_le_bytes_len(ws: Seq<u32>)
    ensures
        words_le_bytes(ws).len() == 4 * ws.len(),
    decreases ws.len(),
{
    if ws.len() > 0 {
        lemma_words_le_bytes_len(ws.drop_first());
    }
}

/// Splitting an argument list splits its literal words.
proof fn lemma_lit_words_concat(a: Seq<Arg>, b: Seq<Arg>, env: Seq<(Seq<char>, Value)>)
    ensures
        spec_lit_words(a + b, env) == (match spec_lit_words(a, env) {
            Some(x) => match spec_lit_words(b, env) {
                Some(y) => Some(x + y),
                None => None,
            },
            None => None,
        }),
    decreases a.len(),
{
    if a.len() == 0 {
        assert(a + b =~= b);
        if spec_lit_words(b, env) is Some {
            assert(Seq::<u32>::empty() + spec_lit_words(b, env).unwrap() =~= spec_lit_words(
                b,
                env,
            ).unwrap());
        }
    } else {
        assert((a + b).drop_first() =~= a.drop_first() + b);
        assert((a + b).first() == a.first());
        lemma_lit_words_concat(a.drop_first(), b, env);
        match a.first() {
            Arg::Expr(e) => {
                match crate::expr::seval(e, env) {
                    Some(v) => {
                        if spec_lit_words(a.drop_first(), env) is Some && spec_lit_words(
                            b,
                            env,
                        ) is Some {
                            assert(seq![spec_value_bits(v)] + (spec_lit_words(
                                a.drop_first(),
                                env,
                            ).unwrap() + spec_lit_words(b, env).unwrap()) =~= (seq![
                                spec_value_bits(v),
                            ] + spec_lit_words(a.drop_first(), env).unwrap()) + spec_lit_words(
                                b,
                                env,
                            ).unwrap());
                        }
                    },
                    None => {},
                }
            },
            _ => {},
        }
    }
}

/// Emits one command: the packed word, then its literals; the emitted
/// bytes are exactly [`spec_command_bytes`].
fn emit_command(code: &mut Vec<u8>, name: &String, args: &Vec<Arg>, vars: &Env, line: usize) -> (r:
    Result<(), Error>)
    ensures
        match spec_command_bytes(name@, args@, crate::expr::env_view(vars@)) {
            Some(bs) => r is Ok && final(code)@ == old(code)@ + bs,
            None => r is Err && final(code)@ == old(code)@,
        },
{
    let ghost env = crate::expr::env_view(vars@);
    let op = match opcode_of_name(name) {
        Some(op) => op,
        None => {
            return Err(Error::at_line("unknown instruction", line));
        },
    };
    if args.len() > 3 {
        return Err(Error::at_line("an instruction takes at most three operands", line));
    }
    let mut lit_vals: Vec<u32> = Vec::new();
    let mut j: usize = 0;
    while j < args.len()
        invariant
            j <= args@.len(),
            env == crate::expr::env_view(vars@),
            spec_lit_words(args@.subrange(0, j as int), env) == Some(lit_vals@),
        decreases args@.len() - j,
    {
        let ghost prefix = args@.subrange(0, j as int);
        let ghost one = args@.subrange(j as int, j + 1);
        proof {
            assert(args@.subrange(0, j + 1) =~= prefix + one);
            assert(one.drop_first() =~= Seq::<Arg>::empty());
            lemma_lit_words_concat(prefix, one, env);
        }
        match &args[j] {
            Arg::Expr(e) => {
                let v = match eval(e, vars, line) {
                    Ok(v) => v,
                    Err(err) => {
                        proof {
                            assert(spec_lit_words(one, env) is None);
                            assert(args@ =~= args@.subrange(0, j + 1) + args@.subrange(
                                j + 1,
                                args@.len() as int,
                            ));
                            lemma_lit_words_concat(
                                args@.subrange(0, j + 1),
                                args@.subrange(j + 1, args@.len() as int),
                                env,
                            );
                        }
                        return Err(err);
                    },
                };
                lit_vals.push(value_bits(&v));
                proof {
                    assert(one.first() == args@[j as int]);
                    assert(spec_lit_words(one.drop_first(), env) == Some(Seq::<u32>::empty()));
                    assert(seq![spec_value_bits(v)] + Seq::<u32>::empty() =~= seq![
                        spec_value_bits(v),
                    ]);
                    assert(spec_lit_words(one, env) == Some(seq![spec_value_bits(v)]));
                    assert(lit_vals@ =~= lit_vals@.drop_last() + seq![spec_value_bits(v)]);
                }
            },
            _ => {
                proof {
                    assert(one.first() == args@[j as int]);
                    assert(spec_lit_words(one.drop_first(), env) == Some(Seq::<u32>::empty()));
                    assert(spec_lit_words(one, env) == Some(Seq::<u32>::empty()));
                    assert(lit_vals@ + Seq::<u32>::empty() =~= lit_vals@);
                }
            },
        }
        j = j + 1;
    }
    proof {
        assert(args@.subrange(0, args@.len() as int) =~= args@);
    }
    let w = encode_command_word(op, args);
    let ghost before = code@;
    push_word_le(code, w);
    let mut k: usize = 0;
    while k < lit_vals.len()
        invariant
            k <= lit_vals@.len(),
            code@ =~= before + seq![word_byte(w, 0), word_byte(w, 1), word_byte(w, 2), word_byte(
                w,
                3,
            )] + words_le_bytes(lit_vals@.subrange(0, k as int)),
        decreases lit_vals@.len() - k,
    {
        let ghost prefix = lit_vals@.subrange(0, k as int);
        push_word_le(code, lit_vals[k]);
        k = k + 1;
        proof {
            let ghost now = lit_vals@.subrange(0, k as int);
            lemma_words_le_bytes_push(prefix, lit_vals@[k - 1]);
            assert(now =~= prefix.push(lit_vals@[k - 1]));
            assert(code@ =~= before + seq![word_byte(w, 0), word_byte(w, 1), word_byte(
                w,
                2,
            ), word_byte(w, 3)] + words_le_bytes(now));
        }
    }
    proof {
        assert(lit_vals@.subrange(0, lit_vals@.len() as int) =~= lit_vals@);
        assert(code@ =~= before + (seq![word_byte(w, 0), word_byte(w, 1), word_byte(w, 2), word_byte(
            w,
            3,
        )] + words_le_bytes(lit_vals@)));
    }
    Ok(())
}

/// Appending a word appends its bytes.
proof fn lemma_words_le_bytes_push(ws: Seq<u32>, v: u32)
    ensures
        words_le_bytes(ws.push(v)) == words_le_bytes(ws) + seq![
            word_byte(v, 0),
            word_byte(v, 1),
            word_byte(v, 2),
            word_byte(v, 3),
        ],
    decreases ws.len(),
{
    if ws.len() == 0 {
        assert(ws.push(v).drop_first() =~= Seq::<u32>::empty());
        assert(words_le_bytes(Seq::<u32>::empty()) =~= Seq::<u8>::empty());
        assert(ws.push(v).first() == v);
        assert(words_le_bytes(ws.push(v)) =~= words_le_bytes(ws) + seq![
            word_byte(v, 0),
            word_byte(v, 1),
            word_byte(v, 2),
            word_byte(v, 3),
        ]);
    } else {
        assert(ws.push(v).drop_first() =~= ws.drop_first().push(v));
        assert(ws.push(v).first() == ws.first());
        lemma_words_le_bytes_push(ws.drop_first(), v);
        assert(words_le_bytes(ws.push(v)) =~= words_le_bytes(ws) + seq![
            word_byte(v, 0),
            word_byte(v, 1),
            word_byte(v, 2),
            word_byte(v, 3),
        ]);
    }
}

/// The bytes one datum emits under an environment: `None` is any of the
/// failures — an expression error, a value of the wrong kind, or one
/// outside the declared width.
pub open spec fn spec_data_bytes(d: Data, env: Seq<(Seq<char>, Value)>) -> Option<Seq<u8>> {
    match d {
        Data::Ascii(bytes) => Some(bytes@),
        Data::U32(e) => match crate::expr::seval(e, env) {
            Some(Value::UnsignedInteger(u)) => Some(
                seq![word_byte(u, 0), word_byte(u, 1), word_byte(u, 2), word_byte(u, 3)],
            ),
            _ => None,
        },
        Data::I32(e) => match crate::expr::seval(e, env) {
            Some(Value::SignedInteger(v)) => Some(
                seq![
                    word_byte(from_i32(v), 0),
                    word_byte(from_i32(v), 1),
                    word_byte(from_i32(v), 2),
                    word_byte(from_i32(v), 3),
                ],
            ),
            _ => None,
        },
        Data::U16(e) => match crate::expr::seval(e, env) {
            Some(Value::UnsignedInteger(u)) => if u > 0xFFFF {
                None
            } else {
                Some(seq![word_byte(u, 0), word_byte(u, 1)])
            },
            _ => None,
        },
        Data::I16(e) => match crate::expr::seval(e, env) {
            Some(Value::SignedInteger(v)) => if v > 32767 || v < -32768 {
                None
            } else {
                Some(seq![word_byte(from_i32(v), 0), word_byte(from_i32(v), 1)])
            },
            _ => None,
        },
        Data::U8(e) => match crate::expr::seval(e, env) {
            Some(Value::UnsignedInteger(u)) => if u > 0xFF {
                None
            } else {
                Some(seq![word_byte(u, 0)])
            },
            _ => None,
        },
        Data::I8(e) => match crate::expr::seval(e, env) {
            Some(Value::SignedInteger(v)) => if v > 127 || v < -128 {
                None
            } else {
                Some(seq![word_byte(from_i32(v), 0)])
            },
            _ => None,
        },
    }
}

/// Appends bytes to the image.
fn append_bytes(code: &mut Vec<u8>, bytes: &Vec<u8>)
    ensures
        final(code)@ == old(code)@ + bytes@,
{
    let ghost prev = code@;
    let mut i: usize = 0;
    while i < bytes.len()
        invariant
            i <= bytes@.len(),
            code@ =~= prev + bytes@.subrange(0, i as int),
        decreases bytes@.len() - i,
    {
        code.push(bytes[i]);
        i = i + 1;
        proof {
            assert(code@ =~= prev + bytes@.subrange(0, i as int));
        }
    }
    proof {
        assert(bytes@.subrange(0, bytes@.len() as int) =~= bytes@);
    }
}

/// Emits one datum, checking its kind and range against the declared
/// width; the emitted bytes are exactly [`spec_data_bytes`].
fn emit_data(code: &mut Vec<u8>, d: &Data, vars: &Env, line: usize) -> (r: Result<(), Error>)
    ensures
        match spec_data_bytes(*d, crate::expr::env_view(vars@)) {
            Some(bs) => r is Ok && final(code)@ == old(code)@ + bs,
            None => r is Err && final(code)@ == old(code)@,
        },
{
    match d {
        Data::Ascii(bytes) => {
            append_bytes(code, bytes);
            Ok(())
        },
        Data::U32(e) => {
            match eval(e, vars, line)? {
                Value::UnsignedInteger(u) => {
                    push_word_le(code, u);
                    Ok(())
                },
                _ => Err(Error::at_line("`.u32` needs an unsigned value", line)),
            }
        },
        Data::I32(e) => {
            match eval(e, vars, line)? {
                Value::SignedInteger(v) => {
                    push_word_le(code, crate::alu::i32_to_bits(v));
                    Ok(())
                },
                _ => Err(Error::at_line("`.i32` needs a signed value", line)),
            }
        },
        Data::U16(e) => {
            match eval(e, vars, line)? {
                Value::UnsignedInteger(u) => {
                    if u > 0xFFFF {
                        return Err(Error::at_line("value out of range for `.u16`", line));
                    }
                    proof {
                        lemma_word_bytes(u);
                    }
                    let ghost prev = code@;
                    code.push((u & 0xFF) as u8);
                    code.push(((u >> 8) & 0xFF) as u8);
                    proof {
                        assert(code@ =~= prev + seq![word_byte(u, 0), word_byte(u, 1)]);
                    }
                    Ok(())
                },
                _ => Err(Error::at_line("`.u16` needs an unsigned value", line)),
            }
        },
        Data::I16(e) => {
            match eval(e, vars, line)? {
                Value::SignedInteger(v) => {
                    if v > 32767 || v < -32768 {
                        return Err(Error::at_line("value out of range for `.i16`", line));
                    }
                    let bits = crate::alu::i32_to_bits(v);
                    proof {
                        lemma_word_bytes(bits);
                    }
                    let ghost prev = code@;
                    code.push((bits & 0xFF) as u8);
                    code.push(((bits >> 8) & 0xFF) as u8);
                    proof {
                        assert(code@ =~= prev + seq![word_byte(bits, 0), word_byte(bits, 1)]);
                    }
                    Ok(())
                },
                _ => Err(Error::at_line("`.i16` needs a signed value", line)),
            }
        },
        Data::U8(e) => {
            match eval(e, vars, line)? {
                Value::UnsignedInteger(u) => {
                    if u > 0xFF {
                        return Err(Error::at_line("value out of range for `.u8`", line));
                    }
                    proof {
                        lemma_word_bytes(u);
                    }
                    let ghost prev = code@;
                    code.push((u & 0xFF) as u8);
                    proof {
                        assert(code@ =~= prev + seq![word_byte(u, 0)]);
                    }
                    Ok(())
                },
                _ => Err(Error::at_line("`.u8` needs an unsigned value", line)),
            }
        },
        Data::I8(e) => {
            match eval(e, vars, line)? {
                Value::SignedInteger(v) => {
                    if v > 127 || v < -128 {
                        return Err(Error::at_line("value out of range for `.i8`", line));
                    }
                    let bits = crate::alu::i32_to_bits(v);
                    proof {
                        lemma_word_bytes(bits);
                    }
                    let ghost prev = code@;
                    code.push((bits & 0xFF) as u8);
                    proof {
                        assert(code@ =~= prev + seq![word_byte(bits, 0)]);
                    }
                    Ok(())
                },
                _ => Err(Error::at_line("`.i8` needs a signed value", line)),
            }
        },
    }
}

/// A run of zero filler bytes.
pub open spec fn zero_bytes(n: int) -> Seq<u8> {
    Seq::new(n as nat, |i: int| 0u8)
}

/// The emit pass as a function: walks the instructions with the finished
/// table, appending each command's and datum's bytes and padding with
/// zeros up to each location target.  `None` is any of the emission
/// errors.
pub open spec fn semit(
    instrs: Seq<(usize, Instruction)>,
    i: int,
    env: Seq<(Seq<char>, Value)>,
    code: Seq<u8>,
) -> Option<Seq<u8>>
    decreases instrs.len() - i,
{
    if i < 0 || i >= instrs.len() {
        Some(code)
    } else {
        match instrs[i].1 {
            Instruction::Variable(name, e) => match crate::expr::seval(e, env) {
                Some(v) => semit(instrs, i + 1, env.push((name@, v)), code),
                None => None,
            },
            Instruction::Location(e) => match crate::expr::seval(e, env) {
                Some(Value::UnsignedInteger(u)) => if (u as int) < code.len() {
                    None
                } else {
                    semit(instrs, i + 1, env, code + zero_bytes(u - code.len()))
                },
                _ => None,
            },
            Instruction::Label(_) => semit(instrs, i + 1, env, code),
            Instruction::Command(name, args) => match spec_command_bytes(name@, args@, env) {
                Some(bs) => semit(instrs, i + 1, env, code + bs),
                None => None,
            },
            Instruction::Data(d) => match spec_data_bytes(d, env) {
                Some(bs) => semit(instrs, i + 1, env, code + bs),
                None => None,
            },
            Instruction::Include(_) => None,
        }
    }
}

/// A block of instructions that only binds labels and emits commands
/// and data: no location moves and no variable bindings.
pub open spec fn plain_block(instrs: Seq<(usize, Instruction)>, i: int) -> bool {
    forall|k: int|
        i <= k < instrs.len() ==> match (#[trigger] instrs[k]).1 {
            Instruction::Label(_) => true,
            Instruction::Command(_, _) => true,
            Instruction::Data(_) => true,
            _ => false,
        }
}

/// The two passes agree on addresses: over a block of labels, commands
/// and data, the image the emit pass produces is exactly as long as the
/// address the layout pass ends at.  Since a label is bound to the
/// running address the moment the layout pass meets it, every label in
/// such a block names the byte offset at which the content after it is
/// emitted — a load of the image therefore finds each labeled datum at
/// its label's address.
pub proof fn lemma_pass_agreement(
    instrs: Seq<(usize, Instruction)>,
    i: int,
    env_emit: Seq<(Seq<char>, Value)>,
    env_lay: Seq<(Seq<char>, Value)>,
    code: Seq<u8>,
    addr: int,
)
    requires
        plain_block(instrs, i),
        addr == code.len(),
        slayout(instrs, i, env_lay, addr) is Some,
        semit(instrs, i, env_emit, code) is Some,
    ensures
        semit(instrs, i, env_emit, code).unwrap().len() == slayout(
            instrs,
            i,
            env_lay,
            addr,
        ).unwrap().1,
    decreases instrs.len() - i,
{
    if 0 <= i < instrs.len() {
        match instrs[i].1 {
            Instruction::Label(l) => {
                lemma_pass_agreement(
                    instrs,
                    i + 1,
                    env_emit,
                    env_lay.push((l@, Value::UnsignedInteger(addr as u32))),
                    code,
                    addr,
                );
            },
            Instruction::Command(name, args) => {
                let bs = spec_command_bytes(name@, args@, env_emit).unwrap();
                lemma_command_size(name@, args@, env_emit);
                lemma_pass_agreement(
                    instrs,
                    i + 1,
                    env_emit,
                    env_lay,
                    code + bs,
                    addr + 4 + 4 * count_lit_args(args@),
                );
            },
            Instruction::Data(d) => {
                let bs = spec_data_bytes(d, env_emit).unwrap();
                lemma_data_size(d, env_emit);
                lemma_pass_agreement(instrs, i + 1, env_emit, env_lay, code + bs, addr
                    + spec_data_width(d));
            },
            _ => {},
        }
    }
}

/// The second pass: evaluates every expression against the finished
/// table and emits the image bytes — exactly [`semit`] of the
/// instruction list under the table.
#[verifier::loop_isolation(false)]
fn emit_pass(instrs: &Vec<(usize, Instruction)>, vars0: Env) -> (r: Result<Vec<u8>, Error>)
    ensures
        match semit(instrs@, 0, crate::expr::env_view(vars0@), Seq::empty()) {
            Some(bs) => r matches Ok(c) && c@ == bs,
            None => r is Err,
        },
{
    let ghost env0 = crate::expr::env_view(vars0@);
    let mut vars = vars0;
    let mut code: Vec<u8> = Vec::new();
    let mut i: usize = 0;
    proof {
        assert(code@ =~= Seq::<u8>::empty());
    }
    while i < instrs.len()
        invariant
            i <= instrs@.len(),
            semit(instrs@, 0, env0, Seq::empty()) == semit(
                instrs@,
                i as int,
                crate::expr::env_view(vars@),
                code@,
            ),
        decreases instrs@.len() - i,
    {
        let ghost env_now = crate::expr::env_view(vars@);
        let line = instrs[i].0;
        match &instrs[i].1 {
            Instruction::Variable(name, e) => {
                let v = eval(e, &vars, line)?;
                vars.push((name.clone(), v));
                proof {
                    assert(crate::expr::env_view(vars@) =~= env_now.push((name@, v)));
                }
            },
            Instruction::Location(e) => {
                let target = match eval(e, &vars, line)? {
                    Value::UnsignedInteger(u) => u,
                    Value::SignedInteger(_) => {
                        return Err(
                            Error::at_line("a location must be an unsigned integer", line),
                        );
                    },
                };
                if (target as usize) < code.len() {
                    return Err(Error::at_line("location is already behind this address", line));
                }
                let ghost before = code@;
                while code.len() < target as usize
                    invariant
                        before.len() <= code@.len() <= target,
                        code@ =~= before + zero_bytes(code@.len() - before.len()),
                    decreases target as int - code@.len(),
                {
                    code.push(0);
                    proof {
                        assert(code@ =~= before + zero_bytes(code@.len() - before.len()));
                    }
                }
                proof {
                    assert(code@.len() == target);
                    assert(code@ =~= before + zero_bytes(target - before.len()));
                }
            },
            Instruction::Label(_) => {},
            Instruction::Command(name, args) => {
                emit_command(&mut code, name, args, &vars, line)?;
            },
            Instruction::Data(d) => {
                emit_data(&mut code, d, &vars, line)?;
            },
            Instruction::Include(_) => {
                return Err(
                    Error::at_line("includes must be resolved before assembling", line),
                );
            },
        }
        i = i + 1;
    }
    Ok(code)
}

/// Assembles a parsed instruction list into an image: the layout pass
/// binds every label, the emit pass produces the bytes.  The image is
/// exactly [`semit`] of the program under the table [`slayout`] builds.
pub fn assemble_program(instrs: &Vec<(usize, Instruction)>) -> (r: Result<Vec<u8>, Error>)
    ensures
        match slayout(instrs@, 0, Seq::empty(), 0) {
            Some(p) => match semit(instrs@, 0, p.0, Seq::empty()) {
                Some(bs) => r matches Ok(c) && c@ == bs,
                None => r is Err,
            },
            None => r is Err,
        },
{
    let vars = layout_pass(instrs)?;
    emit_pass(instrs, vars)
}

/// The image of an instruction list: the emit pass under the layout
/// pass's table.
pub open spec fn spec_assemble(instrs: Seq<(usize, Instruction)>) -> Option<Seq<u8>> {
    match slayout(instrs, 0, Seq::empty(), 0) {
        Some(p) => semit(instrs, 0, p.0, Seq::empty()),
        None => None,
    }
}

/// Assembles one source text (with no `!include` lines) into an image:
/// the text parses to [`spec_parse_source`], and the image is
/// [`spec_assemble`] of an instruction list carrying exactly that parse.
pub fn assemble_source(text: &str) -> (r: Result<Vec<u8>, Error>)
    ensures
        spec_parse_source(text.spec_bytes()) is None ==> r is Err,
        spec_parse_source(text.spec_bytes()) matches Some(ps) ==> (exists|
            instrs: Seq<(usize, Instruction)>,
        |
            {
                &&& #[trigger] parsed_view(instrs) == ps
                &&& match spec_assemble(instrs) {
                    Some(bs) => r matches Ok(c) && c@ == bs,
                    None => r is Err,
                }
            }),
{
    let instrs = parse_source(text)?;
    let r = assemble_program(&instrs);
    proof {
        if spec_parse_source(text.spec_bytes()) is Some {
            let ps = spec_parse_source(text.spec_bytes()).unwrap();
            assert(parsed_view(instrs@) == ps && match spec_assemble(instrs@) {
                Some(bs) => r matches Ok(c) && c@ == bs,
                None => r is Err,
            });
        }
    }
    r
}

} // verus!
