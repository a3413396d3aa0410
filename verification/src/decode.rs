//! The instruction decoder: mask/match descriptors for the base integer set
//! and the M extension, grouped into 128 buckets keyed by the low-7-bit
//! opcode. Decoding returns the first descriptor, in insertion order, whose
//! mask/match pair the word satisfies; the bucket lookup is proved to give
//! the same answer as a linear search of the whole table.

use vstd::prelude::*;

use crate::bits::sign_extend_64;
use crate::bits::spec_bit_32;
use crate::bits::spec_bits_32;
use crate::bits::spec_sign_extend_64;
use crate::bits::BitSlice;
use crate::config::EmuConfig;

verus! {

/// Which operation a descriptor stands for; the execution loop dispatches on
/// this.
#[derive(Debug, Clone, Copy, PartialEq, Eq, Structural)]
pub enum OpKind {
    Lui,
    Auipc,
    Jal,
    Jalr,
    Beq,
    Bne,
    Blt,
    Bge,
    Bltu,
    Bgeu,
    Lb,
    Lh,
    Lw,
    Lbu,
    Lhu,
    Sb,
    Sh,
    Sw,
    Addi,
    Slti,
    Sltiu,
    Xori,
    Ori,
    Andi,
    Slli,
    Srli,
    Srai,
    Add,
    Sub,
    Sll,
    Slt,
    Sltu,
    Xor,
    Srl,
    Sra,
    Or,
    And,
    Fence,
    Ecall,
    Ebreak,
    Addiw,
    Slliw,
    Srliw,
    Sraiw,
    Addw,
    Subw,
    Sllw,
    Srlw,
    Sraw,
    Ld,
    Lwu,
    Sd,
    Mul,
    Mulh,
    Mulhsu,
    Mulhu,
    Div,
    Divu,
    Rem,
    Remu,
    Mulw,
    Divw,
    Divuw,
    Remw,
    Remuw,
}

/// An immutable instruction descriptor: a 32-bit word `w` belongs to it iff
/// `w & mask == identifier`.
#[derive(Debug, Clone, Copy)]
pub struct Instruction {
    pub mask: u32,
    pub identifier: u32,
    pub name: &'static str,
    pub op: OpKind,
}

/// A decoding error.
#[derive(Debug, Clone, Copy, PartialEq, Eq, Structural)]
pub enum DecodeError {
    /// A compressed (16-bit) word, with no compressed set loaded.
    CompressedNotFound,
    /// No descriptor of the loaded sets matches the word.
    NotFound,
}

/// Whether the word belongs to the descriptor.
pub open spec fn inst_matches(d: Instruction, w: u32) -> bool {
    w & d.mask == d.identifier
}

/// The first descriptor of `s`, in order, that the word belongs to.
pub open spec fn first_match(s: Seq<Instruction>, w: u32) -> Option<Instruction>
    decreases s.len(),
{
    if s.len() == 0 {
        None
    } else if inst_matches(s[0], w) {
        Some(s[0])
    } else {
        first_match(s.drop_first(), w)
    }
}

/// The subsequence of descriptors whose low-7-bit opcode is `b`, in order.
pub open spec fn bucket_seq(s: Seq<Instruction>, b: u32) -> Seq<Instruction>
    decreases s.len(),
{
    if s.len() == 0 {
        Seq::empty()
    } else {
        bucket_seq(s.drop_last(), b) + (if s.last().identifier & 0x7F == b {
            seq![s.last()]
        } else {
            Seq::empty()
        })
    }
}

/// The base integer descriptors, in the order they are searched.
pub open spec fn rv_i_entries() -> Seq<Instruction> {
    seq![
        Instruction { mask: 0x0000007Fu32, identifier: 0x00000037u32, name: "lui", op: OpKind::Lui },
        Instruction { mask: 0x0000007Fu32, identifier: 0x00000017u32, name: "auipc", op: OpKind::Auipc },
        Instruction { mask: 0x0000007Fu32, identifier: 0x0000006Fu32, name: "jal", op: OpKind::Jal },
        Instruction { mask: 0x0000707Fu32, identifier: 0x00000067u32, name: "jalr", op: OpKind::Jalr },
        Instruction { mask: 0x0000707Fu32, identifier: 0x00000063u32, name: "beq", op: OpKind::Beq },
        Instruction { mask: 0x0000707Fu32, identifier: 0x00001063u32, name: "bne", op: OpKind::Bne },
        Instruction { mask: 0x0000707Fu32, identifier: 0x00004063u32, name: "blt", op: OpKind::Blt },
        Instruction { mask: 0x0000707Fu32, identifier: 0x00005063u32, name: "bge", op: OpKind::Bge },
        Instruction { mask: 0x0000707Fu32, identifier: 0x00006063u32, name: "bltu", op: OpKind::Bltu },
        Instruction { mask: 0x0000707Fu32, identifier: 0x00007063u32, name: "bgeu", op: OpKind::Bgeu },
        Instruction { mask: 0x0000707Fu32, identifier: 0x00000003u32, name: "lb", op: OpKind::Lb },
        Instruction { mask: 0x0000707Fu32, identifier: 0x00001003u32, name: "lh", op: OpKind::Lh },
        Instruction { mask: 0x0000707Fu32, identifier: 0x00002003u32, name: "lw", op: OpKind::Lw },
        Instruction { mask: 0x0000707Fu32, identifier: 0x00004003u32, name: "lbu", op: OpKind::Lbu },
        Instruction { mask: 0x0000707Fu32, identifier: 0x00005003u32, name: "lhu", op: OpKind::Lhu },
        Instruction { mask: 0x0000707Fu32, identifier: 0x00000023u32, name: "sb", op: OpKind::Sb },
        Instruction { mask: 0x0000707Fu32, identifier: 0x00001023u32, name: "sh", op: OpKind::Sh },
        Instruction { mask: 0x0000707Fu32, identifier: 0x00002023u32, name: "sw", op: OpKind::Sw },
        Instruction { mask: 0x0000707Fu32, identifier: 0x00000013u32, name: "addi", op: OpKind::Addi },
        Instruction { mask: 0x0000707Fu32, identifier: 0x00002013u32, name: "slti", op: OpKind::Slti },
        Instruction { mask: 0x0000707Fu32, identifier: 0x00003013u32, name: "sltiu", op: OpKind::Sltiu },
        Instruction { mask: 0x0000707Fu32, identifier: 0x00004013u32, name: "xori", op: OpKind::Xori },
        Instruction { mask: 0x0000707Fu32, identifier: 0x00006013u32, name: "ori", op: OpKind::Ori },
        Instruction { mask: 0x0000707Fu32, identifier: 0x00007013u32, name: "andi", op: OpKind::Andi },
        Instruction { mask: 0xFC00707Fu32, identifier: 0x00001013u32, name: "slli", op: OpKind::Slli },
        Instruction { mask: 0xFC00707Fu32, identifier: 0x00005013u32, name: "srli", op: OpKind::Srli },
        Instruction { mask: 0xFC00707Fu32, identifier: 0x40005013u32, name: "srai", op: OpKind::Srai },
        Instruction { mask: 0xFE00707Fu32, identifier: 0x00000033u32, name: "add", op: OpKind::Add },
        Instruction { mask: 0xFE00707Fu32, identifier: 0x40000033u32, name: "sub", op: OpKind::Sub },
        Instruction { mask: 0xFE00707Fu32, identifier: 0x00001033u32, name: "sll", op: OpKind::Sll },
        Instruction { mask: 0xFE00707Fu32, identifier: 0x00002033u32, name: "slt", op: OpKind::Slt },
        Instruction { mask: 0xFE00707Fu32, identifier: 0x00003033u32, name: "sltu", op: OpKind::Sltu },
        Instruction { mask: 0xFE00707Fu32, identifier: 0x00004033u32, name: "xor", op: OpKind::Xor },
        Instruction { mask: 0xFE00707Fu32, identifier: 0x00005033u32, name: "srl", op: OpKind::Srl },
        Instruction { mask: 0xFE00707Fu32, identifier: 0x40005033u32, name: "sra", op: OpKind::Sra },
        Instruction { mask: 0xFE00707Fu32, identifier: 0x00006033u32, name: "or", op: OpKind::Or },
        Instruction { mask: 0xFE00707Fu32, identifier: 0x00007033u32, name: "and", op: OpKind::And },
        Instruction { mask: 0x0000707Fu32, identifier: 0x0000000Fu32, name: "fence", op: OpKind::Fence },
        Instruction { mask: 0xFFFFFFFFu32, identifier: 0x00000073u32, name: "ecall", op: OpKind::Ecall },
        Instruction { mask: 0xFFFFFFFFu32, identifier: 0x00100073u32, name: "ebreak", op: OpKind::Ebreak },
        Instruction { mask: 0x0000707Fu32, identifier: 0x0000001Bu32, name: "addiw", op: OpKind::Addiw },
        Instruction { mask: 0xFE00707Fu32, identifier: 0x0000101Bu32, name: "slliw", op: OpKind::Slliw },
        Instruction { mask: 0xFE00707Fu32, identifier: 0x0000501Bu32, name: "srliw", op: OpKind::Srliw },
        Instruction { mask: 0xFE00707Fu32, identifier: 0x4000501Bu32, name: "sraiw", op: OpKind::Sraiw },
        Instruction { mask: 0xFE00707Fu32, identifier: 0x0000003Bu32, name: "addw", op: OpKind::Addw },
        Instruction { mask: 0xFE00707Fu32, identifier: 0x4000003Bu32, name: "subw", op: OpKind::Subw },
        Instruction { mask: 0xFE00707Fu32, identifier: 0x0000103Bu32, name: "sllw", op: OpKind::Sllw },
        Instruction { mask: 0xFE00707Fu32, identifier: 0x0000503Bu32, name: "srlw", op: OpKind::Srlw },
        Instruction { mask: 0xFE00707Fu32, identifier: 0x4000503Bu32, name: "sraw", op: OpKind::Sraw },
        Instruction { mask: 0x0000707Fu32, identifier: 0x00003003u32, name: "ld", op: OpKind::Ld },
        Instruction { mask: 0x0000707Fu32, identifier: 0x00006003u32, name: "lwu", op: OpKind::Lwu },
        Instruction { mask: 0x0000707Fu32, identifier: 0x00003023u32, name: "sd", op: OpKind::Sd },
    ]
}

/// The M-extension descriptors, searched after the base set.
pub open spec fn rv_m_entries() -> Seq<Instruction> {
    seq![
        Instruction { mask: 0xFE00707Fu32, identifier: 0x02000033u32, name: "mul", op: OpKind::Mul },
        Instruction { mask: 0xFE00707Fu32, identifier: 0x02001033u32, name: "mulh", op: OpKind::Mulh },
        Instruction { mask: 0xFE00707Fu32, identifier: 0x02002033u32, name: "mulhsu", op: OpKind::Mulhsu },
        Instruction { mask: 0xFE00707Fu32, identifier: 0x02003033u32, name: "mulhu", op: OpKind::Mulhu },
        Instruction { mask: 0xFE00707Fu32, identifier: 0x02004033u32, name: "div", op: OpKind::Div },
        Instruction { mask: 0xFE00707Fu32, identifier: 0x02005033u32, name: "divu", op: OpKind::Divu },
        Instruction { mask: 0xFE00707Fu32, identifier: 0x02006033u32, name: "rem", op: OpKind::Rem },
        Instruction { mask: 0xFE00707Fu32, identifier: 0x02007033u32, name: "remu", op: OpKind::Remu },
        Instruction { mask: 0xFE00707Fu32, identifier: 0x0200003Bu32, name: "mulw", op: OpKind::Mulw },
        Instruction { mask: 0xFE00707Fu32, identifier: 0x0200403Bu32, name: "divw", op: OpKind::Divw },
        Instruction { mask: 0xFE00707Fu32, identifier: 0x0200503Bu32, name: "divuw", op: OpKind::Divuw },
        Instruction { mask: 0xFE00707Fu32, identifier: 0x0200603Bu32, name: "remw", op: OpKind::Remw },
        Instruction { mask: 0xFE00707Fu32, identifier: 0x0200703Bu32, name: "remuw", op: OpKind::Remuw },
    ]
}

/// Build the base integer descriptor table.
#[verifier::rlimit(100)]
fn rv_i_table() -> (r: Vec<Instruction>)
    ensures
        r@ == rv_i_entries(),
{
    let mut v: Vec<Instruction> = Vec::new();
    v.push(Instruction { mask: 0x0000007F, identifier: 0x00000037, name: "lui", op: OpKind::Lui });
    v.push(Instruction { mask: 0x0000007F, identifier: 0x00000017, name: "auipc", op: OpKind::Auipc });
    v.push(Instruction { mask: 0x0000007F, identifier: 0x0000006F, name: "jal", op: OpKind::Jal });
    v.push(Instruction { mask: 0x0000707F, identifier: 0x00000067, name: "jalr", op: OpKind::Jalr });
    v.push(Instruction { mask: 0x0000707F, identifier: 0x00000063, name: "beq", op: OpKind::Beq });
    v.push(Instruction { mask: 0x0000707F, identifier: 0x00001063, name: "bne", op: OpKind::Bne });
    v.push(Instruction { mask: 0x0000707F, identifier: 0x00004063, name: "blt", op: OpKind::Blt });
    v.push(Instruction { mask: 0x0000707F, identifier: 0x00005063, name: "bge", op: OpKind::Bge });
    v.push(Instruction { mask: 0x0000707F, identifier: 0x00006063, name: "bltu", op: OpKind::Bltu });
    v.push(Instruction { mask: 0x0000707F, identifier: 0x00007063, name: "bgeu", op: OpKind::Bgeu });
    v.push(Instruction { mask: 0x0000707F, identifier: 0x00000003, name: "lb", op: OpKind::Lb });
    v.push(Instruction { mask: 0x0000707F, identifier: 0x00001003, name: "lh", op: OpKind::Lh });
    v.push(Instruction { mask: 0x0000707F, identifier: 0x00002003, name: "lw", op: OpKind::Lw });
    v.push(Instruction { mask: 0x0000707F, identifier: 0x00004003, name: "lbu", op: OpKind::Lbu });
    v.push(Instruction { mask: 0x0000707F, identifier: 0x00005003, name: "lhu", op: OpKind::Lhu });
    v.push(Instruction { mask: 0x0000707F, identifier: 0x00000023, name: "sb", op: OpKind::Sb });
    v.push(Instruction { mask: 0x0000707F, identifier: 0x00001023, name: "sh", op: OpKind::Sh });
    v.push(Instruction { mask: 0x0000707F, identifier: 0x00002023, name: "sw", op: OpKind::Sw });
    v.push(Instruction { mask: 0x0000707F, identifier: 0x00000013, name: "addi", op: OpKind::Addi });
    v.push(Instruction { mask: 0x0000707F, identifier: 0x00002013, name: "slti", op: OpKind::Slti });
    v.push(Instruction { mask: 0x0000707F, identifier: 0x00003013, name: "sltiu", op: OpKind::Sltiu });
    v.push(Instruction { mask: 0x0000707F, identifier: 0x00004013, name: "xori", op: OpKind::Xori });
    v.push(Instruction { mask: 0x0000707F, identifier: 0x00006013, name: "ori", op: OpKind::Ori });
    v.push(Instruction { mask: 0x0000707F, identifier: 0x00007013, name: "andi", op: OpKind::Andi });
    v.push(Instruction { mask: 0xFC00707F, identifier: 0x00001013, name: "slli", op: OpKind::Slli });
    v.push(Instruction { mask: 0xFC00707F, identifier: 0x00005013, name: "srli", op: OpKind::Srli });
    v.push(Instruction { mask: 0xFC00707F, identifier: 0x40005013, name: "srai", op: OpKind::Srai });
    v.push(Instruction { mask: 0xFE00707F, identifier: 0x00000033, name: "add", op: OpKind::Add });
    v.push(Instruction { mask: 0xFE00707F, identifier: 0x40000033, name: "sub", op: OpKind::Sub });
    v.push(Instruction { mask: 0xFE00707F, identifier: 0x00001033, name: "sll", op: OpKind::Sll });
    v.push(Instruction { mask: 0xFE00707F, identifier: 0x00002033, name: "slt", op: OpKind::Slt });
    v.push(Instruction { mask: 0xFE00707F, identifier: 0x00003033, name: "sltu", op: OpKind::Sltu });
    v.push(Instruction { mask: 0xFE00707F, identifier: 0x00004033, name: "xor", op: OpKind::Xor });
    v.push(Instruction { mask: 0xFE00707F, identifier: 0x00005033, name: "srl", op: OpKind::Srl });
    v.push(Instruction { mask: 0xFE00707F, identifier: 0x40005033, name: "sra", op: OpKind::Sra });
    v.push(Instruction { mask: 0xFE00707F, identifier: 0x00006033, name: "or", op: OpKind::Or });
    v.push(Instruction { mask: 0xFE00707F, identifier: 0x00007033, name: "and", op: OpKind::And });
    v.push(Instruction { mask: 0x0000707F, identifier: 0x0000000F, name: "fence", op: OpKind::Fence });
    v.push(Instruction { mask: 0xFFFFFFFF, identifier: 0x00000073, name: "ecall", op: OpKind::Ecall });
    v.push(Instruction { mask: 0xFFFFFFFF, identifier: 0x00100073, name: "ebreak", op: OpKind::Ebreak });
    v.push(Instruction { mask: 0x0000707F, identifier: 0x0000001B, name: "addiw", op: OpKind::Addiw });
    v.push(Instruction { mask: 0xFE00707F, identifier: 0x0000101B, name: "slliw", op: OpKind::Slliw });
    v.push(Instruction { mask: 0xFE00707F, identifier: 0x0000501B, name: "srliw", op: OpKind::Srliw });
    v.push(Instruction { mask: 0xFE00707F, identifier: 0x4000501B, name: "sraiw", op: OpKind::Sraiw });
    v.push(Instruction { mask: 0xFE00707F, identifier: 0x0000003B, name: "addw", op: OpKind::Addw });
    v.push(Instruction { mask: 0xFE00707F, identifier: 0x4000003B, name: "subw", op: OpKind::Subw });
    v.push(Instruction { mask: 0xFE00707F, identifier: 0x0000103B, name: "sllw", op: OpKind::Sllw });
    v.push(Instruction { mask: 0xFE00707F, identifier: 0x0000503B, name: "srlw", op: OpKind::Srlw });
    v.push(Instruction { mask: 0xFE00707F, identifier: 0x4000503B, name: "sraw", op: OpKind::Sraw });
    v.push(Instruction { mask: 0x0000707F, identifier: 0x00003003, name: "ld", op: OpKind::Ld });
    v.push(Instruction { mask: 0x0000707F, identifier: 0x00006003, name: "lwu", op: OpKind::Lwu });
    v.push(Instruction { mask: 0x0000707F, identifier: 0x00003023, name: "sd", op: OpKind::Sd });
    proof {
        assert(v@ =~= rv_i_entries());
    }
    v
}

/// Build the M-extension descriptor table.
fn rv_m_table() -> (r: Vec<Instruction>)
    ensures
        r@ == rv_m_entries(),
{
    let mut v: Vec<Instruction> = Vec::new();
    v.push(Instruction { mask: 0xFE00707F, identifier: 0x02000033, name: "mul", op: OpKind::Mul });
    v.push(Instruction { mask: 0xFE00707F, identifier: 0x02001033, name: "mulh", op: OpKind::Mulh });
    v.push(Instruction { mask: 0xFE00707F, identifier: 0x02002033, name: "mulhsu", op: OpKind::Mulhsu });
    v.push(Instruction { mask: 0xFE00707F, identifier: 0x02003033, name: "mulhu", op: OpKind::Mulhu });
    v.push(Instruction { mask: 0xFE00707F, identifier: 0x02004033, name: "div", op: OpKind::Div });
    v.push(Instruction { mask: 0xFE00707F, identifier: 0x02005033, name: "divu", op: OpKind::Divu });
    v.push(Instruction { mask: 0xFE00707F, identifier: 0x02006033, name: "rem", op: OpKind::Rem });
    v.push(Instruction { mask: 0xFE00707F, identifier: 0x02007033, name: "remu", op: OpKind::Remu });
    v.push(Instruction { mask: 0xFE00707F, identifier: 0x0200003B, name: "mulw", op: OpKind::Mulw });
    v.push(Instruction { mask: 0xFE00707F, identifier: 0x0200403B, name: "divw", op: OpKind::Divw });
    v.push(Instruction { mask: 0xFE00707F, identifier: 0x0200503B, name: "divuw", op: OpKind::Divuw });
    v.push(Instruction { mask: 0xFE00707F, identifier: 0x0200603B, name: "remw", op: OpKind::Remw });
    v.push(Instruction { mask: 0xFE00707F, identifier: 0x0200703B, name: "remuw", op: OpKind::Remuw });
    proof {
        assert(v@ =~= rv_m_entries());
    }
    v
}

/// Whether the word is a compressed (16-bit) instruction.
pub fn is_compressed(inst: u32) -> (r: bool)
    ensures
        r == (inst & 0b11 != 0b11),
{
    inst & 0b11 != 0b11
}

/// Whether `pc` is misaligned as an uncompressed instruction address.
pub fn is_inst_addr_misaligned(pc: u64) -> (r: bool)
    ensures
        r == (pc & 0b11 != 0),
{
    pc & 0b11 != 0
}

/// A word that belongs to a descriptor whose mask covers the whole opcode
/// field shares that descriptor's low-7-bit opcode.
proof fn lemma_match_fixes_bucket(w: u32, m: u32, id: u32)
    by (bit_vector)
    requires
        m & 0x7F == 0x7F,
        w & m == id,
    ensures
        id & 0x7F == w & 0x7F,
{
}

/// The low-7-bit opcode is always below 128.
proof fn lemma_opcode_in_range(w: u32)
    by (bit_vector)
    ensures
        w & 0x7F < 128,
{
}

/// First match distributes over concatenation: search the left part first.
proof fn lemma_first_match_append(s1: Seq<Instruction>, s2: Seq<Instruction>, w: u32)
    ensures
        first_match(s1 + s2, w) == (if first_match(s1, w) is Some {
            first_match(s1, w)
        } else {
            first_match(s2, w)
        }),
    decreases s1.len(),
{
    if s1.len() == 0 {
        assert(s1 + s2 =~= s2);
    } else {
        lemma_first_match_append(s1.drop_first(), s2, w);
        assert((s1 + s2).drop_first() =~= s1.drop_first() + s2);
    }
}

/// When every descriptor's mask covers the opcode field, searching the
/// bucket of the word's opcode gives the same first match as searching the
/// whole table.
proof fn lemma_first_match_bucket(s: Seq<Instruction>, w: u32)
    requires
        forall|k: int| 0 <= k < s.len() ==> (#[trigger] s[k]).mask & 0x7F == 0x7F,
    ensures
        first_match(s, w) == first_match(bucket_seq(s, w & 0x7F), w),
    decreases s.len(),
{
    let b = w & 0x7F;
    if s.len() == 0 {
    } else {
        let s1 = s.drop_last();
        let x = s.last();
        assert(forall|k: int| 0 <= k < s1.len() ==> (#[trigger] s1[k]).mask & 0x7F == 0x7F);
        lemma_first_match_bucket(s1, w);
        assert(s =~= s1 + seq![x]);
        lemma_first_match_append(s1, seq![x], w);
        let tail: Seq<Instruction> = if x.identifier & 0x7F == b {
            seq![x]
        } else {
            Seq::empty()
        };
        assert(bucket_seq(s, b) == bucket_seq(s1, b) + tail);
        lemma_first_match_append(bucket_seq(s1, b), tail, w);
        if x.identifier & 0x7F != b {
            if inst_matches(x, w) {
                lemma_match_fixes_bucket(w, x.mask, x.identifier);
            }
            assert(first_match(tail, w) is None);
            assert(first_match(seq![x], w) is None) by {
                assert(!inst_matches(seq![x][0], w));
                assert(seq![x].drop_first() =~= Seq::<Instruction>::empty());
            }
        }
    }
}

/// If nothing before index `i` matches and `s[i]` does, the first match is
/// `s[i]`; if nothing matches at all, there is none.
proof fn lemma_first_match_at(s: Seq<Instruction>, w: u32, i: int)
    requires
        0 <= i <= s.len(),
        forall|k: int| 0 <= k < i ==> !inst_matches(#[trigger] s[k], w),
    ensures
        i < s.len() && inst_matches(s[i], w) ==> first_match(s, w) == Some(s[i]),
        i == s.len() ==> first_match(s, w) is None,
    decreases s.len(),
{
    if s.len() == 0 {
    } else if i == 0 {
    } else {
        lemma_first_match_at(s.drop_first(), w, i - 1);
    }
}

/// The instruction decoder: the searched descriptor list, the (empty)
/// compressed list, and the 128 opcode buckets.
pub struct InstDecoder {
    instructions_set: Vec<Instruction>,
    compressed_instructions: Vec<Instruction>,
    opcode_map: Vec<Vec<Instruction>>,
}

impl InstDecoder {
    /// The descriptors, in search order.
    pub closed spec fn instructions(&self) -> Seq<Instruction> {
        self.instructions_set@
    }

    /// The compressed descriptors (none are loaded).
    pub closed spec fn compressed(&self) -> Seq<Instruction> {
        self.compressed_instructions@
    }

    /// What decoding the word must yield: the first matching descriptor of
    /// the table, or the corresponding error.
    pub open spec fn spec_decode(&self, inst: u32) -> Result<Instruction, DecodeError> {
        if inst & 0b11 != 0b11 {
            match first_match(self.compressed(), inst) {
                Some(d) => Ok(d),
                None => Err(DecodeError::CompressedNotFound),
            }
        } else {
            match first_match(self.instructions(), inst) {
                Some(d) => Ok(d),
                None => Err(DecodeError::NotFound),
            }
        }
    }

    /// Well-formedness: every mask covers the opcode field, there are 128
    /// buckets, and bucket `b` holds exactly the descriptors with opcode `b`
    /// in search order.
    pub closed spec fn wf(&self) -> bool {
        &&& forall|k: int|
            0 <= k < self.instructions().len() ==> (#[trigger] self.instructions()[k]).mask & 0x7F
                == 0x7F
        &&& self.opcode_map@.len() == 128
        &&& forall|b: int|
            0 <= b < 128 ==> (#[trigger] self.opcode_map@[b])@ == bucket_seq(
                self.instructions(),
                b as u32,
            )
    }

    /// Build the decoder for the enabled extensions: the base set always,
    /// then the M-extension set. The compressed set stays empty; the
    /// A-extension descriptors of this implementation are placeholders and
    /// none are loaded, so those words decode as not found.
    pub fn new(config: &EmuConfig) -> (r: InstDecoder)
        requires
            !config.inst_set.c_ext,
        ensures
            r.wf(),
            r.instructions() == rv_i_entries() + (if config.inst_set.m_ext {
                rv_m_entries()
            } else {
                Seq::<Instruction>::empty()
            }),
            r.compressed() == Seq::<Instruction>::empty(),
    {
        let mut instructions_set = rv_i_table();
        if config.inst_set.m_ext {
            let mut m = rv_m_table();
            instructions_set.append(&mut m);
        }
        proof {
            assert(instructions_set@ == rv_i_entries() + (if config.inst_set.m_ext {
                rv_m_entries()
            } else {
                Seq::<Instruction>::empty()
            })) by {
                if !config.inst_set.m_ext {
                    assert(instructions_set@ =~= rv_i_entries() + Seq::<Instruction>::empty());
                }
            }
            assert forall|k: int| 0 <= k < instructions_set@.len() implies (
            #[trigger] instructions_set@[k]).mask & 0x7F == 0x7F by {
                assert(0x0000007Fu32 & 0x7F == 0x7F) by (bit_vector);
                assert(0x0000707Fu32 & 0x7F == 0x7F) by (bit_vector);
                assert(0xFC00707Fu32 & 0x7F == 0x7F) by (bit_vector);
                assert(0xFE00707Fu32 & 0x7F == 0x7F) by (bit_vector);
                assert(0xFFFFFFFFu32 & 0x7F == 0x7F) by (bit_vector);
            }
        }
        let mut opcode_map: Vec<Vec<Instruction>> = Vec::new();
        let mut b: usize = 0;
        while b < 128
            invariant
                opcode_map@.len() == b,
                b <= 128,
                forall|k: int| 0 <= k < b ==> (#[trigger] opcode_map@[k])@ == Seq::<
                    Instruction,
                >::empty(),
            decreases 128 - b,
        {
            opcode_map.push(Vec::new());
            b = b + 1;
        }
        let n = instructions_set.len();
        let mut i: usize = 0;
        while i < n
            invariant
                n == instructions_set@.len(),
                i <= n,
                opcode_map@.len() == 128,
                forall|k: int|
                    0 <= k < 128 ==> (#[trigger] opcode_map@[k])@ == bucket_seq(
                        instructions_set@.take(i as int),
                        k as u32,
                    ),
            decreases n - i,
        {
            let d = instructions_set[i];
            proof {
                lemma_opcode_in_range(d.identifier);
            }
            let bi = (d.identifier & 0x7F) as usize;
            let mut bucket = self_remove(&mut opcode_map, bi);
            bucket.push(d);
            self_insert(&mut opcode_map, bi, bucket);
            proof {
                let pre = instructions_set@.take(i as int);
                let cur = instructions_set@.take(i + 1);
                assert(cur.drop_last() =~= pre);
                assert(cur.last() == d);
                assert forall|k: int| 0 <= k < 128 implies (#[trigger] opcode_map@[k])@
                    == bucket_seq(cur, k as u32) by {
                    assert(bucket_seq(cur, k as u32) == bucket_seq(pre, k as u32) + (if d.identifier
                        & 0x7F == k as u32 {
                        seq![d]
                    } else {
                        Seq::<Instruction>::empty()
                    }));
                    if k == bi {
                        assert(opcode_map@[k]@ =~= bucket_seq(pre, k as u32) + seq![d]);
                    } else {
                        assert(bucket_seq(cur, k as u32) =~= bucket_seq(pre, k as u32));
                    }
                }
            }
            i = i + 1;
        }
        proof {
            assert(instructions_set@.take(n as int) =~= instructions_set@);
        }
        InstDecoder { instructions_set, compressed_instructions: Vec::new(), opcode_map }
    }

    /// Decode by bucket lookup: the result equals a linear search of the
    /// whole table in insertion order.
    pub fn slow_path(&self, inst: u32) -> (r: Result<Instruction, DecodeError>)
        requires
            self.wf(),
        ensures
            r == self.spec_decode(inst),
    {
        if is_compressed(inst) {
            let m = self.compressed_instructions.len();
            let mut k: usize = 0;
            while k < m
                invariant
                    inst & 0b11 != 0b11,
                    m == self.compressed().len(),
                    k <= m,
                    forall|j: int| 0 <= j < k ==> !inst_matches(#[trigger] self.compressed()[j], inst),
                decreases m - k,
            {
                let d = self.compressed_instructions[k];
                if inst & d.mask == d.identifier {
                    proof {
                        lemma_first_match_at(self.compressed(), inst, k as int);
                    }
                    return Ok(d);
                }
                k = k + 1;
            }
            proof {
                lemma_first_match_at(self.compressed(), inst, m as int);
            }
            Err(DecodeError::CompressedNotFound)
        } else {
            proof {
                lemma_opcode_in_range(inst);
                lemma_first_match_bucket(self.instructions(), inst);
            }
            let bi = (inst & 0x7F) as usize;
            let bucket = &self.opcode_map[bi];
            let ghost bs = bucket_seq(self.instructions(), (inst & 0x7F) as u32);
            let m = bucket.len();
            let mut k: usize = 0;
            while k < m
                invariant
                    inst & 0b11 == 0b11,
                    bucket@ == bs,
                    bs == bucket_seq(self.instructions(), (inst & 0x7F) as u32),
                    first_match(self.instructions(), inst) == first_match(bs, inst),
                    m == bs.len(),
                    k <= m,
                    forall|j: int| 0 <= j < k ==> !inst_matches(#[trigger] bs[j], inst),
                decreases m - k,
            {
                let d = bucket[k];
                if inst & d.mask == d.identifier {
                    proof {
                        lemma_first_match_at(bs, inst, k as int);
                    }
                    return Ok(d);
                }
                k = k + 1;
            }
            proof {
                lemma_first_match_at(bs, inst, m as int);
            }
            Err(DecodeError::NotFound)
        }
    }

    /// The hot-path entry; the optional decode cache is not built, so this
    /// is the bucket lookup itself.
    pub fn fast_path(&self, inst: u32) -> (r: Result<Instruction, DecodeError>)
        requires
            self.wf(),
        ensures
            r == self.spec_decode(inst),
    {
        self.slow_path(inst)
    }
}

/// The decoder is a function of the instruction word: any two results that
/// decoding the same word can return are equal.
pub proof fn lemma_decode_deterministic(
    d: &InstDecoder,
    w: u32,
    r1: Result<Instruction, DecodeError>,
    r2: Result<Instruction, DecodeError>,
)
    requires
        r1 == d.spec_decode(w),
        r2 == d.spec_decode(w),
    ensures
        r1 == r2,
{
}

/// Remove and return element `i` of a vector.
fn self_remove<T>(v: &mut Vec<T>, i: usize) -> (r: T)
    requires
        i < old(v)@.len(),
    ensures
        r == old(v)@[i as int],
        final(v)@ == old(v)@.remove(i as int),
{
    v.remove(i)
}

/// Put an element back at position `i` of a vector.
fn self_insert<T>(v: &mut Vec<T>, i: usize, x: T)
    requires
        i <= old(v)@.len(),
    ensures
        final(v)@ == old(v)@.insert(i as int, x),
{
    v.insert(i, x)
}

/// The destination register field.
pub open spec fn spec_rd(w: u32) -> u64 {
    spec_bits_32(w, 7, 12)
}

/// The first source register field.
pub open spec fn spec_rs1(w: u32) -> u64 {
    spec_bits_32(w, 15, 20)
}

/// The second source register field.
pub open spec fn spec_rs2(w: u32) -> u64 {
    spec_bits_32(w, 20, 25)
}

/// The sign-extended I-type immediate.
pub open spec fn spec_imm_i(w: u32) -> u64 {
    spec_sign_extend_64(spec_bits_32(w, 20, 32), 12)
}

/// The sign-extended S-type immediate.
pub open spec fn spec_imm_s(w: u32) -> u64 {
    spec_sign_extend_64((spec_bits_32(w, 25, 32) << 5u64) | spec_bits_32(w, 7, 12), 12)
}

/// The sign-extended B-type immediate.
pub open spec fn spec_imm_b(w: u32) -> u64 {
    spec_sign_extend_64(
        ((if spec_bit_32(w, 31) {
            1u64
        } else {
            0u64
        }) << 12u64) | ((if spec_bit_32(w, 7) {
            1u64
        } else {
            0u64
        }) << 11u64) | (spec_bits_32(w, 25, 31) << 5u64) | (spec_bits_32(w, 8, 12) << 1u64),
        13,
    )
}

/// The sign-extended U-type immediate.
pub open spec fn spec_imm_u(w: u32) -> u64 {
    spec_sign_extend_64(spec_bits_32(w, 12, 32) << 12u64, 32)
}

/// The sign-extended J-type immediate.
pub open spec fn spec_imm_j(w: u32) -> u64 {
    spec_sign_extend_64(
        ((if spec_bit_32(w, 31) {
            1u64
        } else {
            0u64
        }) << 20u64) | (spec_bits_32(w, 12, 20) << 12u64) | ((if spec_bit_32(w, 20) {
            1u64
        } else {
            0u64
        }) << 11u64) | (spec_bits_32(w, 21, 31) << 1u64),
        21,
    )
}

/// The register fields are 5 bits wide, so they always name one of the 32
/// registers.
pub proof fn lemma_fields_in_range(w: u32)
    by (bit_vector)
    ensures
        spec_rd(w) < 32,
        spec_rs1(w) < 32,
        spec_rs2(w) < 32,
{
}

/// The operands of an R-type instruction.
pub struct FormatR {
    pub rs1: u64,
    pub rs2: u64,
    pub rd: u64,
}

/// The operands of an I-type instruction.
pub struct FormatI {
    pub rs1: u64,
    pub rd: u64,
    pub imm: u64,
}

/// The operands of an S-type instruction.
pub struct FormatS {
    pub rs1: u64,
    pub rs2: u64,
    pub imm: u64,
}

/// The operands of a B-type instruction.
pub struct FormatB {
    pub rs1: u64,
    pub rs2: u64,
    pub imm: u64,
}

/// The operands of a U-type instruction.
pub struct FormatU {
    pub rd: u64,
    pub imm: u64,
}

/// The operands of a J-type instruction.
pub struct FormatJ {
    pub rd: u64,
    pub imm: u64,
}

/// Extract the R-type operands.
pub fn parse_format_r(inst: u32) -> (r: FormatR)
    ensures
        r.rs1 == spec_rs1(inst),
        r.rs2 == spec_rs2(inst),
        r.rd == spec_rd(inst),
        r.rs1 < 32,
        r.rs2 < 32,
        r.rd < 32,
{
    proof {
        lemma_fields_in_range(inst);
    }
    let rs1 = inst.bit_range(15usize..20usize);
    let rs2 = inst.bit_range(20usize..25usize);
    let rd = inst.bit_range(7usize..12usize);
    FormatR { rs1, rs2, rd }
}

/// Extract the I-type operands, with the immediate sign-extended.
pub fn parse_format_i(inst: u32) -> (r: FormatI)
    ensures
        r.rs1 == spec_rs1(inst),
        r.rd == spec_rd(inst),
        r.imm == spec_imm_i(inst),
        r.rs1 < 32,
        r.rd < 32,
{
    proof {
        lemma_fields_in_range(inst);
    }
    let rs1 = inst.bit_range(15usize..20usize);
    let rd = inst.bit_range(7usize..12usize);
    let imm = sign_extend_64(inst.bit_range(20usize..32usize), 12);
    FormatI { rs1, rd, imm }
}

/// Extract the S-type operands, with the immediate sign-extended.
pub fn parse_format_s(inst: u32) -> (r: FormatS)
    ensures
        r.rs1 == spec_rs1(inst),
        r.rs2 == spec_rs2(inst),
        r.imm == spec_imm_s(inst),
        r.rs1 < 32,
        r.rs2 < 32,
{
    proof {
        lemma_fields_in_range(inst);
    }
    let rs1 = inst.bit_range(15usize..20usize);
    let rs2 = inst.bit_range(20usize..25usize);
    let imm = sign_extend_64((inst.bit_range(25usize..32usize) << 5u64) | inst.bit_range(7usize..12usize), 12);
    FormatS { rs1, rs2, imm }
}

/// Extract the B-type operands, with the immediate sign-extended.
pub fn parse_format_b(inst: u32) -> (r: FormatB)
    ensures
        r.rs1 == spec_rs1(inst),
        r.rs2 == spec_rs2(inst),
        r.imm == spec_imm_b(inst),
        r.rs1 < 32,
        r.rs2 < 32,
{
    proof {
        lemma_fields_in_range(inst);
    }
    let rs1 = inst.bit_range(15usize..20usize);
    let rs2 = inst.bit_range(20usize..25usize);
    let imm = sign_extend_64(
        ((if inst.bit(31) {
            1u64
        } else {
            0u64
        }) << 12u64) | ((if inst.bit(7) {
            1u64
        } else {
            0u64
        }) << 11u64) | (inst.bit_range(25usize..31usize) << 5u64) | (inst.bit_range(8usize..12usize)
            << 1u64),
        13,
    );
    FormatB { rs1, rs2, imm }
}

/// Extract the U-type operands, with the immediate sign-extended.
pub fn parse_format_u(inst: u32) -> (r: FormatU)
    ensures
        r.rd == spec_rd(inst),
        r.imm == spec_imm_u(inst),
        r.rd < 32,
{
    proof {
        lemma_fields_in_range(inst);
    }
    let rd = inst.bit_range(7usize..12usize);
    let imm = sign_extend_64(inst.bit_range(12usize..32usize) << 12u64, 32);
    FormatU { rd, imm }
}

/// Extract the J-type operands, with the immediate sign-extended.
pub fn parse_format_j(inst: u32) -> (r: FormatJ)
    ensures
        r.rd == spec_rd(inst),
        r.imm == spec_imm_j(inst),
        r.rd < 32,
{
    proof {
        lemma_fields_in_range(inst);
    }
    let rd = inst.bit_range(7usize..12usize);
    let imm = sign_extend_64(
        ((if inst.bit(31) {
            1u64
        } else {
            0u64
        }) << 20u64) | (inst.bit_range(12usize..20usize) << 12u64) | ((if inst.bit(20) {
            1u64
        } else {
            0u64
        }) << 11u64) | (inst.bit_range(21usize..31usize) << 1u64),
        21,
    );
    FormatJ { rd, imm }
}

} // verus!
