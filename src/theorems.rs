//! Laws of the instruction semantics, proved over the abstract state.

use crate::cpu::{address, execute_spec, index_after, lemma_offset, valid, CpuState};
use vstd::prelude::*;

verus! {

/// `0x6xnn` sets register `x` to `nn` and advances by one instruction.
pub proof fn lemma_load_immediate(s: CpuState, x: int, nn: u8, random: u8)
    requires
        valid(s),
        0 <= x < 16,
        s.opcode as int == 0x6000 + x * 0x100 + nn,
    ensures
        execute_spec(s, random).registers[x] == nn,
        execute_spec(s, random).program_counter == s.program_counter + 2,
{
}

/// `0x3xnn` advances by two instructions when register `x` holds `nn`, and
/// by one otherwise.
pub proof fn lemma_skip_if_equal(s: CpuState, x: int, nn: u8, random: u8)
    requires
        valid(s),
        0 <= x < 16,
        s.opcode as int == 0x3000 + x * 0x100 + nn,
    ensures
        s.registers[x] == nn ==> execute_spec(s, random).program_counter == s.program_counter + 4,
        s.registers[x] != nn ==> execute_spec(s, random).program_counter == s.program_counter + 2,
{
}

/// `0xFx33` stores three decimal digits, hundreds first, whose value is
/// register `x`.
pub proof fn lemma_bcd_digits(s: CpuState, x: int, random: u8)
    requires
        valid(s),
        0 <= x < 16,
        s.opcode as int == 0xF033 + x * 0x100,
    ensures
        ({
            let m = execute_spec(s, random).memory;
            let d0 = m[address(s.index, 0)] as int;
            let d1 = m[address(s.index, 1)] as int;
            let d2 = m[address(s.index, 2)] as int;
            &&& d0 * 100 + d1 * 10 + d2 == s.registers[x]
            &&& d0 <= 9 && d1 <= 9 && d2 <= 9
        }),
{
    let v = s.registers[x] as int;
    assert((v / 100) * 100 + ((v / 10) % 10) * 10 + v % 10 == v) by (nonlinear_arith)
        requires
            0 <= v < 256,
    ;
    assert(v / 100 <= 2) by (nonlinear_arith)
        requires
            0 <= v < 256,
    ;
}

/// `0xFx55` and then `0xFx65` from the same index give registers `0..=x`
/// back unchanged; each of them leaves the index `x + 1` further on.
pub proof fn lemma_register_block_round_trip(s: CpuState, x: int, r1: u8, r2: u8)
    requires
        valid(s),
        0 <= x < 16,
        s.opcode as int == 0xF055 + x * 0x100,
    ensures
        ({
            let stored = execute_spec(s, r1);
            let reload = (CpuState { opcode: (0xF065 + x * 0x100) as u16, index: s.index, ..stored });
            let loaded = execute_spec(reload, r2);
            &&& stored.index == index_after(s.index, x)
            &&& loaded.index == index_after(s.index, x)
            &&& loaded.registers == s.registers
        }),
{
    let stored = execute_spec(s, r1);
    let reload = (CpuState { opcode: (0xF065 + x * 0x100) as u16, index: s.index, ..stored });
    let loaded = execute_spec(reload, r2);
    assert forall|k: int| 0 <= k <= x implies stored.memory[address(s.index, k)] == s.registers[k] by {
        lemma_offset(s.index as int, k, address(s.index, k));
    }
    assert(loaded.registers =~= s.registers);
}

} // verus!
