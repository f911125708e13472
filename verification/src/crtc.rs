//! The register file of the display controller, as its two ports show it:
//! what a sequence of accesses leaves in it, and that the sequences of the
//! cursor controller leave there what they are meant to.

use vstd::prelude::*;
use crate::hardware::Access;
use crate::screen::{WriterView, LAST_ROW};
use crate::vga_buffer::{
    cursor_end_value, cursor_start_value, enable_cursor_accesses, move_cursor_accesses,
    BUFFER_WIDTH, CRTC_COMMAND_PORT, CRTC_DATA_PORT, CURSOR_END_REGISTER, CURSOR_HIGH_REGISTER,
    CURSOR_LOW_REGISTER, CURSOR_START_REGISTER,
};

verus! {

/// The registers of the display controller: which one is selected, and what
/// each of the 256 holds.
pub struct CrtcState {
    pub index: u8,
    pub registers: Seq<u8>,
}

impl CrtcState {
    /// There are 256 registers.
    pub open spec fn wf(self) -> bool {
        self.registers.len() == 256
    }

    /// What an 8-bit read of `port` returns: the index at the command port,
    /// the selected register at the data port, and 0 at any other port.
    pub open spec fn read(self, port: u16) -> u8 {
        if port == CRTC_COMMAND_PORT {
            self.index
        } else if port == CRTC_DATA_PORT {
            self.registers[self.index as int]
        } else {
            0
        }
    }

    /// The registers after `access`: an 8-bit write to the command port
    /// selects a register, one to the data port fills the selected register,
    /// and no other access changes anything.
    pub open spec fn step(self, access: Access) -> CrtcState {
        match access {
            Access::Out8 { port, value } => {
                if port == CRTC_COMMAND_PORT {
                    CrtcState { index: value, ..self }
                } else if port == CRTC_DATA_PORT {
                    CrtcState { registers: self.registers.update(self.index as int, value), ..self }
                } else {
                    self
                }
            },
            _ => self,
        }
    }

    /// The registers after each of `accesses`, in their order.
    pub open spec fn run(self, accesses: Seq<Access>) -> CrtcState
        decreases accesses.len(),
    {
        if accesses.len() == 0 {
            self
        } else {
            self.run(accesses.drop_last()).step(accesses.last())
        }
    }

    /// The linear position at which the controller shows the cursor.
    pub open spec fn cursor_position(self) -> int {
        self.registers[CURSOR_HIGH_REGISTER as int] * 256 + self.registers[CURSOR_LOW_REGISTER as int]
    }
}

/// Running four accesses is taking four steps.
proof fn lemma_run_four(crtc: CrtcState, a: Access, b: Access, c: Access, d: Access)
    ensures
        crtc.run(seq![a, b, c, d]) == crtc.step(a).step(b).step(c).step(d),
{
    let s4 = seq![a, b, c, d];
    let s3 = seq![a, b, c];
    let s2 = seq![a, b];
    let s1 = seq![a];
    assert(s4.drop_last() =~= s3);
    assert(s3.drop_last() =~= s2);
    assert(s2.drop_last() =~= s1);
    assert(s1.drop_last() =~= Seq::<Access>::empty());
    assert(crtc.run(Seq::<Access>::empty()) == crtc);
    assert(crtc.run(s2) == crtc.run(s1).step(b));
    assert(crtc.run(s4) == crtc.run(s3).step(d));
}

/// Running two sequences of accesses one after the other is running them
/// joined.
pub proof fn lemma_run_concat(crtc: CrtcState, first: Seq<Access>, second: Seq<Access>)
    ensures
        crtc.run(first + second) == crtc.run(first).run(second),
    decreases second.len(),
{
    if second.len() > 0 {
        lemma_run_concat(crtc, first, second.drop_last());
        assert((first + second).drop_last() =~= first + second.drop_last());
    }
}

/// Running accesses leaves 256 registers.
pub proof fn lemma_run_wf(crtc: CrtcState, accesses: Seq<Access>)
    requires
        crtc.wf(),
    ensures
        crtc.run(accesses).wf(),
    decreases accesses.len(),
{
    if accesses.len() > 0 {
        lemma_run_wf(crtc, accesses.drop_last());
    }
}

/// The accesses that move the cursor leave the controller showing it at
/// `pos`, whatever register was selected before, and change no register but
/// the two that hold the position.
pub proof fn lemma_move_cursor_takes_effect(crtc: CrtcState, pos: u16)
    requires
        crtc.wf(),
    ensures
        crtc.run(move_cursor_accesses(pos)).wf(),
        crtc.run(move_cursor_accesses(pos)).cursor_position() == pos,
        forall|i: int|
            0 <= i < 256 && i != CURSOR_HIGH_REGISTER && i != CURSOR_LOW_REGISTER
                ==> #[trigger] crtc.run(move_cursor_accesses(pos)).registers[i] == crtc.registers[i],
{
    lemma_run_four(
        crtc,
        Access::Out8 { port: CRTC_COMMAND_PORT, value: CURSOR_HIGH_REGISTER },
        Access::Out8 { port: CRTC_DATA_PORT, value: (pos / 256) as u8 },
        Access::Out8 { port: CRTC_COMMAND_PORT, value: CURSOR_LOW_REGISTER },
        Access::Out8 { port: CRTC_DATA_PORT, value: (pos % 256) as u8 },
    );
}

/// Whatever the controller held at first, after a history whose last four
/// accesses move the cursor to `pos` it shows the cursor at `pos`.
pub proof fn lemma_last_move_wins(crtc: CrtcState, history: Seq<Access>, pos: u16)
    requires
        crtc.wf(),
        history.len() >= 4,
        history.subrange(history.len() - 4, history.len() as int) == move_cursor_accesses(pos),
    ensures
        crtc.run(history).cursor_position() == pos,
{
    let earlier = history.take(history.len() - 4);
    assert(history =~= earlier + move_cursor_accesses(pos));
    lemma_run_concat(crtc, earlier, move_cursor_accesses(pos));
    lemma_run_wf(crtc, earlier);
    lemma_move_cursor_takes_effect(crtc.run(earlier), pos);
}

/// Where the last thing a writer did was to move the cursor, the controller
/// shows the cursor at the writer's write position in the bottom row,
/// whatever it held before the first access.
pub proof fn lemma_cursor_shown(crtc: CrtcState, state: WriterView)
    requires
        crtc.wf(),
        state.wf(),
        state.cursor_synced(),
    ensures
        crtc.run(state.hardware.trace).cursor_position() == LAST_ROW * BUFFER_WIDTH
            + state.column_position,
{
    lemma_last_move_wins(crtc, state.hardware.trace, state.cursor_position());
}

/// The accesses that switch the cursor on, made with what the two shape
/// registers hold, leave in them the merged values and change no other
/// register; and what they read is what those registers held.
pub proof fn lemma_enable_cursor_takes_effect(crtc: CrtcState, cursor_start: u8, cursor_end: u8)
    requires
        crtc.wf(),
    ensures
        ({
            let start_before = crtc.registers[CURSOR_START_REGISTER as int];
            let end_before = crtc.registers[CURSOR_END_REGISTER as int];
            let select_start = Access::Out8 { port: CRTC_COMMAND_PORT, value: CURSOR_START_REGISTER };
            let after = crtc.run(
                enable_cursor_accesses(start_before, end_before, cursor_start, cursor_end),
            );
            &&& crtc.step(select_start).read(CRTC_DATA_PORT) == start_before
            &&& after.wf()
            &&& after.registers[CURSOR_START_REGISTER as int] == cursor_start_value(
                start_before,
                cursor_start,
            )
            &&& after.registers[CURSOR_END_REGISTER as int] == cursor_end_value(end_before, cursor_end)
            &&& forall|i: int|
                0 <= i < 256 && i != CURSOR_START_REGISTER && i != CURSOR_END_REGISTER
                    ==> #[trigger] after.registers[i] == crtc.registers[i]
        }),
{
    let start_before = crtc.registers[CURSOR_START_REGISTER as int];
    let end_before = crtc.registers[CURSOR_END_REGISTER as int];
    let first = seq![
        Access::Out8 { port: CRTC_COMMAND_PORT, value: CURSOR_START_REGISTER },
        Access::In8 { port: CRTC_DATA_PORT, value: start_before },
        Access::Out8 { port: CRTC_DATA_PORT, value: cursor_start_value(start_before, cursor_start) },
        Access::Out8 { port: CRTC_COMMAND_PORT, value: CURSOR_END_REGISTER },
    ];
    let second = seq![
        Access::In8 { port: CRTC_DATA_PORT, value: end_before },
        Access::Out8 { port: CRTC_DATA_PORT, value: cursor_end_value(end_before, cursor_end) },
    ];
    assert(enable_cursor_accesses(start_before, end_before, cursor_start, cursor_end) =~= first
        + second);
    lemma_run_concat(crtc, first, second);
    lemma_run_four(crtc, first[0], first[1], first[2], first[3]);
    let mid = crtc.run(first);
    assert(second.drop_last() =~= seq![second[0]]);
    assert(seq![second[0]].drop_last() =~= Seq::<Access>::empty());
    assert(mid.run(Seq::<Access>::empty()) == mid);
    assert(mid.run(seq![second[0]]) == mid.step(second[0]));
}

/// The value written to the cursor-start register keeps the two high bits of
/// what the register held, takes its low five bits from `cursor_start`, and
/// has the bit that hides the cursor off.
pub proof fn lemma_cursor_start_value(current: u8, cursor_start: u8)
    ensures
        cursor_start_value(current, cursor_start) & 0xC0 == current & 0xC0,
        cursor_start_value(current, cursor_start) & 0x1F == cursor_start & 0x1F,
        cursor_start_value(current, cursor_start) & 0x20 == 0,
{
    assert(((current & 0xC0) | (cursor_start & 0x1F)) & 0xC0 == current & 0xC0) by (bit_vector);
    assert(((current & 0xC0) | (cursor_start & 0x1F)) & 0x1F == cursor_start & 0x1F)
        by (bit_vector);
    assert(((current & 0xC0) | (cursor_start & 0x1F)) & 0x20 == 0) by (bit_vector);
}

/// The value written to the cursor-end register keeps the three high bits of
/// what the register held and takes its low five bits from `cursor_end`.
pub proof fn lemma_cursor_end_value(current: u8, cursor_end: u8)
    ensures
        cursor_end_value(current, cursor_end) & 0xE0 == current & 0xE0,
        cursor_end_value(current, cursor_end) & 0x1F == cursor_end & 0x1F,
{
    assert(((current & 0xE0) | (cursor_end & 0x1F)) & 0xE0 == current & 0xE0) by (bit_vector);
    assert(((current & 0xE0) | (cursor_end & 0x1F)) & 0x1F == cursor_end & 0x1F) by (bit_vector);
}

} // verus!
