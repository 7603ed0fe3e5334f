//! The wire form of what a client asks of a command encoder: copies, debug
//! labels, and whole compute passes as their transcripts. The layout goes
//! on from that of the device actions: tags of four bytes, lengths of eight
//! bytes, everything little-endian.

use vstd::prelude::*;
use vstd::bytes::*;
use vstd::slice::slice_subrange;
use vstd::utf8::encode_utf8;
use crate::action::CommandEncoderAction;
use crate::command::{extend_u8, BasePass, ComputeCommand, TranscriptView};
use crate::id::Id;
use crate::wire::{
    holds, lemma_holds_both, lemma_id_round_trip, lemma_string_round_trip, lemma_u32_round_trip,
    lemma_u64_round_trip, lemma_u8_round_trip, p_id, p_string, p_u32, p_u64, p_u8, read_id,
    read_string, read_u32, read_u64, read_u8, ser_id, ser_string, ser_u32, ser_u64, ser_u8,
    write_id, write_string, write_u32, write_u64, write_u8,
};

verus! {

// Counts: eight bytes, whatever the machine counts in.
pub open spec fn ser_count(v: usize) -> Seq<u8> {
    ser_u64(v as u64)
}

pub open spec fn p_count(bytes: Seq<u8>, pos: int) -> Option<(usize, int)> {
    match p_u64(bytes, pos) {
        None => None,
        Some((n, a)) => if n <= usize::MAX {
            Some((n as usize, a))
        } else {
            None
        },
    }
}

pub proof fn lemma_count_round_trip(bytes: Seq<u8>, pos: int, v: usize)
    requires
        holds(bytes, pos, ser_count(v)),
    ensures
        p_count(bytes, pos) == Some((v, pos + 8)),
        ser_count(v).len() == 8,
{
    lemma_u64_round_trip(bytes, pos, v as u64);
}

// An identifier that may be missing: a byte that says whether it is
// there, then the identifier.
pub open spec fn ser_option_id(v: Option<Id>) -> Seq<u8> {
    match v {
        None => ser_u8(0),
        Some(id) => ser_u8(1) + ser_id(id),
    }
}

pub open spec fn p_option_id(bytes: Seq<u8>, pos: int) -> Option<(Option<Id>, int)> {
    match p_u8(bytes, pos) {
        None => None,
        Some((tag, a)) => if tag == 0 {
            Some((None, a))
        } else if tag == 1 {
            match p_id(bytes, a) {
                None => None,
                Some((id, b)) => Some((Some(id), b)),
            }
        } else {
            None
        },
    }
}

pub proof fn lemma_option_id_round_trip(bytes: Seq<u8>, pos: int, v: Option<Id>)
    requires
        holds(bytes, pos, ser_option_id(v)),
    ensures
        p_option_id(bytes, pos) == Some((v, pos + ser_option_id(v).len())),
{
    match v {
        None => {
            lemma_u8_round_trip(bytes, pos, 0);
        },
        Some(id) => {
            lemma_holds_both(bytes, pos, ser_u8(1), ser_id(id));
            lemma_u8_round_trip(bytes, pos, 1);
            lemma_id_round_trip(bytes, pos + 1, id);
        },
    }
}

// A label that may be missing: a byte that says whether it is there, then
// the label as a string.
pub open spec fn ser_option_string(v: Option<Seq<char>>) -> Seq<u8> {
    match v {
        None => ser_u8(0),
        Some(s) => ser_u8(1) + ser_string(s),
    }
}

pub open spec fn p_option_string(bytes: Seq<u8>, pos: int) -> Option<(Option<Seq<char>>, int)> {
    match p_u8(bytes, pos) {
        None => None,
        Some((tag, a)) => if tag == 0 {
            Some((None, a))
        } else if tag == 1 {
            match p_string(bytes, a) {
                None => None,
                Some((s, b)) => Some((Some(s), b)),
            }
        } else {
            None
        },
    }
}

pub proof fn lemma_option_string_round_trip(bytes: Seq<u8>, pos: int, v: Option<Seq<char>>)
    requires
        v matches Some(s) ==> encode_utf8(s).len() <= u64::MAX,
        holds(bytes, pos, ser_option_string(v)),
    ensures
        p_option_string(bytes, pos) == Some((v, pos + ser_option_string(v).len())),
{
    match v {
        None => {
            lemma_u8_round_trip(bytes, pos, 0);
        },
        Some(s) => {
            lemma_holds_both(bytes, pos, ser_u8(1), ser_string(s));
            lemma_u8_round_trip(bytes, pos, 1);
            lemma_string_round_trip(bytes, pos + 1, s);
        },
    }
}

// Bytes: their number, then the bytes.
pub open spec fn ser_bytes(v: Seq<u8>) -> Seq<u8> {
    ser_u64(v.len() as u64) + v
}

pub open spec fn p_bytes(bytes: Seq<u8>, pos: int) -> Option<(Seq<u8>, int)> {
    match p_u64(bytes, pos) {
        None => None,
        Some((n, a)) => if a + n <= bytes.len() {
            Some((bytes.subrange(a, a + n), a + n))
        } else {
            None
        },
    }
}

pub proof fn lemma_bytes_round_trip(bytes: Seq<u8>, pos: int, v: Seq<u8>)
    requires
        v.len() <= u64::MAX,
        holds(bytes, pos, ser_bytes(v)),
    ensures
        p_bytes(bytes, pos) == Some((v, pos + ser_bytes(v).len())),
{
    lemma_auto_spec_u64_to_from_le_bytes();
    lemma_holds_both(bytes, pos, ser_u64(v.len() as u64), v);
    lemma_u64_round_trip(bytes, pos, v.len() as u64);
}

// Words: their number, then each word.
pub open spec fn ser_words_to(v: Seq<u32>, n: nat) -> Seq<u8>
    decreases n,
{
    if n == 0 {
        Seq::empty()
    } else {
        ser_words_to(v, (n - 1) as nat) + ser_u32(v[n - 1])
    }
}

pub open spec fn p_words_to(bytes: Seq<u8>, pos: int, n: nat) -> Option<(Seq<u32>, int)>
    decreases n,
{
    if n == 0 {
        Some((Seq::empty(), pos))
    } else {
        match p_words_to(bytes, pos, (n - 1) as nat) {
            None => None,
            Some((before, a)) => match p_u32(bytes, a) {
                None => None,
                Some((w, b)) => Some((before.push(w), b)),
            },
        }
    }
}

pub open spec fn ser_words(v: Seq<u32>) -> Seq<u8> {
    ser_u64(v.len() as u64) + ser_words_to(v, v.len())
}

pub open spec fn p_words(bytes: Seq<u8>, pos: int) -> Option<(Seq<u32>, int)> {
    match p_u64(bytes, pos) {
        None => None,
        Some((n, a)) => p_words_to(bytes, a, n as nat),
    }
}

pub proof fn lemma_words_to_round_trip(bytes: Seq<u8>, pos: int, v: Seq<u32>, n: nat)
    requires
        n <= v.len(),
        holds(bytes, pos, ser_words_to(v, n)),
    ensures
        p_words_to(bytes, pos, n) == Some((v.take(n as int), pos + 4 * n)),
        ser_words_to(v, n).len() == 4 * n,
    decreases n,
{
    lemma_auto_spec_u32_to_from_le_bytes();
    if n == 0 {
        assert(v.take(0) =~= Seq::<u32>::empty());
    } else {
        let m = (n - 1) as nat;
        lemma_holds_both(bytes, pos, ser_words_to(v, m), ser_u32(v[n - 1]));
        lemma_words_to_round_trip(bytes, pos, v, m);
        lemma_u32_round_trip(bytes, pos + 4 * m, v[n - 1]);
        assert(v.take(n as int) =~= v.take(m as int).push(v[n - 1]));
    }
}

pub proof fn lemma_words_round_trip(bytes: Seq<u8>, pos: int, v: Seq<u32>)
    requires
        v.len() <= u64::MAX,
        holds(bytes, pos, ser_words(v)),
    ensures
        p_words(bytes, pos) == Some((v, pos + ser_words(v).len())),
{
    lemma_auto_spec_u64_to_from_le_bytes();
    lemma_holds_both(bytes, pos, ser_u64(v.len() as u64), ser_words_to(v, v.len()));
    lemma_u64_round_trip(bytes, pos, v.len() as u64);
    lemma_words_to_round_trip(bytes, pos + 8, v, v.len());
    assert(v.take(v.len() as int) =~= v);
}

/// Once a word cannot be read, no longer list can.
pub proof fn lemma_words_stop(bytes: Seq<u8>, pos: int, n: nat, m: nat)
    requires
        n <= m,
        p_words_to(bytes, pos, n) is None,
    ensures
        p_words_to(bytes, pos, m) is None,
    decreases m,
{
    if n < m {
        lemma_words_stop(bytes, pos, n, (m - 1) as nat);
    }
}

// Commands: a tag, then the fields.
pub open spec fn ser_command(c: ComputeCommand) -> Seq<u8> {
    match c {
        ComputeCommand::SetBindGroup { index, num_dynamic_offsets, bind_group_id } => ser_u32(0)
            + ser_u32(index) + ser_count(num_dynamic_offsets) + ser_option_id(bind_group_id),
        ComputeCommand::SetPipeline(id) => ser_u32(1) + ser_id(id),
        ComputeCommand::SetPushConstant { offset, size_bytes, values_offset } => ser_u32(2)
            + ser_u32(offset) + ser_u32(size_bytes) + ser_u32(values_offset),
        ComputeCommand::Dispatch { x, y, z } => ser_u32(3) + ser_u32(x) + ser_u32(y) + ser_u32(z),
        ComputeCommand::DispatchIndirect { buffer_id, offset } => ser_u32(4) + ser_id(buffer_id)
            + ser_u64(offset),
        ComputeCommand::PushDebugGroup { color, len } => ser_u32(5) + ser_u32(color) + ser_count(
            len,
        ),
        ComputeCommand::PopDebugGroup => ser_u32(6),
        ComputeCommand::InsertDebugMarker { color, len } => ser_u32(7) + ser_u32(color)
            + ser_count(len),
    }
}

pub open spec fn p_three_words(bytes: Seq<u8>, pos: int) -> Option<((u32, u32, u32), int)> {
    match p_u32(bytes, pos) {
        None => None,
        Some((x, a)) => match p_u32(bytes, a) {
            None => None,
            Some((y, b)) => match p_u32(bytes, b) {
                None => None,
                Some((z, c)) => Some(((x, y, z), c)),
            },
        },
    }
}

pub open spec fn p_label_command(bytes: Seq<u8>, pos: int) -> Option<((u32, usize), int)> {
    match p_u32(bytes, pos) {
        None => None,
        Some((color, a)) => match p_count(bytes, a) {
            None => None,
            Some((len, b)) => Some(((color, len), b)),
        },
    }
}

pub open spec fn p_command(bytes: Seq<u8>, pos: int) -> Option<(ComputeCommand, int)> {
    match p_u32(bytes, pos) {
        None => None,
        Some((tag, a)) => if tag == 0 {
            match p_u32(bytes, a) {
                None => None,
                Some((index, b)) => match p_count(bytes, b) {
                    None => None,
                    Some((num_dynamic_offsets, c)) => match p_option_id(bytes, c) {
                        None => None,
                        Some((bind_group_id, d)) => Some(
                            (
                                ComputeCommand::SetBindGroup {
                                    index,
                                    num_dynamic_offsets,
                                    bind_group_id,
                                },
                                d,
                            ),
                        ),
                    },
                },
            }
        } else if tag == 1 {
            match p_id(bytes, a) {
                None => None,
                Some((id, b)) => Some((ComputeCommand::SetPipeline(id), b)),
            }
        } else if tag == 2 {
            match p_three_words(bytes, a) {
                None => None,
                Some(((offset, size_bytes, values_offset), b)) => Some(
                    (ComputeCommand::SetPushConstant { offset, size_bytes, values_offset }, b),
                ),
            }
        } else if tag == 3 {
            match p_three_words(bytes, a) {
                None => None,
                Some(((x, y, z), b)) => Some((ComputeCommand::Dispatch { x, y, z }, b)),
            }
        } else if tag == 4 {
            match p_id(bytes, a) {
                None => None,
                Some((buffer_id, b)) => match p_u64(bytes, b) {
                    None => None,
                    Some((offset, c)) => Some(
                        (ComputeCommand::DispatchIndirect { buffer_id, offset }, c),
                    ),
                },
            }
        } else if tag == 5 {
            match p_label_command(bytes, a) {
                None => None,
                Some(((color, len), b)) => Some((ComputeCommand::PushDebugGroup { color, len }, b)),
            }
        } else if tag == 6 {
            Some((ComputeCommand::PopDebugGroup, a))
        } else if tag == 7 {
            match p_label_command(bytes, a) {
                None => None,
                Some(((color, len), b)) => Some(
                    (ComputeCommand::InsertDebugMarker { color, len }, b),
                ),
            }
        } else {
            None
        },
    }
}

proof fn lemma_three_words_round_trip(bytes: Seq<u8>, pos: int, x: u32, y: u32, z: u32)
    requires
        holds(bytes, pos, ser_u32(x) + ser_u32(y) + ser_u32(z)),
    ensures
        p_three_words(bytes, pos) == Some(((x, y, z), pos + 12)),
        (ser_u32(x) + ser_u32(y) + ser_u32(z)).len() == 12,
{
    lemma_auto_spec_u32_to_from_le_bytes();
    lemma_holds_both(bytes, pos, ser_u32(x) + ser_u32(y), ser_u32(z));
    lemma_holds_both(bytes, pos, ser_u32(x), ser_u32(y));
    lemma_u32_round_trip(bytes, pos, x);
    lemma_u32_round_trip(bytes, pos + 4, y);
    lemma_u32_round_trip(bytes, pos + 8, z);
}

proof fn lemma_label_command_round_trip(bytes: Seq<u8>, pos: int, color: u32, len: usize)
    requires
        holds(bytes, pos, ser_u32(color) + ser_count(len)),
    ensures
        p_label_command(bytes, pos) == Some(((color, len), pos + 12)),
        (ser_u32(color) + ser_count(len)).len() == 12,
{
    lemma_auto_spec_u32_to_from_le_bytes();
    lemma_auto_spec_u64_to_from_le_bytes();
    lemma_holds_both(bytes, pos, ser_u32(color), ser_count(len));
    lemma_u32_round_trip(bytes, pos, color);
    lemma_count_round_trip(bytes, pos + 4, len);
}

/// Reading the bytes of a command gives the command back, wherever the
/// bytes stand.
pub proof fn lemma_command_round_trip(bytes: Seq<u8>, pos: int, c: ComputeCommand)
    requires
        holds(bytes, pos, ser_command(c)),
    ensures
        p_command(bytes, pos) == Some((c, pos + ser_command(c).len())),
{
    lemma_auto_spec_u32_to_from_le_bytes();
    lemma_auto_spec_u64_to_from_le_bytes();
    match c {
        ComputeCommand::SetBindGroup { index, num_dynamic_offsets, bind_group_id } => {
            let t = ser_u32(0);
            let i = ser_u32(index);
            let n = ser_count(num_dynamic_offsets);
            let g = ser_option_id(bind_group_id);
            lemma_holds_both(bytes, pos, t + i + n, g);
            lemma_holds_both(bytes, pos, t + i, n);
            lemma_holds_both(bytes, pos, t, i);
            lemma_u32_round_trip(bytes, pos, 0);
            lemma_u32_round_trip(bytes, pos + 4, index);
            lemma_count_round_trip(bytes, pos + 8, num_dynamic_offsets);
            lemma_option_id_round_trip(bytes, pos + 16, bind_group_id);
        },
        ComputeCommand::SetPipeline(id) => {
            lemma_holds_both(bytes, pos, ser_u32(1), ser_id(id));
            lemma_u32_round_trip(bytes, pos, 1);
            lemma_id_round_trip(bytes, pos + 4, id);
        },
        ComputeCommand::SetPushConstant { offset, size_bytes, values_offset } => {
            let rest = ser_u32(offset) + ser_u32(size_bytes) + ser_u32(values_offset);
            assert(ser_command(c) =~= ser_u32(2) + rest);
            lemma_holds_both(bytes, pos, ser_u32(2), rest);
            lemma_u32_round_trip(bytes, pos, 2);
            lemma_three_words_round_trip(bytes, pos + 4, offset, size_bytes, values_offset);
        },
        ComputeCommand::Dispatch { x, y, z } => {
            let rest = ser_u32(x) + ser_u32(y) + ser_u32(z);
            assert(ser_command(c) =~= ser_u32(3) + rest);
            lemma_holds_both(bytes, pos, ser_u32(3), rest);
            lemma_u32_round_trip(bytes, pos, 3);
            lemma_three_words_round_trip(bytes, pos + 4, x, y, z);
        },
        ComputeCommand::DispatchIndirect { buffer_id, offset } => {
            let t = ser_u32(4);
            let i = ser_id(buffer_id);
            lemma_holds_both(bytes, pos, t + i, ser_u64(offset));
            lemma_holds_both(bytes, pos, t, i);
            lemma_u32_round_trip(bytes, pos, 4);
            lemma_id_round_trip(bytes, pos + 4, buffer_id);
            lemma_u64_round_trip(bytes, pos + 13, offset);
        },
        ComputeCommand::PushDebugGroup { color, len } => {
            let rest = ser_u32(color) + ser_count(len);
            assert(ser_command(c) =~= ser_u32(5) + rest);
            lemma_holds_both(bytes, pos, ser_u32(5), rest);
            lemma_u32_round_trip(bytes, pos, 5);
            lemma_label_command_round_trip(bytes, pos + 4, color, len);
        },
        ComputeCommand::PopDebugGroup => {
            lemma_u32_round_trip(bytes, pos, 6);
        },
        ComputeCommand::InsertDebugMarker { color, len } => {
            let rest = ser_u32(color) + ser_count(len);
            assert(ser_command(c) =~= ser_u32(7) + rest);
            lemma_holds_both(bytes, pos, ser_u32(7), rest);
            lemma_u32_round_trip(bytes, pos, 7);
            lemma_label_command_round_trip(bytes, pos + 4, color, len);
        },
    }
}

// Lists of commands: their number, then each command.
pub open spec fn ser_commands_to(v: Seq<ComputeCommand>, n: nat) -> Seq<u8>
    decreases n,
{
    if n == 0 {
        Seq::empty()
    } else {
        ser_commands_to(v, (n - 1) as nat) + ser_command(v[n - 1])
    }
}

pub open spec fn p_commands_to(bytes: Seq<u8>, pos: int, n: nat) -> Option<
    (Seq<ComputeCommand>, int),
>
    decreases n,
{
    if n == 0 {
        Some((Seq::empty(), pos))
    } else {
        match p_commands_to(bytes, pos, (n - 1) as nat) {
            None => None,
            Some((before, a)) => match p_command(bytes, a) {
                None => None,
                Some((c, b)) => Some((before.push(c), b)),
            },
        }
    }
}

pub open spec fn ser_commands(v: Seq<ComputeCommand>) -> Seq<u8> {
    ser_u64(v.len() as u64) + ser_commands_to(v, v.len())
}

pub open spec fn p_commands(bytes: Seq<u8>, pos: int) -> Option<(Seq<ComputeCommand>, int)> {
    match p_u64(bytes, pos) {
        None => None,
        Some((n, a)) => p_commands_to(bytes, a, n as nat),
    }
}

pub proof fn lemma_commands_to_round_trip(
    bytes: Seq<u8>,
    pos: int,
    v: Seq<ComputeCommand>,
    n: nat,
)
    requires
        n <= v.len(),
        holds(bytes, pos, ser_commands_to(v, n)),
    ensures
        p_commands_to(bytes, pos, n) == Some((v.take(n as int), pos + ser_commands_to(v, n).len())),
    decreases n,
{
    if n == 0 {
        assert(v.take(0) =~= Seq::<ComputeCommand>::empty());
    } else {
        let m = (n - 1) as nat;
        lemma_holds_both(bytes, pos, ser_commands_to(v, m), ser_command(v[n - 1]));
        lemma_commands_to_round_trip(bytes, pos, v, m);
        lemma_command_round_trip(bytes, pos + ser_commands_to(v, m).len(), v[n - 1]);
        assert(v.take(n as int) =~= v.take(m as int).push(v[n - 1]));
    }
}

pub proof fn lemma_commands_round_trip(bytes: Seq<u8>, pos: int, v: Seq<ComputeCommand>)
    requires
        v.len() <= u64::MAX,
        holds(bytes, pos, ser_commands(v)),
    ensures
        p_commands(bytes, pos) == Some((v, pos + ser_commands(v).len())),
{
    lemma_auto_spec_u64_to_from_le_bytes();
    lemma_holds_both(bytes, pos, ser_u64(v.len() as u64), ser_commands_to(v, v.len()));
    lemma_u64_round_trip(bytes, pos, v.len() as u64);
    lemma_commands_to_round_trip(bytes, pos + 8, v, v.len());
    assert(v.take(v.len() as int) =~= v);
}

/// Once a command cannot be read, no longer list can.
pub proof fn lemma_commands_stop(bytes: Seq<u8>, pos: int, n: nat, m: nat)
    requires
        n <= m,
        p_commands_to(bytes, pos, n) is None,
    ensures
        p_commands_to(bytes, pos, m) is None,
    decreases m,
{
    if n < m {
        lemma_commands_stop(bytes, pos, n, (m - 1) as nat);
    }
}

// Transcripts: the label, the commands, and the three tables.
pub open spec fn ser_pass(t: TranscriptView<ComputeCommand>) -> Seq<u8> {
    ser_option_string(t.label) + ser_commands(t.commands) + ser_words(t.dynamic_offsets)
        + ser_bytes(t.string_data) + ser_words(t.push_constant_data)
}

pub open spec fn p_pass(bytes: Seq<u8>, pos: int) -> Option<
    (TranscriptView<ComputeCommand>, int),
> {
    match p_option_string(bytes, pos) {
        None => None,
        Some((label, a)) => match p_commands(bytes, a) {
            None => None,
            Some((commands, b)) => match p_words(bytes, b) {
                None => None,
                Some((dynamic_offsets, c)) => match p_bytes(bytes, c) {
                    None => None,
                    Some((string_data, d)) => match p_words(bytes, d) {
                        None => None,
                        Some((push_constant_data, e)) => Some(
                            (
                                TranscriptView {
                                    label,
                                    commands,
                                    dynamic_offsets,
                                    string_data,
                                    push_constant_data,
                                },
                                e,
                            ),
                        ),
                    },
                },
            },
        },
    }
}

/// Whether a transcript can be laid out: its label and its tables have
/// lengths that fit 64 bits.
pub open spec fn pass_encodable(t: TranscriptView<ComputeCommand>) -> bool {
    &&& t.label matches Some(l) ==> encode_utf8(l).len() <= u64::MAX
    &&& t.commands.len() <= u64::MAX
    &&& t.dynamic_offsets.len() <= u64::MAX
    &&& t.string_data.len() <= u64::MAX
    &&& t.push_constant_data.len() <= u64::MAX
}

/// Reading the bytes of a transcript gives the transcript back, wherever
/// the bytes stand.
pub proof fn lemma_pass_round_trip(bytes: Seq<u8>, pos: int, t: TranscriptView<ComputeCommand>)
    requires
        pass_encodable(t),
        holds(bytes, pos, ser_pass(t)),
    ensures
        p_pass(bytes, pos) == Some((t, pos + ser_pass(t).len())),
{
    let l = ser_option_string(t.label);
    let c = ser_commands(t.commands);
    let d = ser_words(t.dynamic_offsets);
    let s = ser_bytes(t.string_data);
    let p = ser_words(t.push_constant_data);
    lemma_holds_both(bytes, pos, l + c + d + s, p);
    lemma_holds_both(bytes, pos, l + c + d, s);
    lemma_holds_both(bytes, pos, l + c, d);
    lemma_holds_both(bytes, pos, l, c);
    lemma_option_string_round_trip(bytes, pos, t.label);
    lemma_commands_round_trip(bytes, pos + l.len(), t.commands);
    lemma_words_round_trip(bytes, pos + l.len() + c.len(), t.dynamic_offsets);
    lemma_bytes_round_trip(bytes, pos + l.len() + c.len() + d.len(), t.string_data);
    lemma_words_round_trip(
        bytes,
        pos + l.len() + c.len() + d.len() + s.len(),
        t.push_constant_data,
    );
}

/// What a client asks of a command encoder, as the wire sees it.
pub enum EncoderActionView {
    CopyBufferToBuffer { src: Id, src_offset: u64, dst: Id, dst_offset: u64, size: u64 },
    RunComputePass { base: TranscriptView<ComputeCommand> },
    PushDebugGroup(Seq<char>),
    PopDebugGroup,
    InsertDebugMarker(Seq<char>),
}

impl CommandEncoderAction {
    pub open spec fn view(&self) -> EncoderActionView {
        match self {
            CommandEncoderAction::CopyBufferToBuffer {
                src,
                src_offset,
                dst,
                dst_offset,
                size,
            } => EncoderActionView::CopyBufferToBuffer {
                src: *src,
                src_offset: *src_offset,
                dst: *dst,
                dst_offset: *dst_offset,
                size: *size,
            },
            CommandEncoderAction::RunComputePass { base } => EncoderActionView::RunComputePass {
                base: base@,
            },
            CommandEncoderAction::PushDebugGroup(marker) => EncoderActionView::PushDebugGroup(
                marker@,
            ),
            CommandEncoderAction::PopDebugGroup => EncoderActionView::PopDebugGroup,
            CommandEncoderAction::InsertDebugMarker(marker) => EncoderActionView::InsertDebugMarker(
                marker@,
            ),
        }
    }
}

// Actions on an encoder: a tag, then the fields.
pub open spec fn ser_encoder_action(a: EncoderActionView) -> Seq<u8> {
    match a {
        EncoderActionView::CopyBufferToBuffer { src, src_offset, dst, dst_offset, size } => ser_u32(
            0,
        ) + ser_id(src) + ser_u64(src_offset) + ser_id(dst) + ser_u64(dst_offset) + ser_u64(size),
        EncoderActionView::RunComputePass { base } => ser_u32(1) + ser_pass(base),
        EncoderActionView::PushDebugGroup(marker) => ser_u32(2) + ser_string(marker),
        EncoderActionView::PopDebugGroup => ser_u32(3),
        EncoderActionView::InsertDebugMarker(marker) => ser_u32(4) + ser_string(marker),
    }
}

pub open spec fn p_copy(bytes: Seq<u8>, pos: int) -> Option<(EncoderActionView, int)> {
    match p_id(bytes, pos) {
        None => None,
        Some((src, a)) => match p_u64(bytes, a) {
            None => None,
            Some((src_offset, b)) => match p_id(bytes, b) {
                None => None,
                Some((dst, c)) => match p_u64(bytes, c) {
                    None => None,
                    Some((dst_offset, d)) => match p_u64(bytes, d) {
                        None => None,
                        Some((size, e)) => Some(
                            (
                                EncoderActionView::CopyBufferToBuffer {
                                    src,
                                    src_offset,
                                    dst,
                                    dst_offset,
                                    size,
                                },
                                e,
                            ),
                        ),
                    },
                },
            },
        },
    }
}

pub open spec fn p_encoder_action(bytes: Seq<u8>, pos: int) -> Option<(EncoderActionView, int)> {
    match p_u32(bytes, pos) {
        None => None,
        Some((tag, a)) => if tag == 0 {
            p_copy(bytes, a)
        } else if tag == 1 {
            match p_pass(bytes, a) {
                None => None,
                Some((base, b)) => Some((EncoderActionView::RunComputePass { base }, b)),
            }
        } else if tag == 2 {
            match p_string(bytes, a) {
                None => None,
                Some((marker, b)) => Some((EncoderActionView::PushDebugGroup(marker), b)),
            }
        } else if tag == 3 {
            Some((EncoderActionView::PopDebugGroup, a))
        } else if tag == 4 {
            match p_string(bytes, a) {
                None => None,
                Some((marker, b)) => Some((EncoderActionView::InsertDebugMarker(marker), b)),
            }
        } else {
            None
        },
    }
}

/// Whether an action on an encoder can be laid out: its strings and
/// tables have lengths that fit 64 bits.
pub open spec fn encoder_action_encodable(a: EncoderActionView) -> bool {
    match a {
        EncoderActionView::RunComputePass { base } => pass_encodable(base),
        EncoderActionView::PushDebugGroup(marker) => encode_utf8(marker).len() <= u64::MAX,
        EncoderActionView::InsertDebugMarker(marker) => encode_utf8(marker).len() <= u64::MAX,
        _ => true,
    }
}

/// Laying an action on an encoder out in bytes and reading the bytes back
/// gives the same action, wherever the bytes stand.
pub proof fn law_encoder_action_round_trip(bytes: Seq<u8>, pos: int, a: EncoderActionView)
    requires
        encoder_action_encodable(a),
        holds(bytes, pos, ser_encoder_action(a)),
    ensures
        p_encoder_action(bytes, pos) == Some((a, pos + ser_encoder_action(a).len())),
{
    lemma_auto_spec_u32_to_from_le_bytes();
    lemma_auto_spec_u64_to_from_le_bytes();
    match a {
        EncoderActionView::CopyBufferToBuffer { src, src_offset, dst, dst_offset, size } => {
            let t = ser_u32(0);
            let s = ser_id(src);
            let so = ser_u64(src_offset);
            let d = ser_id(dst);
            let d_o = ser_u64(dst_offset);
            lemma_holds_both(bytes, pos, t + s + so + d + d_o, ser_u64(size));
            lemma_holds_both(bytes, pos, t + s + so + d, d_o);
            lemma_holds_both(bytes, pos, t + s + so, d);
            lemma_holds_both(bytes, pos, t + s, so);
            lemma_holds_both(bytes, pos, t, s);
            lemma_u32_round_trip(bytes, pos, 0);
            lemma_id_round_trip(bytes, pos + 4, src);
            lemma_u64_round_trip(bytes, pos + 13, src_offset);
            lemma_id_round_trip(bytes, pos + 21, dst);
            lemma_u64_round_trip(bytes, pos + 30, dst_offset);
            lemma_u64_round_trip(bytes, pos + 38, size);
        },
        EncoderActionView::RunComputePass { base } => {
            lemma_holds_both(bytes, pos, ser_u32(1), ser_pass(base));
            lemma_u32_round_trip(bytes, pos, 1);
            lemma_pass_round_trip(bytes, pos + 4, base);
        },
        EncoderActionView::PushDebugGroup(marker) => {
            lemma_holds_both(bytes, pos, ser_u32(2), ser_string(marker));
            lemma_u32_round_trip(bytes, pos, 2);
            lemma_string_round_trip(bytes, pos + 4, marker);
        },
        EncoderActionView::PopDebugGroup => {
            lemma_u32_round_trip(bytes, pos, 3);
        },
        EncoderActionView::InsertDebugMarker(marker) => {
            lemma_holds_both(bytes, pos, ser_u32(4), ser_string(marker));
            lemma_u32_round_trip(bytes, pos, 4);
            lemma_string_round_trip(bytes, pos + 4, marker);
        },
    }
}

fn write_count(out: &mut Vec<u8>, v: usize)
    ensures
        final(out)@ == old(out)@ + ser_count(v),
{
    write_u64(out, v as u64);
}

fn write_option_id(out: &mut Vec<u8>, v: Option<Id>)
    ensures
        final(out)@ == old(out)@ + ser_option_id(v),
{
    match v {
        None => {
            write_u8(out, 0);
        },
        Some(id) => {
            write_u8(out, 1);
            write_id(out, id);
            assert(out@ =~= old(out)@ + ser_option_id(v));
        },
    }
}

fn write_option_string(out: &mut Vec<u8>, v: &Option<String>)
    ensures
        final(out)@ == old(out)@ + ser_option_string(crate::command::label_view(*v)),
{
    match v {
        None => {
            write_u8(out, 0);
        },
        Some(s) => {
            write_u8(out, 1);
            write_string(out, s.as_str());
            assert(out@ =~= old(out)@ + ser_option_string(crate::command::label_view(*v)));
        },
    }
}

fn write_bytes(out: &mut Vec<u8>, v: &Vec<u8>)
    ensures
        final(out)@ == old(out)@ + ser_bytes(v@),
{
    write_u64(out, v.len() as u64);
    extend_u8(out, v.as_slice());
    assert(out@ =~= old(out)@ + ser_bytes(v@));
}

fn write_words(out: &mut Vec<u8>, v: &Vec<u32>)
    ensures
        final(out)@ == old(out)@ + ser_words(v@),
{
    write_u64(out, v.len() as u64);
    let ghost start = out@;
    let mut i: usize = 0;
    while i < v.len()
        invariant
            i <= v@.len(),
            out@ == start + ser_words_to(v@, i as nat),
        decreases v@.len() - i,
    {
        write_u32(out, v[i]);
        assert(out@ =~= start + ser_words_to(v@, (i + 1) as nat));
        i += 1;
    }
    assert(out@ =~= old(out)@ + ser_words(v@));
}

fn write_command(out: &mut Vec<u8>, c: &ComputeCommand)
    ensures
        final(out)@ == old(out)@ + ser_command(*c),
{
    match *c {
        ComputeCommand::SetBindGroup { index, num_dynamic_offsets, bind_group_id } => {
            write_u32(out, 0);
            write_u32(out, index);
            write_count(out, num_dynamic_offsets);
            write_option_id(out, bind_group_id);
        },
        ComputeCommand::SetPipeline(id) => {
            write_u32(out, 1);
            write_id(out, id);
        },
        ComputeCommand::SetPushConstant { offset, size_bytes, values_offset } => {
            write_u32(out, 2);
            write_u32(out, offset);
            write_u32(out, size_bytes);
            write_u32(out, values_offset);
        },
        ComputeCommand::Dispatch { x, y, z } => {
            write_u32(out, 3);
            write_u32(out, x);
            write_u32(out, y);
            write_u32(out, z);
        },
        ComputeCommand::DispatchIndirect { buffer_id, offset } => {
            write_u32(out, 4);
            write_id(out, buffer_id);
            write_u64(out, offset);
        },
        ComputeCommand::PushDebugGroup { color, len } => {
            write_u32(out, 5);
            write_u32(out, color);
            write_count(out, len);
        },
        ComputeCommand::PopDebugGroup => {
            write_u32(out, 6);
        },
        ComputeCommand::InsertDebugMarker { color, len } => {
            write_u32(out, 7);
            write_u32(out, color);
            write_count(out, len);
        },
    }
    assert(out@ =~= old(out)@ + ser_command(*c));
}

fn write_commands(out: &mut Vec<u8>, v: &Vec<ComputeCommand>)
    ensures
        final(out)@ == old(out)@ + ser_commands(v@),
{
    write_u64(out, v.len() as u64);
    let ghost start = out@;
    let mut i: usize = 0;
    while i < v.len()
        invariant
            i <= v@.len(),
            out@ == start + ser_commands_to(v@, i as nat),
        decreases v@.len() - i,
    {
        write_command(out, &v[i]);
        assert(out@ =~= start + ser_commands_to(v@, (i + 1) as nat));
        i += 1;
    }
    assert(out@ =~= old(out)@ + ser_commands(v@));
}

/// Appends the bytes of a transcript.
pub fn write_pass(out: &mut Vec<u8>, base: &BasePass<ComputeCommand>)
    ensures
        final(out)@ == old(out)@ + ser_pass(base@),
{
    write_option_string(out, &base.label);
    write_commands(out, &base.commands);
    write_words(out, &base.dynamic_offsets);
    write_bytes(out, &base.string_data);
    write_words(out, &base.push_constant_data);
    assert(out@ =~= old(out)@ + ser_pass(base@));
}

/// Appends the bytes of an action on an encoder.
pub fn write_encoder_action(out: &mut Vec<u8>, action: &CommandEncoderAction)
    ensures
        final(out)@ == old(out)@ + ser_encoder_action(action@),
{
    match action {
        CommandEncoderAction::CopyBufferToBuffer { src, src_offset, dst, dst_offset, size } => {
            write_u32(out, 0);
            write_id(out, *src);
            write_u64(out, *src_offset);
            write_id(out, *dst);
            write_u64(out, *dst_offset);
            write_u64(out, *size);
        },
        CommandEncoderAction::RunComputePass { base } => {
            write_u32(out, 1);
            write_pass(out, base);
        },
        CommandEncoderAction::PushDebugGroup(marker) => {
            write_u32(out, 2);
            write_string(out, marker.as_str());
        },
        CommandEncoderAction::PopDebugGroup => {
            write_u32(out, 3);
        },
        CommandEncoderAction::InsertDebugMarker(marker) => {
            write_u32(out, 4);
            write_string(out, marker.as_str());
        },
    }
    assert(out@ =~= old(out)@ + ser_encoder_action(action@));
}

fn read_count(bytes: &[u8], pos: usize) -> (r: Option<(usize, usize)>)
    ensures
        match r {
            Some((v, next)) => p_count(bytes@, pos as int) == Some((v, next as int)),
            None => p_count(bytes@, pos as int) is None,
        },
{
    match read_u64(bytes, pos) {
        Some((n, a)) => {
            if n > usize::MAX as u64 {
                None
            } else {
                Some((n as usize, a))
            }
        },
        None => None,
    }
}

fn read_option_id(bytes: &[u8], pos: usize) -> (r: Option<(Option<Id>, usize)>)
    ensures
        match r {
            Some((v, next)) => p_option_id(bytes@, pos as int) == Some((v, next as int)),
            None => p_option_id(bytes@, pos as int) is None,
        },
{
    let (tag, a) = match read_u8(bytes, pos) {
        Some(x) => x,
        None => {
            return None;
        },
    };
    if tag == 0 {
        Some((None, a))
    } else if tag == 1 {
        match read_id(bytes, a) {
            Some((id, b)) => Some((Some(id), b)),
            None => None,
        }
    } else {
        None
    }
}

fn read_option_string(bytes: &[u8], pos: usize) -> (r: Option<(Option<String>, usize)>)
    ensures
        match r {
            Some((v, next)) => p_option_string(bytes@, pos as int) == Some(
                (crate::command::label_view(v), next as int),
            ),
            None => p_option_string(bytes@, pos as int) is None,
        },
{
    let (tag, a) = match read_u8(bytes, pos) {
        Some(x) => x,
        None => {
            return None;
        },
    };
    if tag == 0 {
        Some((None, a))
    } else if tag == 1 {
        match read_string(bytes, a) {
            Some((s, b)) => Some((Some(s), b)),
            None => None,
        }
    } else {
        None
    }
}

fn read_bytes(bytes: &[u8], pos: usize) -> (r: Option<(Vec<u8>, usize)>)
    ensures
        match r {
            Some((v, next)) => p_bytes(bytes@, pos as int) == Some((v@, next as int)),
            None => p_bytes(bytes@, pos as int) is None,
        },
{
    let (n, a) = match read_u64(bytes, pos) {
        Some(x) => x,
        None => {
            return None;
        },
    };
    if n > (bytes.len() - a) as u64 {
        return None;
    }
    let end = a + n as usize;
    Some((vstd::slice::slice_to_vec(slice_subrange(bytes, a, end)), end))
}

fn read_words(bytes: &[u8], pos: usize) -> (r: Option<(Vec<u32>, usize)>)
    ensures
        match r {
            Some((v, next)) => p_words(bytes@, pos as int) == Some((v@, next as int)),
            None => p_words(bytes@, pos as int) is None,
        },
{
    let (n, a) = match read_u64(bytes, pos) {
        Some(x) => x,
        None => {
            return None;
        },
    };
    let mut list: Vec<u32> = Vec::new();
    let mut at = a;
    let mut i: u64 = 0;
    while i < n
        invariant
            i <= n,
            p_u64(bytes@, pos as int) == Some((n, a as int)),
            p_words_to(bytes@, a as int, i as nat) == Some((list@, at as int)),
        decreases n - i,
    {
        match read_u32(bytes, at) {
            Some((w, next)) => {
                list.push(w);
                at = next;
            },
            None => {
                proof {
                    assert(p_words_to(bytes@, a as int, (i + 1) as nat) is None);
                    lemma_words_stop(bytes@, a as int, (i + 1) as nat, n as nat);
                }
                return None;
            },
        }
        i += 1;
    }
    Some((list, at))
}

fn read_three_words(bytes: &[u8], pos: usize) -> (r: Option<((u32, u32, u32), usize)>)
    ensures
        match r {
            Some((v, next)) => p_three_words(bytes@, pos as int) == Some((v, next as int)),
            None => p_three_words(bytes@, pos as int) is None,
        },
{
    let (x, a) = match read_u32(bytes, pos) {
        Some(v) => v,
        None => {
            return None;
        },
    };
    let (y, b) = match read_u32(bytes, a) {
        Some(v) => v,
        None => {
            return None;
        },
    };
    match read_u32(bytes, b) {
        Some((z, c)) => Some(((x, y, z), c)),
        None => None,
    }
}

fn read_label_command(bytes: &[u8], pos: usize) -> (r: Option<((u32, usize), usize)>)
    ensures
        match r {
            Some((v, next)) => p_label_command(bytes@, pos as int) == Some((v, next as int)),
            None => p_label_command(bytes@, pos as int) is None,
        },
{
    let (color, a) = match read_u32(bytes, pos) {
        Some(v) => v,
        None => {
            return None;
        },
    };
    match read_count(bytes, a) {
        Some((len, b)) => Some(((color, len), b)),
        None => None,
    }
}

fn read_command(bytes: &[u8], pos: usize) -> (r: Option<(ComputeCommand, usize)>)
    ensures
        match r {
            Some((v, next)) => p_command(bytes@, pos as int) == Some((v, next as int)),
            None => p_command(bytes@, pos as int) is None,
        },
{
    let (tag, a) = match read_u32(bytes, pos) {
        Some(x) => x,
        None => {
            return None;
        },
    };
    if tag == 0 {
        let (index, b) = match read_u32(bytes, a) {
            Some(x) => x,
            None => {
                return None;
            },
        };
        let (num_dynamic_offsets, c) = match read_count(bytes, b) {
            Some(x) => x,
            None => {
                return None;
            },
        };
        match read_option_id(bytes, c) {
            Some((bind_group_id, d)) => Some(
                (ComputeCommand::SetBindGroup { index, num_dynamic_offsets, bind_group_id }, d),
            ),
            None => None,
        }
    } else if tag == 1 {
        match read_id(bytes, a) {
            Some((id, b)) => Some((ComputeCommand::SetPipeline(id), b)),
            None => None,
        }
    } else if tag == 2 {
        match read_three_words(bytes, a) {
            Some(((offset, size_bytes, values_offset), b)) => Some(
                (ComputeCommand::SetPushConstant { offset, size_bytes, values_offset }, b),
            ),
            None => None,
        }
    } else if tag == 3 {
        match read_three_words(bytes, a) {
            Some(((x, y, z), b)) => Some((ComputeCommand::Dispatch { x, y, z }, b)),
            None => None,
        }
    } else if tag == 4 {
        let (buffer_id, b) = match read_id(bytes, a) {
            Some(x) => x,
            None => {
                return None;
            },
        };
        match read_u64(bytes, b) {
            Some((offset, c)) => Some((ComputeCommand::DispatchIndirect { buffer_id, offset }, c)),
            None => None,
        }
    } else if tag == 5 {
        match read_label_command(bytes, a) {
            Some(((color, len), b)) => Some((ComputeCommand::PushDebugGroup { color, len }, b)),
            None => None,
        }
    } else if tag == 6 {
        Some((ComputeCommand::PopDebugGroup, a))
    } else if tag == 7 {
        match read_label_command(bytes, a) {
            Some(((color, len), b)) => Some((ComputeCommand::InsertDebugMarker { color, len }, b)),
            None => None,
        }
    } else {
        None
    }
}

fn read_commands(bytes: &[u8], pos: usize) -> (r: Option<(Vec<ComputeCommand>, usize)>)
    ensures
        match r {
            Some((v, next)) => p_commands(bytes@, pos as int) == Some((v@, next as int)),
            None => p_commands(bytes@, pos as int) is None,
        },
{
    let (n, a) = match read_u64(bytes, pos) {
        Some(x) => x,
        None => {
            return None;
        },
    };
    let mut list: Vec<ComputeCommand> = Vec::new();
    let mut at = a;
    let mut i: u64 = 0;
    while i < n
        invariant
            i <= n,
            p_u64(bytes@, pos as int) == Some((n, a as int)),
            p_commands_to(bytes@, a as int, i as nat) == Some((list@, at as int)),
        decreases n - i,
    {
        match read_command(bytes, at) {
            Some((c, next)) => {
                list.push(c);
                at = next;
            },
            None => {
                proof {
                    assert(p_commands_to(bytes@, a as int, (i + 1) as nat) is None);
                    lemma_commands_stop(bytes@, a as int, (i + 1) as nat, n as nat);
                }
                return None;
            },
        }
        i += 1;
    }
    Some((list, at))
}

/// Reads a transcript at a place in bytes. Gives the transcript and the
/// place after it, or nothing if no transcript stands there.
pub fn read_pass(bytes: &[u8], pos: usize) -> (r: Option<(BasePass<ComputeCommand>, usize)>)
    ensures
        match r {
            Some((v, next)) => p_pass(bytes@, pos as int) == Some((v@, next as int)),
            None => p_pass(bytes@, pos as int) is None,
        },
{
    let (label, a) = match read_option_string(bytes, pos) {
        Some(x) => x,
        None => {
            return None;
        },
    };
    let (commands, b) = match read_commands(bytes, a) {
        Some(x) => x,
        None => {
            return None;
        },
    };
    let (dynamic_offsets, c) = match read_words(bytes, b) {
        Some(x) => x,
        None => {
            return None;
        },
    };
    let (string_data, d) = match read_bytes(bytes, c) {
        Some(x) => x,
        None => {
            return None;
        },
    };
    match read_words(bytes, d) {
        Some((push_constant_data, e)) => Some(
            (BasePass { label, commands, dynamic_offsets, string_data, push_constant_data }, e),
        ),
        None => None,
    }
}

fn read_copy(bytes: &[u8], pos: usize) -> (r: Option<(CommandEncoderAction, usize)>)
    ensures
        match r {
            Some((v, next)) => p_copy(bytes@, pos as int) == Some((v@, next as int)),
            None => p_copy(bytes@, pos as int) is None,
        },
{
    let (src, a) = match read_id(bytes, pos) {
        Some(x) => x,
        None => {
            return None;
        },
    };
    let (src_offset, b) = match read_u64(bytes, a) {
        Some(x) => x,
        None => {
            return None;
        },
    };
    let (dst, c) = match read_id(bytes, b) {
        Some(x) => x,
        None => {
            return None;
        },
    };
    let (dst_offset, d) = match read_u64(bytes, c) {
        Some(x) => x,
        None => {
            return None;
        },
    };
    match read_u64(bytes, d) {
        Some((size, e)) => Some(
            (CommandEncoderAction::CopyBufferToBuffer { src, src_offset, dst, dst_offset, size }, e),
        ),
        None => None,
    }
}

/// Reads an action on an encoder at a place in bytes. Gives the action and
/// the place after it, or nothing if no action stands there.
pub fn read_encoder_action(bytes: &[u8], pos: usize) -> (r: Option<(CommandEncoderAction, usize)>)
    ensures
        match r {
            Some((v, next)) => p_encoder_action(bytes@, pos as int) == Some((v@, next as int)),
            None => p_encoder_action(bytes@, pos as int) is None,
        },
{
    let (tag, a) = match read_u32(bytes, pos) {
        Some(x) => x,
        None => {
            return None;
        },
    };
    if tag == 0 {
        read_copy(bytes, a)
    } else if tag == 1 {
        match read_pass(bytes, a) {
            Some((base, b)) => Some((CommandEncoderAction::RunComputePass { base }, b)),
            None => None,
        }
    } else if tag == 2 {
        match read_string(bytes, a) {
            Some((marker, b)) => Some((CommandEncoderAction::PushDebugGroup(marker), b)),
            None => None,
        }
    } else if tag == 3 {
        Some((CommandEncoderAction::PopDebugGroup, a))
    } else if tag == 4 {
        match read_string(bytes, a) {
            Some((marker, b)) => Some((CommandEncoderAction::InsertDebugMarker(marker), b)),
            None => None,
        }
    } else {
        None
    }
}

} // verus!
