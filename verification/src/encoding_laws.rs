//! What holds of encoded code.
//!
//! Each instruction's bytes stand at the offset that the instructions
//! before it take up, a label's offset is that of its marker, and a branch
//! is written with the distance from itself to the marker of its label.

use crate::big_endian::i16_be;
use crate::bytecode::{
    code_len, encode, encode_form, encode_with, label_offsets, lemma_code_len_grows, Form,
    Instruction, Label,
};
use vstd::prelude::*;

verus! {

/// The byte offset of the instruction at `index`: the length of the code
/// before it.
pub open spec fn offset_of(code: Seq<Instruction>, index: int) -> nat {
    code_len(code.take(index))
}

/// Whether the instruction at `index` is the last marker of `label`.
pub open spec fn marks(code: Seq<Instruction>, index: int, label: Label) -> bool {
    &&& 0 <= index < code.len()
    &&& code[index].form() == Form::Marker(label)
    &&& forall|later: int|
        index < later < code.len() ==> (#[trigger] code[later]).form() != Form::Marker(label)
}

/// Code that can be written takes as many bytes as its instructions do
/// together, and the bytes of each instruction stand at its offset.
pub proof fn lemma_instruction_bytes(
    code: Seq<Instruction>,
    offsets: Map<Label, nat>,
    index: int,
)
    requires
        encode_with(code, offsets) is Ok,
        0 <= index < code.len(),
    ensures
        encode_with(code, offsets).unwrap().len() == code_len(code),
        encode_form(code[index].form(), offset_of(code, index), offsets) is Ok,
        offset_of(code, index) + code[index].form().len() == offset_of(code, index + 1),
        offset_of(code, index + 1) <= code_len(code),
        encode_with(code, offsets).unwrap().subrange(
            offset_of(code, index) as int,
            offset_of(code, index + 1) as int,
        ) == encode_form(code[index].form(), offset_of(code, index), offsets).unwrap(),
    decreases code.len(),
{
    let before = code.drop_last();
    let bytes = encode_with(code, offsets).unwrap();
    let head = encode_with(before, offsets).unwrap();
    let tail = encode_form(code.last().form(), code_len(before), offsets).unwrap();
    lemma_encoding_length(before, offsets);
    lemma_encoding_length(code, offsets);
    assert(code.take(index + 1).drop_last() =~= code.take(index));
    assert(code.take(index + 1).last() == code[index]);
    lemma_code_len_grows(code, index + 1);
    if index == code.len() - 1 {
        assert(code.take(index) =~= before);
        assert(code.take(index + 1) =~= code);
        assert(bytes.subrange(head.len() as int, bytes.len() as int) =~= tail);
    } else {
        lemma_instruction_bytes(before, offsets, index);
        assert(before.take(index) =~= code.take(index));
        assert(before.take(index + 1) =~= code.take(index + 1));
        assert(bytes.subrange(offset_of(code, index) as int, offset_of(code, index + 1) as int)
            =~= head.subrange(
            offset_of(code, index) as int,
            offset_of(code, index + 1) as int,
        ));
    }
}

/// Code that can be written takes as many bytes as its instructions do
/// together.
pub proof fn lemma_encoding_length(code: Seq<Instruction>, offsets: Map<Label, nat>)
    requires
        encode_with(code, offsets) is Ok,
    ensures
        encode_with(code, offsets).unwrap().len() == code_len(code),
    decreases code.len(),
{
    if code.len() > 0 {
        lemma_encoding_length(code.drop_last(), offsets);
    }
}

/// A label has an offset exactly if the code holds a marker of it, and the
/// offset is that of its last marker.
pub proof fn lemma_label_offset(code: Seq<Instruction>, label: Label)
    ensures
        label_offsets(code).contains_key(label) <==> exists|index: int| marks(code, index, label),
        forall|index: int|
            marks(code, index, label) ==> label_offsets(code)[label] == #[trigger] offset_of(
                code,
                index,
            ),
    decreases code.len(),
{
    if code.len() > 0 {
        let before = code.drop_last();
        let last = code.len() - 1;
        lemma_label_offset(before, label);
        if code.last().form() == Form::Marker(label) {
            assert(marks(code, last, label));
            assert(code.take(last) =~= before);
            assert forall|index: int| marks(code, index, label) implies label_offsets(code)[label]
                == #[trigger] offset_of(code, index) by {
                if index != last {
                    assert(code[last].form() != Form::Marker(label));
                }
            }
        } else {
            assert forall|index: int| marks(code, index, label) implies marks(
                before,
                index,
                label,
            ) && offset_of(code, index) == offset_of(before, index) by {
                assert(before.take(index) =~= code.take(index));
                assert forall|later: int| index < later < before.len() implies (
                #[trigger] before[later]).form() != Form::Marker(label) by {
                    assert(code[later].form() != Form::Marker(label));
                }
            }
            if exists|index: int| marks(before, index, label) {
                let index = choose|index: int| marks(before, index, label);
                assert forall|later: int| index < later < code.len() implies (
                #[trigger] code[later]).form() != Form::Marker(label) by {
                    if later < before.len() {
                        assert(before[later].form() != Form::Marker(label));
                    }
                }
                assert(marks(code, index, label));
            }
            assert(label_offsets(code).contains_key(label) == label_offsets(before).contains_key(
                label,
            ));
            if exists|index: int| marks(code, index, label) {
                let index = choose|index: int| marks(code, index, label);
                assert(marks(before, index, label));
            }
        }
    } else {
        assert(forall|index: int| !marks(code, index, label));
    }
}

/// In code that was encoded, every branch names a label that has a marker,
/// and the three bytes at the branch's offset are its opcode and the signed
/// distance from the branch to the last marker of its label.
pub proof fn lemma_branch_resolved(code: Seq<Instruction>, branch: int, opcode: u8, label: Label)
    requires
        encode(code) is Ok,
        0 <= branch < code.len(),
        code[branch].form() == Form::Branch(opcode, label),
    ensures
        exists|marker: int| marks(code, marker, label),
        forall|marker: int| #[trigger]
            marks(code, marker, label) ==> {
                &&& i16::MIN <= offset_of(code, marker) - offset_of(code, branch) <= i16::MAX
                &&& offset_of(code, branch) + 3 <= encode(code).unwrap().len()
                &&& encode(code).unwrap().subrange(
                    offset_of(code, branch) as int,
                    offset_of(code, branch) as int + 3,
                ) == seq![opcode] + i16_be(
                    (offset_of(code, marker) - offset_of(code, branch)) as i16,
                )
            },
{
    lemma_instruction_bytes(code, label_offsets(code), branch);
    lemma_label_offset(code, label);
}

/// Offsets grow along the code: an instruction stands no earlier than the
/// ones before it, and later than where an instruction that takes room
/// stands before it.
pub proof fn lemma_offsets_grow(code: Seq<Instruction>, earlier: int, later: int)
    requires
        0 <= earlier <= later <= code.len(),
    ensures
        offset_of(code, earlier) <= offset_of(code, later),
        forall|between: int|
            earlier <= between < later && (#[trigger] code[between]).form().len() > 0
                ==> offset_of(code, earlier) < offset_of(code, later),
{
    assert(code.take(later).take(earlier) =~= code.take(earlier));
    lemma_code_len_grows(code.take(later), earlier);
    assert forall|between: int|
        earlier <= between < later && (#[trigger] code[between]).form().len() > 0 implies offset_of(
        code,
        earlier,
    ) < offset_of(code, later) by {
        assert(code.take(between + 1).take(earlier) =~= code.take(earlier));
        lemma_code_len_grows(code.take(between + 1), earlier);
        assert(code.take(later).take(between + 1) =~= code.take(between + 1));
        lemma_code_len_grows(code.take(later), between + 1);
        assert(code.take(between + 1).drop_last() =~= code.take(between));
        assert(code.take(between + 1).last() == code[between]);
        assert(code.take(between).take(earlier) =~= code.take(earlier));
        lemma_code_len_grows(code.take(between), earlier);
    }
}

/// In code that was encoded, a branch to a label whose last marker stands
/// before the branch, with an instruction that takes room from the marker
/// on, is written with a negative distance: it jumps back. A branch whose
/// marker stands behind it is written with a positive distance.
pub proof fn lemma_direction_of_a_jump(
    code: Seq<Instruction>,
    branch: int,
    marker: int,
    opcode: u8,
    label: Label,
)
    requires
        encode(code) is Ok,
        0 <= branch < code.len(),
        code[branch].form() == Form::Branch(opcode, label),
        marks(code, marker, label),
    ensures
        encode(code).unwrap().subrange(
            offset_of(code, branch) as int,
            offset_of(code, branch) as int + 3,
        ) == seq![opcode] + i16_be((offset_of(code, marker) - offset_of(code, branch)) as i16),
        marker < branch ==> offset_of(code, marker) - offset_of(code, branch) <= 0,
        (exists|between: int|
            marker <= between < branch && (#[trigger] code[between]).form().len() > 0)
            ==> offset_of(code, marker) - offset_of(code, branch) < 0,
        branch < marker ==> offset_of(code, marker) - offset_of(code, branch) >= 3,
{
    lemma_branch_resolved(code, branch, opcode, label);
    if marker < branch {
        lemma_offsets_grow(code, marker, branch);
    }
    if branch < marker {
        lemma_offsets_grow(code, branch + 1, marker);
        assert(code.take(branch + 1).drop_last() =~= code.take(branch));
        assert(code.take(branch + 1).last() == code[branch]);
    }
}

} // verus!
