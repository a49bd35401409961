//! What holds of the code that the compiler writes, whatever the source.

use vstd::prelude::*;
use crate::chunk::{
    added_constant_is_found, first_equal_is_least, values_eq_is_transitive, Opcode, MAX_CONSTANTS,
};
use crate::compiler::induction::parse_precedence_grows;
use crate::compiler::model::{deeper, ParserView, Precedence, MAX_JUMP};
use crate::compiler::progress::{
    emit_byte_grows, emit_jump_grows, growth_extends, grows_transitively, patch_jump_grows,
};
use crate::value::{values_eq, ValueView};
use crate::vm::{EffectView, VmView};

verus! {

/// `n` times the line `line`.
pub open spec fn repeated(line: u32, n: nat) -> Seq<u32> {
    Seq::new(n, |i: int| line)
}

/// The bytes that one call appends all carry the line of the token parsed
/// last, and nothing else in the chunk changes.
pub proof fn emitted_bytes_share_the_line(state: ParserView, bytes: Seq<u8>)
    ensures
        state.emit_bytes(bytes).chunk.code == state.chunk.code + bytes,
        state.emit_bytes(bytes).chunk.lines == state.chunk.lines + repeated(
            state.previous.line,
            bytes.len(),
        ),
        state.emit_bytes(bytes).chunk.constants == state.chunk.constants,
        state.emit_bytes(bytes).previous == state.previous,
    decreases bytes.len(),
{
    reveal(ParserView::emit_bytes);
    if bytes.len() == 0 {
        assert(state.chunk.code + bytes =~= state.chunk.code);
        assert(state.chunk.lines + repeated(state.previous.line, 0) =~= state.chunk.lines);
    } else {
        let front = bytes.drop_last();
        emitted_bytes_share_the_line(state, front);
        assert(state.emit_bytes(bytes).chunk.code =~= state.chunk.code + bytes);
        assert(state.emit_bytes(bytes).chunk.lines =~= state.chunk.lines + repeated(
            state.previous.line,
            bytes.len(),
        ));
    }
}

/// The three bytes of a jump carry one line: the operand shares the line of
/// its opcode.
pub proof fn jump_shares_the_line(state: ParserView, instruction: u8)
    ensures
        state.emit_jump(instruction).chunk.code == state.chunk.code + seq![
            instruction,
            0xffu8,
            0xffu8,
        ],
        state.emit_jump(instruction).chunk.lines == state.chunk.lines + repeated(
            state.previous.line,
            3,
        ),
        state.emit_jump(instruction).here() == state.jump_operand() + 2,
{
    assert(state.emit_jump(instruction).chunk.code =~= state.chunk.code + seq![
        instruction,
        0xffu8,
        0xffu8,
    ]);
    assert(state.emit_jump(instruction).chunk.lines =~= state.chunk.lines + repeated(
        state.previous.line,
        3,
    ));
}

/// The instruction that loads a constant carries one line, and its operand
/// is the id under which the constant is in the pool.
pub proof fn constant_shares_the_line(state: ParserView, value: ValueView)
    ensures
        state.emit_constant(value).chunk.code == state.chunk.code + seq![
            Opcode::Constant.byte(),
            state.constant_id(value),
        ],
        state.emit_constant(value).chunk.lines == state.chunk.lines + repeated(
            state.previous.line,
            2,
        ),
{
    reveal(ParserView::emit_constant);
    reveal(ParserView::make_constant);
    reveal(ParserView::error_at);
    emitted_bytes_share_the_line(
        state.make_constant(value),
        seq![Opcode::Constant.byte(), state.constant_id(value)],
    );
}

/// A constant that the compiler has put into the pool is found there by
/// every value equal to it, under the id that the compiler used, and stays
/// under that id when further constants are put in.
pub proof fn constant_keeps_its_id(
    state: ParserView,
    value: ValueView,
    probe: ValueView,
    later: ValueView,
)
    requires
        state.chunk.wf(),
        values_eq(value, probe),
        state.chunk.find(value) is Some || state.chunk.constants.len() < MAX_CONSTANTS,
    ensures
        state.make_constant(value).chunk.find(probe) == Some(state.constant_id(value)),
        state.make_constant(value).make_constant(later).chunk.find(probe) == Some(
            state.constant_id(value),
        ),
{
    reveal(ParserView::make_constant);
    reveal(ParserView::error_at);
    let made = state.make_constant(value);
    if state.chunk.find(value) is Some {
        first_equal_is_least(state.chunk.constants, value);
        first_equal_is_least(state.chunk.constants, probe);
        let i = crate::chunk::first_equal(state.chunk.constants, value)->0;
        let j = crate::chunk::first_equal(state.chunk.constants, probe)->0;
        values_eq_is_transitive(state.chunk.constants[i], value, probe);
        if crate::chunk::first_equal(state.chunk.constants, probe) is Some {
            values_eq_is_transitive(state.chunk.constants[j], value, probe);
        }
    } else {
        added_constant_is_found(state.chunk, value, probe);
    }
    let after = made.make_constant(later);
    if after.chunk != made.chunk {
        assert(after.chunk.constants.take(made.chunk.constants.len() as int)
            =~= made.chunk.constants);
    } else {
        assert(after.chunk.constants.take(made.chunk.constants.len() as int)
            =~= made.chunk.constants);
    }
    crate::chunk::found_constant_stays(made.chunk, probe, after.chunk);
}

/// A forward jump whose operand stands at `operand` and that is patched when
/// the code has reached `target` gets the operand `target - operand - 2`:
/// the distance from behind the operand to the target.
pub proof fn patched_jump_spans_to_the_target(state: ParserView, operand: int)
    requires
        0 <= operand,
        operand + 2 <= state.here(),
        state.here() - operand - 2 <= MAX_JUMP,
    ensures
        state.patch_jump(operand).chunk.operand(operand) == state.here() - operand - 2,
        state.patch_jump(operand).here() == state.here(),
        state.patch_jump(operand).chunk.lines == state.chunk.lines,
        !state.patch_jump(operand).had_error || state.had_error,
{
    reveal(ParserView::patch_jump);
}

/// A jump that the machine takes lands on the target that the compiler
/// patched it for: where the instruction stands at `ip`, its operand at
/// `ip + 1` holds `target - (ip + 1) - 2`, and the top of the stack is
/// falsey, a step of `JumpIfFalse` goes on at `target` and leaves the stack
/// as it is. What lies between the jump and its target is not executed.
pub proof fn taken_jump_lands_on_its_target(machine: VmView, target: int, room: bool)
    requires
        machine.pending is None,
        0 <= machine.ip,
        machine.ip + 2 < machine.chunk.code.len(),
        machine.chunk.code[machine.ip] == Opcode::JumpIfFalse.byte(),
        machine.ip + 3 <= target <= machine.chunk.code.len(),
        machine.chunk.operand(machine.ip + 1) == target - (machine.ip + 1) - 2,
        machine.stack.len() > 0,
        crate::value::falsey(machine.top()),
    ensures
        machine.step(room) == (VmView { ip: target, ..machine }, EffectView::Continue),
{
    Opcode::byte_is_injective(
        Opcode::JumpIfFalse,
        choose|op: Opcode| op.byte() == machine.chunk.code[machine.ip],
    );
}

/// The locals that the end of a scope leaves are the oldest of those that
/// were there; every local it drops was deeper than the scope that goes on,
/// the newest local it leaves is not, and the code grows by one `Pop` for
/// each local dropped.
pub proof fn end_of_scope_pops_its_locals(state: ParserView)
    ensures
        ({
            let after = state.end_scope();
            let kept = after.locals.len() as int;
            let dropped = state.locals.len() - kept;
            &&& after.scope_depth == state.scope_depth - 1
            &&& 0 <= kept <= state.locals.len()
            &&& after.locals == state.locals.take(kept)
            &&& forall|i: int|
                kept <= i < state.locals.len() ==> deeper(
                    (#[trigger] state.locals[i]).depth,
                    after.scope_depth,
                )
            &&& kept > 0 ==> !deeper(state.locals[kept - 1].depth, after.scope_depth)
            &&& after.chunk.code == state.chunk.code + Seq::new(
                dropped as nat,
                |i: int| Opcode::Pop.byte(),
            )
        }),
{
    reveal(ParserView::end_scope);
    pop_locals_pops_the_deeper(state.end_scope_begin());
}

proof fn pop_locals_pops_the_deeper(state: ParserView)
    ensures
        ({
            let after = state.pop_locals();
            let kept = after.locals.len() as int;
            let dropped = state.locals.len() - kept;
            &&& after.scope_depth == state.scope_depth
            &&& 0 <= kept <= state.locals.len()
            &&& after.locals == state.locals.take(kept)
            &&& forall|i: int|
                kept <= i < state.locals.len() ==> deeper(
                    (#[trigger] state.locals[i]).depth,
                    state.scope_depth,
                )
            &&& kept > 0 ==> !deeper(state.locals[kept - 1].depth, state.scope_depth)
            &&& after.chunk.code == state.chunk.code + Seq::new(
                dropped as nat,
                |i: int| Opcode::Pop.byte(),
            )
        }),
    decreases state.locals.len(),
{
    reveal(ParserView::pop_locals);
    let after = state.pop_locals();
    if state.locals.len() > 0 && deeper(state.locals.last().depth, state.scope_depth) {
        let popped = ParserView {
            locals: state.locals.drop_last(),
            ..state.emit_byte(Opcode::Pop.byte())
        };
        pop_locals_pops_the_deeper(popped);
        let kept = after.locals.len() as int;
        let dropped = state.locals.len() - kept;
        assert(after.locals =~= state.locals.take(kept));
        assert(after.chunk.code =~= state.chunk.code + Seq::new(
            dropped as nat,
            |i: int| Opcode::Pop.byte(),
        ));
        assert forall|i: int| kept <= i < state.locals.len() implies deeper(
            (#[trigger] state.locals[i]).depth,
            state.scope_depth,
        ) by {
            if i < state.locals.len() - 1 {
                assert(popped.locals[i] == state.locals[i]);
            }
        }
    } else {
        assert(after.locals =~= state.locals.take(state.locals.len() as int));
        assert(after.chunk.code =~= state.chunk.code + Seq::new(
            0nat,
            |i: int| Opcode::Pop.byte(),
        ));
    }
}

/// A jump that the machine takes without a condition lands on the target
/// that the compiler patched it for.
pub proof fn jump_lands_on_its_target(machine: VmView, target: int, room: bool)
    requires
        machine.pending is None,
        0 <= machine.ip,
        machine.ip + 2 < machine.chunk.code.len(),
        machine.chunk.code[machine.ip] == Opcode::Jump.byte(),
        machine.ip + 3 <= target <= machine.chunk.code.len(),
        machine.chunk.operand(machine.ip + 1) == target - (machine.ip + 1) - 2,
    ensures
        machine.step(room) == (VmView { ip: target, ..machine }, EffectView::Continue),
{
    Opcode::byte_is_injective(
        Opcode::Jump,
        choose|op: Opcode| op.byte() == machine.chunk.code[machine.ip],
    );
}

/// A conditional jump that the machine does not take leaves everything but
/// the instruction pointer as it is.
pub proof fn untaken_jump_goes_on(machine: VmView, room: bool)
    requires
        machine.pending is None,
        0 <= machine.ip,
        machine.ip + 2 < machine.chunk.code.len(),
        machine.chunk.code[machine.ip] == Opcode::JumpIfFalse.byte(),
        machine.stack.len() > 0,
        !crate::value::falsey(machine.top()),
    ensures
        machine.step(room) == (VmView { ip: machine.ip + 3, ..machine }, EffectView::Continue),
{
    Opcode::byte_is_injective(
        Opcode::JumpIfFalse,
        choose|op: Opcode| op.byte() == machine.chunk.code[machine.ip],
    );
}

/// What the code of an `and` looks like: at the offset where it begins
/// stands a `JumpIfFalse` whose operand spans to the end of the code of the
/// right operand, unless that is too far for a jump.
pub proof fn and_jumps_over_its_right_operand(state: ParserView)
    requires
        state.wf(),
        state.and_().here() - state.here() - 3 <= MAX_JUMP,
    ensures
        state.and_().grows_from(state),
        state.here() + 4 <= state.and_().here(),
        state.and_().chunk.code[state.here()] == Opcode::JumpIfFalse.byte(),
        state.and_().chunk.operand(state.here() + 1) == state.and_().here() - state.here() - 3,
{
    let at = state.here();
    let jumped = state.emit_jump(Opcode::JumpIfFalse.byte());
    emit_jump_grows(state, Opcode::JumpIfFalse.byte());
    jump_shares_the_line(state, Opcode::JumpIfFalse.byte());
    growth_extends(jumped, state);
    let popped = jumped.emit_byte(Opcode::Pop.byte());
    emit_byte_grows(jumped, Opcode::Pop.byte());
    growth_extends(popped, jumped);
    grows_transitively(state, jumped, popped);
    parse_precedence_grows(popped, Precedence::And);
    let right = popped.parse_precedence(Precedence::And);
    growth_extends(right, popped);
    grows_transitively(state, popped, right);
    patch_jump_grows(right, at + 1, state);
    patched_jump_spans_to_the_target(right, at + 1);
    assert(right.chunk.code[at] == Opcode::JumpIfFalse.byte()) by {
        reveal(ParserView::grows_from);
        assert(right.chunk.code.take(popped.here())[at] == popped.chunk.code[at]);
        assert(jumped.chunk.code[at] == Opcode::JumpIfFalse.byte());
    }
    assert(right.patch_jump(at + 1).chunk.code[at] == right.chunk.code[at]) by {
        reveal(ParserView::patch_jump);
    }
}

/// Short circuit of `and`: where the machine runs code that was compiled
/// from a state on, stands at the jump of an `and` compiled then, and has a
/// falsey left operand on top of its stack, one step takes it behind the
/// code of the right operand with the stack as it is. The right operand is
/// not evaluated, and the left one is the result.
pub proof fn and_skips_its_right_operand(
    state: ParserView,
    end: ParserView,
    machine: VmView,
    room: bool,
)
    requires
        state.wf(),
        state.and_().here() - state.here() - 3 <= MAX_JUMP,
        end.grows_from(state.and_()),
        machine.chunk == end.chunk,
        machine.ip == state.here(),
        machine.pending is None,
        machine.stack.len() > 0,
        crate::value::falsey(machine.top()),
    ensures
        machine.step(room) == (
            VmView { ip: state.and_().here(), ..machine },
            EffectView::Continue,
        ),
{
    and_jumps_over_its_right_operand(state);
    let done = state.and_();
    growth_extends(end, done);
    assert(end.chunk.code[state.here()] == done.chunk.code[state.here()]
        && end.chunk.code[state.here() + 1] == done.chunk.code[state.here() + 1]
        && end.chunk.code[state.here() + 2] == done.chunk.code[state.here() + 2]) by {
        reveal(ParserView::grows_from);
        assert(end.chunk.code.take(done.here())[state.here()] == done.chunk.code[state.here()]);
        assert(end.chunk.code.take(done.here())[state.here() + 1]
            == done.chunk.code[state.here() + 1]);
        assert(end.chunk.code.take(done.here())[state.here() + 2]
            == done.chunk.code[state.here() + 2]);
    }
    taken_jump_lands_on_its_target(machine, done.here(), room);
}

/// What the code of an `or` looks like: a `JumpIfFalse` to behind the jump
/// that follows it, and that `Jump`, whose operand spans to the end of the
/// code of the right operand, unless that is too far for a jump.
pub proof fn or_jumps_over_its_right_operand(state: ParserView)
    requires
        state.wf(),
        state.or_().here() - state.here() - 6 <= MAX_JUMP,
    ensures
        state.or_().grows_from(state),
        state.here() + 7 <= state.or_().here(),
        state.or_().chunk.code[state.here()] == Opcode::JumpIfFalse.byte(),
        state.or_().chunk.operand(state.here() + 1) == 3,
        state.or_().chunk.code[state.here() + 3] == Opcode::Jump.byte(),
        state.or_().chunk.operand(state.here() + 4) == state.or_().here() - state.here() - 6,
{
    let at = state.here();
    let first = state.emit_jump(Opcode::JumpIfFalse.byte());
    emit_jump_grows(state, Opcode::JumpIfFalse.byte());
    jump_shares_the_line(state, Opcode::JumpIfFalse.byte());
    growth_extends(first, state);
    let second = first.emit_jump(Opcode::Jump.byte());
    emit_jump_grows(first, Opcode::Jump.byte());
    jump_shares_the_line(first, Opcode::Jump.byte());
    growth_extends(second, first);
    grows_transitively(state, first, second);
    patch_jump_grows(second, at + 1, state);
    patched_jump_spans_to_the_target(second, at + 1);
    let patched = second.patch_jump(at + 1);
    growth_extends(patched, state);
    assert(patched.chunk.code[at] == Opcode::JumpIfFalse.byte() && patched.chunk.code[at + 3]
        == Opcode::Jump.byte() && patched.chunk.code.len() == at + 6) by {
        reveal(ParserView::patch_jump);
    }
    let left = patched.emit_byte(Opcode::Pop.byte());
    emit_byte_grows(patched, Opcode::Pop.byte());
    growth_extends(left, patched);
    grows_transitively(state, patched, left);
    parse_precedence_grows(left, Precedence::Or);
    let right = left.parse_precedence(Precedence::Or);
    growth_extends(right, left);
    grows_transitively(state, left, right);
    patch_jump_grows(right, at + 4, state);
    patched_jump_spans_to_the_target(right, at + 4);
    assert(right.chunk.code[at] == patched.chunk.code[at] && right.chunk.code[at + 1]
        == patched.chunk.code[at + 1] && right.chunk.code[at + 2] == patched.chunk.code[at + 2]
        && right.chunk.code[at + 3] == patched.chunk.code[at + 3]) by {
        reveal(ParserView::grows_from);
        assert(left.chunk.code.take(patched.here()) == patched.chunk.code);
        assert(right.chunk.code.take(left.here())[at] == left.chunk.code[at]);
        assert(right.chunk.code.take(left.here())[at + 1] == left.chunk.code[at + 1]);
        assert(right.chunk.code.take(left.here())[at + 2] == left.chunk.code[at + 2]);
        assert(right.chunk.code.take(left.here())[at + 3] == left.chunk.code[at + 3]);
        assert(left.chunk.code.take(patched.here())[at] == patched.chunk.code[at]);
        assert(left.chunk.code.take(patched.here())[at + 1] == patched.chunk.code[at + 1]);
        assert(left.chunk.code.take(patched.here())[at + 2] == patched.chunk.code[at + 2]);
        assert(left.chunk.code.take(patched.here())[at + 3] == patched.chunk.code[at + 3]);
    }
    assert(right.patch_jump(at + 4).chunk.code[at] == right.chunk.code[at] && right.patch_jump(
        at + 4,
    ).chunk.code[at + 1] == right.chunk.code[at + 1] && right.patch_jump(
        at + 4,
    ).chunk.code[at + 2] == right.chunk.code[at + 2] && right.patch_jump(
        at + 4,
    ).chunk.code[at + 3] == right.chunk.code[at + 3]) by {
        reveal(ParserView::patch_jump);
    }
}

/// Short circuit of `or`: where the machine runs code that was compiled
/// from a state on, stands at the first jump of an `or` compiled then, and
/// has a truthy left operand on top of its stack, two steps take it behind
/// the code of the right operand with the stack as it is. The right operand
/// is not evaluated, and the left one is the result.
pub proof fn or_skips_its_right_operand(
    state: ParserView,
    end: ParserView,
    machine: VmView,
    room: bool,
)
    requires
        state.wf(),
        state.or_().here() - state.here() - 6 <= MAX_JUMP,
        end.grows_from(state.or_()),
        machine.chunk == end.chunk,
        machine.ip == state.here(),
        machine.pending is None,
        machine.stack.len() > 0,
        !crate::value::falsey(machine.top()),
    ensures
        machine.step(room) == (VmView { ip: state.here() + 3, ..machine }, EffectView::Continue),
        machine.step(room).0.step(room) == (
            VmView { ip: state.or_().here(), ..machine },
            EffectView::Continue,
        ),
{
    or_jumps_over_its_right_operand(state);
    let done = state.or_();
    let at = state.here();
    growth_extends(end, done);
    assert(end.chunk.code[at] == done.chunk.code[at] && end.chunk.code[at + 3]
        == done.chunk.code[at + 3] && end.chunk.code[at + 4] == done.chunk.code[at + 4]
        && end.chunk.code[at + 5] == done.chunk.code[at + 5]) by {
        reveal(ParserView::grows_from);
        assert(end.chunk.code.take(done.here())[at] == done.chunk.code[at]);
        assert(end.chunk.code.take(done.here())[at + 3] == done.chunk.code[at + 3]);
        assert(end.chunk.code.take(done.here())[at + 4] == done.chunk.code[at + 4]);
        assert(end.chunk.code.take(done.here())[at + 5] == done.chunk.code[at + 5]);
    }
    untaken_jump_goes_on(machine, room);
    let after = VmView { ip: at + 3, ..machine };
    jump_lands_on_its_target(after, done.here(), room);
}

} // verus!
