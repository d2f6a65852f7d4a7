//! Properties that relate the operations of the library to one another.
use vstd::prelude::*;
use crate::api_helpers::ReturnValue;
use crate::byte_string::{ascii_lower, lowercased};
use crate::emulator::{delivered, interrupted, Emulator};
use crate::emulator_accessor::{copy_string_run, is_string_end, sp_lowered, stack_top, word_arg, EmulatorAccessor};
use crate::machine::{code_address, execute, fetch_u16, fetch_u8, call_far, pop16, push16, ret_far, read_mem, write_mem, Machine};
use crate::memory::{flat_of, with_word, word_at, MEMORY_SIZE};
use crate::message_queue::{is_first_match, passes_filter, WindowMessage};
use crate::handle_table::{fresh_free_bits, GenericHandle, GenericHandleTable, Handle};
use crate::bitvector_allocator::{cleared_bit, is_first_nonzero, set_bit, ENTRY_STRIDE};
use vstd::std_specs::bits::{axiom_u64_trailing_zeros, u64_trailing_zeros};
use crate::registers::{gpr8_of, high_byte, with_gpr8, wrap16, Registers, RegistersView};
use crate::util::{add_flags_spec, sub_flags_spec};
use crate::bitmap::Bitmap;
use crate::emulated_gdi::{gdi_call, moved_to, object_deleted};
use crate::emulator_error::EmulatorError;
use crate::heap::{heap_allocation, round_up_even, Heap, HeapAllocationError};
use crate::message_queue::{lemma_first_match_unique, left_after_receive, received};
use crate::object_environment::ObjectEnvironment;
use crate::two_d::Point;
use crate::loader::{locations_written, relocation_step, EntryTableEntry, RelocationType, RelocationView};
use crate::emulated_user::{is_window, paint_children, paint_tree, CallState, MAX_WINDOW_DEPTH};
use crate::object_environment::UserObject;
use crate::window_manager::{WindowManager, brought_to_front, front_bitmap_set, with_front_bitmap, Window, WindowIdentifier};

verus! {

/// A word written to memory reads back as that word, low byte first.
pub proof fn law_word_read_after_write(mem: Seq<u8>, a: int, v: u16)
    requires
        0 <= a,
        a + 1 < mem.len(),
    ensures
        word_at(with_word(mem, a, v), a) == v,
        with_word(mem, a, v)[a] == (v % 256) as u8,
        with_word(mem, a, v)[a + 1] == (v / 256) as u8,
        with_word(mem, a, v).len() == mem.len(),
{
    let m = with_word(mem, a, v);
    assert(m[a] == (v % 256) as u8);
    assert(m[a + 1] == (v / 256) as u8);
}

/// Writing a word leaves the words that do not overlap it as they were.
pub proof fn law_word_write_elsewhere(mem: Seq<u8>, a: int, b: int, v: u16)
    requires
        0 <= a,
        a + 1 < mem.len(),
        0 <= b,
        b + 1 < mem.len(),
        b + 1 < a || a + 1 < b,
    ensures
        word_at(with_word(mem, a, v), b) == word_at(mem, b),
{
}

/// A byte or word written by an instruction reads back as written (its low byte for a
/// byte write).
pub proof fn law_operand_read_after_write(mem: Seq<u8>, n: usize, a: int, v: u16)
    requires
        n == 8 || n == 16,
        0 <= a,
        write_mem(mem, n, a, v).0 is Ok,
    ensures
        read_mem(write_mem(mem, n, a, v).1, n, a) == Ok::<u16, crate::emulator_error::EmulatorError>(
            if n == 8 {
                v % 256
            } else {
                v
            } as u16,
        ),
{
    if n == 16 {
        law_word_read_after_write(mem, a, v);
    }
}

/// An 8-bit register reads back as written.
pub proof fn law_byte_register_read_after_write(gpr: Seq<u16>, index: int, data: u8)
    requires
        gpr.len() == 8,
        0 <= index < 8,
    ensures
        gpr8_of(with_gpr8(gpr, index, data), index) == data,
        with_gpr8(gpr, index, data).len() == 8,
{
}

/// Writing an 8-bit register leaves the other half of its 16-bit register as it was.
pub proof fn law_byte_register_keeps_other_half(gpr: Seq<u16>, index: int, data: u8)
    requires
        gpr.len() == 8,
        0 <= index < 8,
    ensures
        gpr8_of(with_gpr8(gpr, index, data), if index < 4 { index + 4 } else { index - 4 })
            == gpr8_of(gpr, if index < 4 { index + 4 } else { index - 4 }),
{
}

/// A push followed by a pop gives back the pushed word, with the registers as they were
/// before the push.
pub proof fn law_push_then_pop(m: Machine, v: u16)
    requires
        m.regs.gpr.len() == 8,
        m.regs.segments.len() == 8,
        push16(m, v).0 is Ok,
    ensures
        pop16(push16(m, v).1).0 == Ok::<u16, crate::emulator_error::EmulatorError>(v),
        pop16(push16(m, v).1).1.regs == m.regs,
        pop16(push16(m, v).1).1.mem == push16(m, v).1.mem,
{
    let pushed = push16(m, v).1;
    let a = stack_top(sp_lowered(m.regs));
    law_word_read_after_write(m.mem, a, v);
    let sp = m.regs.gpr[Registers::REG_SP as int];
    assert(wrap16(wrap16(sp - 2) + 2) == sp);
    assert(pop16(pushed).1.regs.gpr =~= m.regs.gpr);
}

/// A far call followed by a far return comes back to CS:IP after the call, with the
/// stack pointer as it was.
pub proof fn law_call_far_then_ret_far(m: Machine, segment: u16, offset: u16)
    requires
        m.regs.gpr.len() == 8,
        m.regs.segments.len() == 8,
        call_far(m, segment, offset).0 is Ok,
    ensures
        ret_far(call_far(m, segment, offset).1).0 is Ok,
        ret_far(call_far(m, segment, offset).1).1.regs == m.regs,
{
    let cs = m.regs.segments[Registers::REG_CS as int];
    let m1 = push16(m, cs).1;
    law_push_then_pop(m, cs);
    let m2 = push16(m1, m1.regs.ip).1;
    law_push_then_pop(m1, m1.regs.ip);
    let called = call_far(m, segment, offset).1;
    let a2 = stack_top(sp_lowered(m1.regs));
    let a1 = stack_top(sp_lowered(m.regs));
    law_word_read_after_write(m1.mem, a2, m1.regs.ip);
    let sp = m.regs.gpr[Registers::REG_SP as int];
    assert(wrap16(wrap16(sp - 2) - 2) == wrap16(sp - 4));
    assert(wrap16(wrap16(sp - 4) + 2) == wrap16(sp - 2));
    assert(wrap16(wrap16(sp - 2) + 2) == sp);
    if a2 + 1 < a1 || a1 + 1 < a2 {
        law_word_write_elsewhere(m1.mem, a2, a1, m1.regs.ip);
    }
    assert(ret_far(called).1.regs.gpr =~= m.regs.gpr);
    assert(ret_far(called).1.regs.segments =~= m.regs.segments);
}

/// A 16-bit subtraction undoes an addition of the same operand.
pub proof fn law_sub_undoes_add(a: u16, b: u16)
    ensures
        sub_flags_spec(16, add_flags_spec(16, a as int, b as int).0 as int, b as int).0 == a,
        add_flags_spec(16, sub_flags_spec(16, a as int, b as int).0 as int, b as int).0 == a,
{
    let m: int = 0x10000;
    assert(a as int % m == a);
    assert(b as int % m == b);
    let sum = if a + b >= m {
        a + b - m
    } else {
        a + b
    };
    assert((a + b) % m == sum);
    assert(sum % m == sum);
    assert((sum - b + m) % m == a);
    let diff = if a >= b {
        a - b
    } else {
        a - b + m
    };
    assert((a - b + m) % m == diff);
    assert(diff % m == diff);
    assert((diff + b) % m == a);
}

/// Turning a string into lower case twice is turning it once.
pub proof fn law_lowercase_idempotent(s: Seq<u8>)
    ensures
        lowercased(lowercased(s)) == lowercased(s),
{
    assert(lowercased(lowercased(s)) =~= lowercased(s));
}

/// The far address that a flat address below 1 MiB is split into names that flat
/// address again.
pub proof fn law_segment_and_offset_round_trip(address: u32)
    requires
        address < MEMORY_SIZE,
    ensures
        flat_of(
            (((address / 65536) * 4096) % 65536) as u16,
            (address % 65536) as u16,
        ) == address,
{
}

/// A receive on a queue with no filter takes the oldest message.
pub proof fn law_queue_first_in_first_out(m: WindowMessage, rest: Seq<WindowMessage>, h_wnd: Handle)
    requires
        h_wnd.id() == 0,
    ensures
        is_first_match(seq![m] + rest, h_wnd, 0),
        (seq![m] + rest)[0] == m,
        (seq![m] + rest).subrange(1, (seq![m] + rest).len() as int) == rest,
{
    assert((seq![m] + rest).subrange(1, (seq![m] + rest).len() as int) =~= rest);
}

/// A double word handed to the program reads back from DX:AX.
pub proof fn law_double_word_delivered_in_dx_ax(m: Machine, slot: Option<u32>, x: u32)
    requires
        m.regs.gpr.len() == 8,
    ensures
        delivered(m, slot, ReturnValue::U32(x)).0 is Ok,
        delivered(m, slot, ReturnValue::U32(x)).1.regs.gpr[Registers::REG_AX as int]
            + delivered(m, slot, ReturnValue::U32(x)).1.regs.gpr[Registers::REG_DX as int] * 65536 == x,
{
}

/// Taking a window's bitmap out for drawing and giving the same bitmap back leaves the
/// windows as they were.
pub proof fn law_bitmap_taken_and_returned(
    before: Seq<(WindowIdentifier, Window)>,
    taken: Seq<(WindowIdentifier, Window)>,
    after: Seq<(WindowIdentifier, Window)>,
    id: WindowIdentifier,
    b: Bitmap,
)
    requires
        forall|i: int| 0 <= i < before.len() && #[trigger] before[i].0 == id ==> before[i].1.front_bitmap == Some(b),
        front_bitmap_set(before, taken, id, None),
        front_bitmap_set(taken, after, id, Some(b)),
    ensures
        after == before,
{
    assert forall|i: int| 0 <= i < before.len() implies #[trigger] after[i] == before[i] by {
        if before[i].0 == id {
            assert(taken[i] == (id, with_front_bitmap(before[i].1, None)));
            assert(after[i].1 == with_front_bitmap(taken[i].1, Some(b)));
        }
    }
    assert(after =~= before);
}

/// A window brought to the front is on top of the stack.
pub proof fn law_shown_window_on_top(before: Seq<WindowIdentifier>, after: Seq<WindowIdentifier>, id: WindowIdentifier)
    requires
        brought_to_front(before, after, id),
    ensures
        after.len() > 0,
        after.last() == id,
{
    if exists|k: int| 0 <= k < before.len() && before[k] == id {
        let k = choose|k: int| 0 <= k < before.len() && before[k] == id;
        let first = choose_first(before, id, k);
        assert(after == before.remove(first).push(id));
    } else {
        assert(after == before.push(id));
    }
}

/// After a window is brought to the front of a window manager, it is on the stack exactly
/// once: on top.
pub proof fn law_shown_window_on_stack_once(before: WindowManager, after: WindowManager, id: WindowIdentifier)
    requires
        after.wf(),
        brought_to_front(before.stack(), after.stack(), id),
    ensures
        after.stack().len() > 0,
        after.stack().last() == id,
        forall|i: int| 0 <= i < after.stack().len() - 1 ==> after.stack()[i] != id,
{
    law_shown_window_on_top(before.stack(), after.stack(), id);
    let n = after.stack().len() - 1;
    assert forall|i: int| 0 <= i < after.stack().len() - 1 implies after.stack()[i] != id by {
        assert(after.stack()[i] != after.stack()[n]);
    }
}

/// The first position at or before `k` that holds `id`, when `k` holds it.
proof fn choose_first(s: Seq<WindowIdentifier>, id: WindowIdentifier, k: int) -> (first: int)
    requires
        0 <= k < s.len(),
        s[k] == id,
    ensures
        0 <= first <= k,
        s[first] == id,
        forall|i: int| 0 <= i < first ==> s[i] != id,
    decreases k,
{
    if exists|j: int| 0 <= j < k && s[j] == id {
        let j = choose|j: int| 0 <= j < k && s[j] == id;
        choose_first(s, id, j)
    } else {
        k
    }
}

/// Two fixed blocks taken one after the other from a local heap do not overlap: the
/// second starts where the first, rounded up to an even size, ends.
pub proof fn law_fixed_blocks_follow_each_other(h0: Heap, h1: Heap, h2: Heap, size1: u16, size2: u16, p1: u16, p2: u16)
    requires
        heap_allocation(h0, h1, true, size1, Ok((p1, p1))),
        heap_allocation(h1, h2, true, size2, Ok((p2, p2))),
        h0.next_allocation() + h0.allocation_base() <= u16::MAX,
        h0.max_size() + h0.allocation_base() <= u16::MAX,
    ensures
        p1 + size1 <= p2,
        p2 == p1 + round_up_even(size1 as int),
{
}

/// After MoveTo sets a device context's position, the next MoveTo on it reports that
/// position (x in the low word, y in the high word).
pub proof fn law_move_to_reports_previous_position(
    o0: ObjectEnvironment,
    o1: ObjectEnvironment,
    o2: ObjectEnvironment,
    hdc: Handle,
    p: Point,
    q: Point,
    r1: Result<ReturnValue, EmulatorError>,
    r2: Result<ReturnValue, EmulatorError>,
)
    requires
        o0.gdi.table().contains_key(hdc.id()),
        o0.gdi.table()[hdc.id()] is DC,
        moved_to(o0, o1, hdc, p, r1),
        moved_to(o1, o2, hdc, q, r2),
    ensures
        r2 == Ok::<ReturnValue, EmulatorError>(ReturnValue::U32(((p.y as u16) * 65536 + (p.x as u16)) as u32)),
{
    assert(o1.gdi.table().contains_key(hdc.id()));
}

/// A GDI handle that DeleteObject forgot names nothing afterwards: deleting it again
/// reports 0.
pub proof fn law_deleted_object_is_gone(
    o0: ObjectEnvironment,
    o1: ObjectEnvironment,
    o2: ObjectEnvironment,
    handle: Handle,
    r1: Result<ReturnValue, EmulatorError>,
    r2: Result<ReturnValue, EmulatorError>,
)
    requires
        object_deleted(o0, o1, handle, r1),
        object_deleted(o1, o2, handle, r2),
    ensures
        !o1.gdi.table().contains_key(handle.id()),
        r2 == Ok::<ReturnValue, EmulatorError>(ReturnValue::U16(0)),
{
}

/// GetMessage hands out the messages of a window in the order they were sent.
pub proof fn law_messages_taken_in_order(q: Seq<WindowMessage>, m1: WindowMessage, m2: WindowMessage, h: Handle)
    requires
        m1.h_wnd == h,
        m2.h_wnd == h,
        forall|i: int| 0 <= i < q.len() ==> !passes_filter(#[trigger] q[i], h),
    ensures
        received(q.push(m1).push(m2), h) == Some(m1),
        received(left_after_receive(q.push(m1).push(m2), h), h) == Some(m2),
{
    let s = q.push(m1).push(m2);
    let n = q.len() as int;
    assert(is_first_match(s, h, n));
    let c = choose|k: int| is_first_match(s, h, k);
    lemma_first_match_unique(s, h, n, c);
    let rest = left_after_receive(s, h);
    assert(rest =~= seq![m2]);
    assert(is_first_match(rest, h, 0));
    let c2 = choose|k: int| is_first_match(rest, h, k);
    lemma_first_match_unique(rest, h, 0, c2);
}


/// An object stored under a handle is found under it, until it is forgotten; then the
/// handle names nothing.
pub proof fn law_registered_object_found_until_deregistered<K: GenericHandle, V>(
    t0: GenericHandleTable<K, V>,
    t1: GenericHandleTable<K, V>,
    t2: GenericHandleTable<K, V>,
    h: K,
    value: V,
)
    requires
        t1.table() == t0.table().insert(h.id(), value),
        t2.table() == t1.table().remove(h.id()),
    ensures
        t1.table().contains_key(h.id()),
        t1.table()[h.id()] == value,
        !t2.table().contains_key(h.id()),
        forall|k: u16| k != h.id() ==> (#[trigger] t2.table().contains_key(k) <==> t0.table().contains_key(k)),
{
}

/// Freeing a slot that was just claimed, while it had been free, gives the bitmap back
/// as it was.
pub proof fn law_deallocate_undoes_claim(bits: Seq<u64>, bit: usize)
    requires
        bit / ENTRY_STRIDE < bits.len(),
        (bits[(bit / ENTRY_STRIDE) as int] >> ((bit % ENTRY_STRIDE) as u64)) & 1 == 1,
    ensures
        ({
            let i = (bit / ENTRY_STRIDE) as int;
            let claimed = bits.update(i, cleared_bit(bits[i], (bit % ENTRY_STRIDE) as u32));
            claimed.update(i, set_bit(claimed[i], (bit % ENTRY_STRIDE) as u64)) == bits
        }),
{
    let i = (bit / ENTRY_STRIDE) as int;
    let w = bits[i];
    let b = (bit % ENTRY_STRIDE) as u64;
    assert(b < 8);
    assert((w >> b) & 1 == 1 && b < 8 ==> (w & !(1u64 << (b as u32))) | (1u64 << b) == w) by (bit_vector);
    let claimed = bits.update(i, cleared_bit(w, b as u32));
    assert(claimed.update(i, set_bit(claimed[i], b)) =~= bits);
}


/// `rank` goes down from every window to each child that is a window: the windows form a
/// tree (or forest) whose height below a window is at most its rank.
pub open spec fn ranked(table: Map<u16, UserObject>, rank: spec_fn(u16) -> nat) -> bool {
    forall|h: u16, i: int|
        #![trigger table[h]->Window_0.children@[i]]
        is_window(table, h) && 0 <= i < table[h]->Window_0.children@.len() && is_window(
            table,
            table[h]->Window_0.children@[i].id(),
        ) ==> rank(table[h]->Window_0.children@[i].id()) < rank(h)
}

proof fn lemma_paint_tree_budget(
    table: Map<u16, UserObject>,
    rank: spec_fn(u16) -> nat,
    h: Handle,
    d1: nat,
    d2: nat,
    st: CallState,
)
    requires
        ranked(table, rank),
        rank(h.id()) < d1,
        rank(h.id()) < d2,
    ensures
        paint_tree(table, h, d1, st) == paint_tree(table, h, d2, st),
    decreases d1, 1nat, 0int,
{
    if is_window(table, h.id()) {
        let children = table[h.id()]->Window_0.children@;
        assert forall|j: int| 0 <= j < children.len() && is_window(table, #[trigger] children[j].id()) implies rank(
            children[j].id(),
        ) < rank(h.id()) by {
            assert(table[h.id()]->Window_0.children@[j] == children[j]);
        }
        lemma_paint_children_budget(table, rank, children, 0, d1, d2, st, rank(h.id()));
    }
}

proof fn lemma_paint_children_budget(
    table: Map<u16, UserObject>,
    rank: spec_fn(u16) -> nat,
    children: Seq<Handle>,
    i: int,
    d1: nat,
    d2: nat,
    st: CallState,
    bound: nat,
)
    requires
        ranked(table, rank),
        bound < d1,
        bound < d2,
        forall|j: int| 0 <= j < children.len() && is_window(table, #[trigger] children[j].id()) ==> rank(children[j].id()) < bound,
    ensures
        paint_children(table, children, i, d1, st) == paint_children(table, children, i, d2, st),
    decreases d1, 0nat, children.len() - i,
{
    if 0 <= i < children.len() {
        let c = children[i];
        if is_window(table, c.id()) {
            lemma_paint_tree_budget(table, rank, c, (d1 - 1) as nat, (d2 - 1) as nat, st);
        }
        let next = paint_tree(table, c, (d1 - 1) as nat, st).1;
        lemma_paint_children_budget(table, rank, children, i + 1, d1, d2, next, bound);
    }
}

/// Painting a window and its children does not depend on the nesting budget once the
/// budget is above the height of the tree below the window: with windows ranked so that
/// each child ranks below its parent and the window below the budget, any larger budget
/// paints the same.
pub proof fn law_paint_budget_covers_ranked_trees(
    table: Map<u16, UserObject>,
    rank: spec_fn(u16) -> nat,
    h: Handle,
    budget: nat,
    st: CallState,
)
    requires
        ranked(table, rank),
        rank(h.id()) < MAX_WINDOW_DEPTH,
        MAX_WINDOW_DEPTH <= budget,
    ensures
        paint_tree(table, h, MAX_WINDOW_DEPTH as nat, st) == paint_tree(table, h, budget, st),
{
    lemma_paint_tree_budget(table, rank, h, MAX_WINDOW_DEPTH as nat, budget, st);
}


/// Writing an 8-bit register (AL, CL, DL, BL, AH, CH, DH, BH): it reads back as written,
/// its 16-bit register keeps its other byte, and every other register is as it was.
pub proof fn law_byte_register_write(before: Registers, after: Registers, i: int, d: u8)
    requires
        0 <= i < 8,
        after@.gpr == with_gpr8(before@.gpr, i, d),
    ensures
        gpr8_of(after@.gpr, i) == d,
        i < 4 ==> after@.gpr[i] == (before@.gpr[i] & 0xFF00u16) | (d as u16),
        i >= 4 ==> after@.gpr[i - 4] == (before@.gpr[i - 4] & 0x00FFu16) | ((d as u16) << 8u16),
        forall|j: int|
            0 <= j < 8 && j != (if i < 4 {
                i
            } else {
                i - 4
            }) ==> #[trigger] after@.gpr[j] == before@.gpr[j],
        after@.gpr.len() == 8,
{
    before.lemma_lengths();
    after.lemma_lengths();
    if i < 4 {
        let g = before@.gpr[i];
        assert(((g / 256) * 256 + d) as u16 == (g & 0xFF00u16) | (d as u16)) by (bit_vector);
    } else {
        let g = before@.gpr[i - 4];
        assert((d * 256 + (g % 256)) as u16 == (g & 0x00FFu16) | ((d as u16) << 8u16)) by (bit_vector);
    }
}


/// The first movable block of a heap whose handle table is new gets code 1 (handle 1).
pub proof fn law_first_movable_block_gets_code_one(
    h0: Heap,
    h1: Heap,
    size: u16,
    r: Result<(u16, u16), HeapAllocationError>,
)
    requires
        h0.handles().free_bits() == fresh_free_bits(),
        heap_allocation(h0, h1, false, size, r),
        r is Ok,
    ensures
        r->Ok_0.0 == 1,
{
    let bits = fresh_free_bits();
    let w0: u64 = u64::MAX & !(1u64 << 0u64);
    assert(bits[0] == w0);
    assert(w0 != 0 && w0 & 1 == 0 && (w0 >> 1u64) & 1u64 == 1u64 && w0 >> 0u64 == w0) by (bit_vector)
        requires
            w0 == u64::MAX & !(1u64 << 0u64),
    ;
    axiom_u64_trailing_zeros(w0);
    let tz = u64_trailing_zeros(w0);
    if tz == 0 {
        assert((w0 >> 0u64) & 1u64 == 0u64);
    } else if tz >= 2 {
        assert((w0 >> 1u64) & 1u64 == 0u64);
    }
    assert(tz == 1);
    let code = r->Ok_0.0;
    let v = ((code + 1) / 2) as usize;
    let i = choose|i: int| #![trigger is_first_nonzero(bits, i)] is_first_nonzero(bits, i) && v == i + u64_trailing_zeros(bits[i])
        && h1.handles().free_bits() == bits.update(i, cleared_bit(bits[i], u64_trailing_zeros(bits[i])));
    if i > 0 {
        assert(bits[0] == 0);
    }
    assert(i == 0);
}


/// The DOS version query (`int 0x21` with AH 0x30) answers MS-DOS 5.0: AL, the major
/// version, is 5 and AH, the minor version, is 0.
pub proof fn law_dos_version_is_five(before: Emulator, after: Emulator, m: Machine, r: Result<(), EmulatorError>)
    requires
        m == before.machine(),
        interrupted(before, after, m, r),
        fetch_u8(m).0 == Ok::<u8, EmulatorError>(0x21),
        high_byte(fetch_u8(m).1.regs.gpr[Registers::REG_AX as int]) == 0x30,
    ensures
        r is Ok,
        gpr8_of(after.machine().regs.gpr, 0) == 5,
        gpr8_of(after.machine().regs.gpr, 4) == 0,
{
    before.lemma_machine_registers();
    after.lemma_machine_registers();
    let m1 = fetch_u8(m).1;
    assert(after.machine() == crate::machine::with_gpr16(m1, Registers::REG_AX, 0x0005));
    assert(after.machine().regs.gpr == m1.regs.gpr.update(0, 0x0005u16));
    assert(after.machine().regs.gpr[0] == 5);
}


/// JLE (opcode 0x7E, `m` being the machine after the opcode byte) jumps when ZF is set or
/// SF differs from OF: IP becomes the address after the instruction plus the signed
/// displacement byte. Otherwise execution goes on after the instruction. Nothing else
/// changes.
#[verifier::spinoff_prover]
#[verifier::rlimit(100)]
pub proof fn law_jle_jumps_on_less_or_equal(m: Machine)
    requires
        m.regs.segments.len() == 8,
        code_address(m) < m.mem.len(),
    ensures
        ({
            let b = m.mem[code_address(m)];
            let displacement: int = if b < 128 {
                b as int
            } else {
                b - 256
            };
            let f = m.regs.flags;
            let taken = (f & Registers::FLAG_ZF != 0) || ((f & Registers::FLAG_SF != 0) != (f & Registers::FLAG_OF
                != 0));
            let (r, after) = execute(m, 0x7E);
            &&& r is Ok
            &&& after.regs.ip == if taken {
                wrap16(m.regs.ip + 1 + displacement)
            } else {
                wrap16(m.regs.ip + 1)
            }
            &&& after.mem == m.mem
            &&& after.regs.gpr == m.regs.gpr
            &&& after.regs.segments == m.regs.segments
            &&& after.regs.flags == m.regs.flags
        }),
{
    let b = m.mem[code_address(m)];
    let f = m.regs.flags;
    let cond = (f & Registers::FLAG_ZF > 0) || ((f & Registers::FLAG_SF > 0) != (f & Registers::FLAG_OF > 0));
    assert(execute(m, 0x7E) == crate::machine::jump_short(m, cond));
    lemma_short_displacement(m.regs.ip, b);
}

/// The IP after a short jump: the displacement byte is sign-extended and added to the
/// address after the two-byte instruction, in 16 bits.
proof fn lemma_short_displacement(ip: u16, b: u8)
    ensures
        wrap16(wrap16(ip + 1) + crate::machine::sign_extend(b)) == wrap16(ip + 1 + if b < 128 {
            b as int
        } else {
            b - 256
        }),
{
    if ip == 0xFFFF {
        assert(wrap16(ip + 1) == 0);
    } else {
        assert(wrap16(ip + 1) == ip + 1);
    }
}

/// A 16-bit compare of AX with an equal immediate (`cmp ax, imm16`, opcode 0x3D, `m` being
/// the machine after the opcode byte) sets ZF, so a JLE that follows jumps.
#[verifier::spinoff_prover]
#[verifier::rlimit(100)]
pub proof fn law_equal_compare_sets_zero_flag(m: Machine)
    requires
        m.regs.gpr.len() == 8,
        fetch_u16(m).0 == Ok::<u16, EmulatorError>(m.regs.gpr[Registers::REG_AX as int]),
    ensures
        execute(m, 0x3D).0 is Ok,
        execute(m, 0x3D).1.regs.flags & Registers::FLAG_ZF != 0,
        execute(m, 0x3D).1.regs.gpr == m.regs.gpr,
{
    let ax = m.regs.gpr[0];
    let (res, c, _) = sub_flags_spec(16, ax as int, ax as int);
    assert(res == 0);
    let flags = execute(m, 0x3D).1.regs.flags;
    let fl = fetch_u16(m).1.regs.flags;
    assert(flags == crate::registers::arithmetic_flags(16, fl, 0, c, true));
    let with_cf: u16 = if c {
        (fl & !Registers::FLAG_CF) | Registers::FLAG_CF
    } else {
        fl & !Registers::FLAG_CF
    };
    assert(((with_cf & !(0x1u16 | 0x80u16 | 0x40u16 | 0x4u16 | 0x10u16)) | (0x40u16 | 0x4u16)) & 0x40u16 != 0)
        by (bit_vector);
}


/// Locations at least two bytes apart, so that their words do not overlap.
pub open spec fn words_apart(locations: Seq<u16>) -> bool {
    forall|i: int, j: int|
        0 <= i < locations.len() && 0 <= j < locations.len() && i != j ==> locations[i] + 1 < locations[j]
            || locations[j] + 1 < locations[i]
}

/// Writing the locations of an internal reference stores, at every location, the segment
/// word for source type 2 and the offset word for source type 5.
proof fn lemma_internal_words(mem: Seq<u8>, base: int, locations: Seq<u16>, source_type: u8, segment: u16, offset: u16, k: nat)
    requires
        0 <= base,
        source_type == 2 || source_type == 5,
        k <= locations.len(),
        words_apart(locations),
        locations_written(mem, base, locations, source_type, false, segment, offset, k).0,
    ensures
        ({
            let after = locations_written(mem, base, locations, source_type, false, segment, offset, k).1;
            &&& after.len() == mem.len()
            &&& forall|i: int| 0 <= i < k ==> #[trigger] locations[i] + base + 1 < mem.len()
            &&& forall|i: int|
                0 <= i < k ==> #[trigger] word_at(after, base + locations[i]) == if source_type == 2 {
                    segment
                } else {
                    offset
                }
        }),
    decreases k,
{
    if k > 0 {
        let k1 = (k - 1) as nat;
        lemma_internal_words(mem, base, locations, source_type, segment, offset, k1);
        let prev = locations_written(mem, base, locations, source_type, false, segment, offset, k1).1;
        let a = base + locations[k - 1];
        let v = if source_type == 2 {
            segment
        } else {
            offset
        };
        let after = locations_written(mem, base, locations, source_type, false, segment, offset, k).1;
        assert(after == with_word(prev, a, v));
        law_word_read_after_write(prev, a, v);
        assert(a + 1 < prev.len());
        assert forall|i: int| 0 <= i < k implies #[trigger] word_at(after, base + locations[i]) == v by {
            if i < k - 1 {
                assert(locations[i] + base + 1 < mem.len());
                law_word_write_elsewhere(prev, a, base + locations[i], v);
            }
        }
    }
}

/// An internal reference to segment 1, fixed (its number) or movable (0xFF, through the
/// entry table), once applied to a segment loaded at `base`: every location of source type
/// 2 holds the segment where segment 1 is loaded, 0, and every location of source type 5
/// holds the target's offset, the parameter or the entry's offset.
pub proof fn law_internal_reference_fixups(
    mem: Seq<u8>,
    states: Seq<(u8, u32, u32, u8)>,
    base: int,
    entries: Map<u16, EntryTableEntry>,
    rel: RelocationView,
)
    requires
        0 <= base,
        rel.relocation_type is InternalRef,
        rel.source_type == 2 || rel.source_type == 5,
        words_apart(rel.locations),
        relocation_step(mem, states, base, entries, rel).0 is Ok,
    ensures
        ({
            let reference = rel.relocation_type->InternalRef_0;
            let after = relocation_step(mem, states, base, entries, rel).1;
            let target_offset = if reference.segment_number == 0xff {
                entries[reference.parameter].offset
            } else {
                reference.parameter
            };
            forall|i: int|
                0 <= i < rel.locations.len() ==> #[trigger] word_at(after, base + rel.locations[i]) == if rel.source_type
                    == 2 {
                    0u16
                } else {
                    target_offset
                }
        }),
{
    let reference = rel.relocation_type->InternalRef_0;
    let target = crate::loader::internal_target(entries, reference)->Ok_0;
    lemma_internal_words(mem, base, rel.locations, rel.source_type, target.0, target.1, rel.locations.len());
}


/// GetStockObject (GDI procedure 87) names the stock object of index `i` (0 to 16) by the
/// handle `i + 1`, never the null handle, so that different stock objects get different
/// handles; it changes no object.
pub proof fn law_stock_objects_have_their_own_handles(
    acc: EmulatorAccessor,
    before: ObjectEnvironment,
    after: ObjectEnvironment,
    r: Result<ReturnValue, EmulatorError>,
    i: u16,
)
    requires
        gdi_call(87, acc, before, after, r),
        word_arg(acc.regs@, acc.memory@, 0) == Some(i),
        i <= 16,
    ensures
        r == Ok::<ReturnValue, EmulatorError>(ReturnValue::U16((i + 1) as u16)),
        r->Ok_0->U16_0 != 0,
        after == before,
{
}

/// Two GetStockObject calls for different stock objects give different handles.
pub proof fn law_stock_object_handles_differ(
    acc1: EmulatorAccessor,
    acc2: EmulatorAccessor,
    o: ObjectEnvironment,
    o1: ObjectEnvironment,
    o2: ObjectEnvironment,
    r1: Result<ReturnValue, EmulatorError>,
    r2: Result<ReturnValue, EmulatorError>,
    i: u16,
    j: u16,
)
    requires
        gdi_call(87, acc1, o, o1, r1),
        gdi_call(87, acc2, o, o2, r2),
        word_arg(acc1.regs@, acc1.memory@, 0) == Some(i),
        word_arg(acc2.regs@, acc2.memory@, 0) == Some(j),
        i <= 16,
        j <= 16,
        i != j,
    ensures
        r1 != r2,
{
}

/// GetDeviceCaps (GDI procedure 80) reports the emulated 800 by 600 screen: HORZRES (8)
/// is its width, 800 pixels, and VERTRES (10) its height, 600 pixels, whatever the device
/// context; it changes no object.
pub proof fn law_device_caps_report_the_screen_size(
    acc: EmulatorAccessor,
    before: ObjectEnvironment,
    after: ObjectEnvironment,
    r: Result<ReturnValue, EmulatorError>,
)
    requires
        gdi_call(80, acc, before, after, r),
        word_arg(acc.regs@, acc.memory@, 1) is Some,
        word_arg(acc.regs@, acc.memory@, 0) == Some(8u16) || word_arg(acc.regs@, acc.memory@, 0) == Some(10u16),
    ensures
        after == before,
        word_arg(acc.regs@, acc.memory@, 0) == Some(8u16) ==> r == Ok::<ReturnValue, EmulatorError>(ReturnValue::U16(800)),
        word_arg(acc.regs@, acc.memory@, 0) == Some(10u16) ==> r == Ok::<ReturnValue, EmulatorError>(ReturnValue::U16(600)),
{
}


/// Copying a string whose terminator, at `k`, follows `s` (the rest of the string at `s`
/// not overlapping the place it goes to at `d`) puts the bytes from `s` to the terminator,
/// terminator included, at `d` and leaves every other byte alone.
proof fn lemma_copy_string(mem: Seq<u8>, s: int, d: int, k: int, copied: int)
    requires
        is_string_end(mem, s, k),
        0 <= s,
        0 <= d,
        d + (k - s) < mem.len(),
        d + (k - s) < s || k < d,
        0 <= copied,
    ensures
        ({
            let (c, after) = copy_string_run(mem, s, d, copied);
            &&& c == Some(((copied + (k - s)) % 65536) as u16)
            &&& after.len() == mem.len()
            &&& forall|j: int| 0 <= j <= k - s ==> #[trigger] after[d + j] == mem[s + j]
            &&& forall|x: int| 0 <= x < mem.len() && !(d <= x <= d + (k - s)) ==> #[trigger] after[x] == mem[x]
        }),
    decreases mem.len() - s,
{
    let b = mem[s];
    let next = mem.update(d, b);
    if b != 0 {
        assert(s < k);
        assert forall|i: int| s + 1 <= i < k implies next[i] != 0 by {
            assert(mem[i] != 0);
        }
        assert(is_string_end(next, s + 1, k));
        lemma_copy_string(next, s + 1, d + 1, k, copied + 1);
        let after = copy_string_run(next, s + 1, d + 1, copied + 1).1;
        assert forall|j: int| 0 <= j <= k - s implies #[trigger] after[d + j] == mem[s + j] by {
            if j == 0 {
                assert(after[d] == next[d]);
            } else {
                assert(after[(d + 1) + (j - 1)] == next[(s + 1) + (j - 1)]);
            }
        }
    }
}

/// A successful copy of a zero-terminated string to a place that does not overlap it (as
/// lstrcat and the profile functions do) copies the terminator too: the string at the
/// destination is the string at the source, `n` bytes and a zero, and the count is `n`.
/// No other byte changes.
pub proof fn law_copied_string_is_terminated(mem: Seq<u8>, src: int, dst: int, k: int)
    requires
        is_string_end(mem, src, k),
        0 <= src,
        0 <= dst,
        dst + (k - src) < mem.len(),
        dst + (k - src) < src || k < dst,
    ensures
        ({
            let n = k - src;
            let (c, after) = copy_string_run(mem, src, dst, 0);
            &&& c == Some((n % 65536) as u16)
            &&& after[dst + n] == 0
            &&& forall|j: int| 0 <= j < n ==> #[trigger] after[dst + j] == mem[src + j] && after[dst + j] != 0
            &&& forall|x: int| 0 <= x < mem.len() && !(dst <= x <= dst + n) ==> #[trigger] after[x] == mem[x]
        }),
{
    lemma_copy_string(mem, src, dst, k, 0);
    let after = copy_string_run(mem, src, dst, 0).1;
    assert(after[dst + (k - src)] == mem[src + (k - src)]);
    assert forall|j: int| 0 <= j < k - src implies #[trigger] after[dst + j] == mem[src + j] && after[dst + j] != 0 by {
        assert(mem[src + j] != 0);
    }
}

} // verus!
