//! Bytecode chunk: an instruction byte stream, a constant pool deduplicated
//! by equality, and a run-length-encoded source-line table, all stored in
//! [`DynArray`] buffers sharing one VM allocator.
//!
//! The line table holds one entry per *line transition*, with strictly
//! increasing byte offsets; `get_line` answers "which source line produced
//! byte offset X" by binary search over those breakpoints. Instructions are
//! encoded as one opcode byte followed by a fixed-width little-endian
//! operand whose width the opcode's metadata table entry determines.

use vstd::prelude::*;
use vstd::arithmetic::power::pow;
use vstd::arithmetic::div_mod::{lemma_div_denominator, lemma_fundamental_div_mod};
use vstd::arithmetic::mul::lemma_mul_is_commutative;
use crate::allocator::counter_plus;
use crate::dyn_array::{DynArray, reserved_cap};
use crate::opcodes::OpCode;
use crate::value::Value;
use crate::vm::VM;
use vstd::layout::size_of;

verus! {

/// A line-table breakpoint: the byte offset where a new source line's
/// instructions begin, and that line number.
pub struct LineStart {
    pub offset: usize,
    pub line: usize,
}

/// Breakpoint offsets are strictly increasing: the table is a run-length
/// encoding over monotonically increasing offsets.
pub open spec fn lines_sorted(lines: Seq<LineStart>) -> bool {
    forall|i: int, j: int|
        #![trigger lines[i], lines[j]]
        0 <= i < j < lines.len() ==> lines[i].offset < lines[j].offset
}

/// A new breakpoint is appended only when the table is empty or the most
/// recent stored line differs from the newly requested one.
pub open spec fn push_needed(lines: Seq<LineStart>, line: usize) -> bool {
    lines.len() == 0 || lines.last().line != line
}

/// The line table after recording a write at `line` with the byte stream
/// currently `offset` bytes long.
pub open spec fn lines_after(lines: Seq<LineStart>, offset: usize, line: usize) -> Seq<LineStart> {
    if push_needed(lines, line) {
        lines.push(LineStart { offset, line })
    } else {
        lines
    }
}

/// The line recorded for byte offset `off`: the line of the greatest
/// breakpoint whose offset is at most `off` (run-length semantics).
/// Meaningless when the table is empty or `off` precedes every breakpoint.
pub open spec fn line_for(lines: Seq<LineStart>, off: int) -> usize
    decreases lines.len(),
{
    if lines.len() == 0 {
        0
    } else if lines.last().offset <= off {
        lines.last().line
    } else {
        line_for(lines.drop_last(), off)
    }
}

proof fn lemma_line_for_at(lines: Seq<LineStart>, off: int, k: int)
    requires
        lines_sorted(lines),
        0 <= k < lines.len(),
        lines[k].offset <= off,
        k == lines.len() - 1 || lines[k + 1].offset > off,
    ensures
        line_for(lines, off) == lines[k].line,
    decreases lines.len(),
{
    if lines.last().offset <= off {
        assert(k == lines.len() - 1);
    } else {
        assert(k < lines.len() - 1);
        lemma_line_for_at(lines.drop_last(), off, k);
    }
}

/// Index of the first occurrence of `v` in `s`, or `s.len()` when absent.
pub open spec fn first_index(s: Seq<Value>, v: Value) -> int
    decreases s.len(),
{
    if s.len() == 0 {
        0
    } else if s[0] == v {
        0
    } else {
        1 + first_index(s.drop_first(), v)
    }
}

/// What `first_index` returns: the least index holding `v` when present,
/// the length when absent.
pub proof fn lemma_first_index_characterization(s: Seq<Value>, v: Value)
    ensures
        !s.contains(v) ==> first_index(s, v) == s.len(),
        s.contains(v) ==> 0 <= first_index(s, v) < s.len() && s[first_index(s, v)] == v,
        forall|j: int| 0 <= j < first_index(s, v) ==> s[j] != v,
    decreases s.len(),
{
    if s.len() > 0 && s[0] != v {
        lemma_first_index_characterization(s.drop_first(), v);
        assert(s.contains(v) ==> s.drop_first().contains(v)) by {
            if s.contains(v) {
                let w = choose|w: int| 0 <= w < s.len() && s[w] == v;
                assert(s.drop_first()[w - 1] == v);
            }
        }
        assert(s.drop_first().contains(v) ==> s.contains(v)) by {
            if s.drop_first().contains(v) {
                let w = choose|w: int| 0 <= w < s.drop_first().len() && s.drop_first()[w] == v;
                assert(s[w + 1] == v);
            }
        }
        assert forall|j: int| 0 <= j < first_index(s, v) implies s[j] != v by {
            if j >= 1 {
                assert(s.drop_first()[j - 1] == s[j]);
            }
        }
    }
}

/// The constant pool after writing `v`: unchanged when an equal value is
/// already present, else `v` appended.
pub open spec fn pool_after(s: Seq<Value>, v: Value) -> Seq<Value> {
    if s.contains(v) {
        s
    } else {
        s.push(v)
    }
}

/// Constant dedup: writing the same value twice returns the same index
/// both times and leaves the pool unchanged the second time.
pub proof fn lemma_constant_dedup(s: Seq<Value>, v: Value)
    ensures
        first_index(pool_after(s, v), v) == first_index(s, v),
        pool_after(pool_after(s, v), v) == pool_after(s, v),
{
    lemma_first_index_characterization(s, v);
    lemma_first_index_characterization(pool_after(s, v), v);
    if !s.contains(v) {
        let p = s.push(v);
        assert(p[s.len() as int] == v);
        assert(p.contains(v));
        let fi = first_index(p, v);
        assert(p[fi] == v);
        assert(fi >= s.len()) by {
            if fi < s.len() {
                assert(s[fi] == p[fi]);
            }
        }
    }
}

/// Distinct constants get distinct indices, in first-seen order: writing
/// two values not yet in the pool appends them at consecutive indices.
pub proof fn lemma_constant_distinct(s: Seq<Value>, v1: Value, v2: Value)
    requires
        v1 != v2,
        !s.contains(v1),
        !s.contains(v2),
    ensures
        first_index(pool_after(s, v1), v1) == s.len(),
        first_index(pool_after(pool_after(s, v1), v2), v2) == s.len() + 1,
        first_index(pool_after(s, v1), v1) != first_index(
            pool_after(pool_after(s, v1), v2),
            v2,
        ),
{
    let p1 = pool_after(s, v1);
    lemma_first_index_characterization(s, v1);
    lemma_first_index_characterization(p1, v1);
    assert(s.push(v1)[s.len() as int] == v1);
    assert(p1.contains(v1));
    assert(first_index(p1, v1) == s.len()) by {
        let fi = first_index(p1, v1);
        if fi < s.len() {
            assert(s[fi] == p1[fi]);
        }
    }
    assert(!p1.contains(v2)) by {
        if p1.contains(v2) {
            let w = choose|w: int| 0 <= w < p1.len() && p1[w] == v2;
            if w < s.len() {
                assert(s[w] == v2);
            } else {
                assert(p1[w] == v1);
            }
        }
    }
    let p2 = pool_after(p1, v2);
    lemma_first_index_characterization(p1, v2);
    lemma_first_index_characterization(p2, v2);
    assert(p1.push(v2)[p1.len() as int] == v2);
    assert(p2.contains(v2));
    assert(first_index(p2, v2) == p1.len()) by {
        let fi = first_index(p2, v2);
        if fi < p1.len() {
            assert(p1[fi] == p2[fi]);
        }
    }
}

/// Byte `i` (least-significant first) of the little-endian encoding of
/// `operand`.
pub open spec fn le_byte(operand: int, i: int) -> u8
    recommends
        operand >= 0,
        i >= 0,
{
    ((operand / pow(256, i as nat)) % 256) as u8
}

/// The `n`-byte little-endian encoding of `operand`, least-significant
/// byte first.
pub open spec fn le_bytes(operand: int, n: nat) -> Seq<u8> {
    Seq::new(n, |i: int| le_byte(operand, i))
}

/// The value a little-endian byte sequence encodes.
pub open spec fn le_decode(s: Seq<u8>) -> int
    decreases s.len(),
{
    if s.len() == 0 {
        0
    } else {
        s[0] + 256 * le_decode(s.drop_first())
    }
}

/// Operand encoding round-trip: decoding the `n`-byte little-endian
/// encoding of any operand that fits in `n` bytes yields the operand back.
pub proof fn lemma_le_round_trip(operand: int, n: nat)
    requires
        0 <= operand < pow(256, n),
    ensures
        le_decode(le_bytes(operand, n)) == operand,
    decreases n,
{
    reveal(pow);
    if n == 0 {
        assert(pow(256, 0) == 1);
        assert(le_bytes(operand, 0).len() == 0);
    } else {
        let q = operand / 256;
        let r = operand % 256;
        lemma_fundamental_div_mod(operand, 256);
        assert(pow(256, n) == 256 * pow(256, (n - 1) as nat));
        assert(q < pow(256, (n - 1) as nat)) by {
            if q >= pow(256, (n - 1) as nat) {
                assert(256 * q >= 256 * pow(256, (n - 1) as nat)) by (nonlinear_arith)
                    requires
                        q >= pow(256, (n - 1) as nat),
                ;
            }
        }
        assert(q >= 0) by {
            vstd::arithmetic::div_mod::lemma_div_pos_is_pos(operand, 256);
        }
        lemma_le_round_trip(q, (n - 1) as nat);
        assert(le_bytes(operand, n).drop_first() =~= le_bytes(q, (n - 1) as nat)) by {
            assert forall|i: int| 0 <= i < n - 1 implies le_bytes(operand, n).drop_first()[i]
                == le_byte(q, i) by {
                reveal(pow);
                assert(le_bytes(operand, n).drop_first()[i] == le_byte(operand, i + 1));
                vstd::arithmetic::power::lemma_pow_positive(256, i as nat);
                lemma_div_denominator(operand, 256, pow(256, i as nat));
                assert(pow(256, (i + 1) as nat) == 256 * pow(256, i as nat));
                assert(operand / pow(256, (i + 1) as nat) == q / pow(256, i as nat));
            }
        }
        assert(le_bytes(operand, n)[0] == le_byte(operand, 0));
        assert(pow(256, 0) == 1);
        vstd::arithmetic::div_mod::lemma_div_basics(operand);
        assert(le_byte(operand, 0) == r as u8);
        assert(le_decode(le_bytes(operand, n)) == r + 256 * q);
    }
}

/// Write the `n`-byte little-endian encoding of `operand` over the bytes
/// at `start .. start + n`; everything else is untouched. An operand that
/// does not fit in `n` bytes is a calling-convention violation of the
/// emitting caller (debug-fatal in the original design), excluded here.
pub fn write_multibyte_operand(bytes: &mut DynArray<u8>, start: usize, n: usize, operand: usize)
    requires
        old(bytes).wf(),
        start + n <= old(bytes)@.len(),
        (operand as int) < pow(256, n as nat),
    ensures
        final(bytes).wf(),
        final(bytes).spec_cap() == old(bytes).spec_cap(),
        final(bytes)@.len() == old(bytes)@.len(),
        forall|i: int|
            0 <= i < old(bytes)@.len() && !(start <= i < start + n) ==> final(bytes)@[i] == old(
                bytes,
            )@[i],
        final(bytes)@.subrange(start as int, (start + n) as int) == le_bytes(
            operand as int,
            n as nat,
        ),
        le_decode(final(bytes)@.subrange(start as int, (start + n) as int)) == operand,
    {
        let mut rem = operand;
        let mut i: usize = 0;
        proof {
            reveal(pow);
            assert(pow(256, 0) == 1);
            vstd::arithmetic::div_mod::lemma_div_basics(operand as int);
        }
        while i < n
            invariant
                bytes.wf(),
                bytes.spec_cap() == old(bytes).spec_cap(),
                bytes@.len() == old(bytes)@.len(),
                0 <= i <= n,
                start + n <= bytes@.len(),
                (operand as int) < pow(256, n as nat),
                rem as int == operand as int / pow(256, i as nat),
                forall|j: int|
                    0 <= j < bytes@.len() && !(start <= j < start + i) ==> bytes@[j] == old(
                        bytes,
                    )@[j],
                forall|j: int|
                    0 <= j < i ==> bytes@[start + j] == le_byte(operand as int, j),
            decreases n - i,
        {
            let b = (rem % 256) as u8;
            bytes.set(start + i, b);
            rem = rem / 256;
            i = i + 1;
            proof {
                reveal(pow);
                vstd::arithmetic::power::lemma_pow_positive(256, (i - 1) as nat);
                lemma_div_denominator(operand as int, pow(256, (i - 1) as nat), 256);
                lemma_mul_is_commutative(pow(256, (i - 1) as nat), 256);
                assert(pow(256, i as nat) == 256 * pow(256, (i - 1) as nat));
                assert(rem as int == operand as int / pow(256, i as nat));
                assert(b == le_byte(operand as int, i - 1));
            }
        }
        proof {
            assert(bytes@.subrange(start as int, (start + n) as int) =~= le_bytes(
                operand as int,
                n as nat,
            ));
            lemma_le_round_trip(operand as int, n as nat);
        }
    }

/// A self-contained unit of compiled bytecode: instruction byte stream,
/// deduplicated constant pool, and line-transition table. Indices and
/// offsets are stable once written: the chunk is append-only, except for
/// the documented operand patch step during instruction emission.
pub struct Chunk {
    pub bytecode: DynArray<u8>,
    pub constants: DynArray<Value>,
    pub lines: DynArray<LineStart>,
}

impl Chunk {
    /// The three buffers are well-formed, the line table's offsets are
    /// strictly increasing, and every breakpoint points into the byte
    /// stream.
    pub open spec fn wf(&self) -> bool {
        &&& self.bytecode.wf()
        &&& self.constants.wf()
        &&& self.lines.wf()
        &&& lines_sorted(self.lines@)
        &&& forall|i: int|
            0 <= i < self.lines@.len() ==> (#[trigger] self.lines@[i]).offset
                < self.bytecode@.len()
    }

    /// Record that the bytes about to be written come from source `line`:
    /// appends a breakpoint at the current end of the byte stream unless
    /// the most recent breakpoint already carries `line`.
    pub(crate) fn write_line(&mut self, tvm: &mut VM, line: usize)
        requires
            old(self).wf(),
            old(self).lines.can_reserve_more(1),
        ensures
            final(self).bytecode == old(self).bytecode,
            final(self).constants == old(self).constants,
            final(self).lines@ == lines_after(old(self).lines@, old(self).bytecode@.len() as usize, line),
            final(self).lines.wf(),
            lines_sorted(final(self).lines@),
            forall|i: int|
                0 <= i < final(self).lines@.len() ==> (#[trigger] final(self).lines@[i]).offset
                    < old(self).bytecode@.len() + 1,
            final(self).lines.spec_cap() as int == if push_needed(old(self).lines@, line) {
                reserved_cap(
                    old(self).lines.spec_cap() as int,
                    old(self).lines@.len() as int,
                    1,
                    size_of::<LineStart>() as int,
                )
            } else {
                old(self).lines.spec_cap() as int
            },
            final(self).lines.cap_bytes() >= old(self).lines.cap_bytes(),
            final(tvm).allocator.spec_allocated_bytes() == counter_plus(
                old(tvm).allocator.spec_allocated_bytes(),
                (final(self).lines.cap_bytes() - old(self).lines.cap_bytes()) as usize,
            ),
    {
        let needed = match self.lines.last() {
            Option::None => true,
            Option::Some(last) => last.line != line,
        };
        if needed {
            let offset = self.bytecode.len();
            self.lines.push(&mut tvm.allocator, LineStart { offset, line });
        }
    }

    /// The source line that produced byte offset `offset`: the line of the
    /// greatest breakpoint at or before it. An offset before the first
    /// breakpoint, or an empty table, is a calling-convention violation
    /// (fatal in the original design), excluded here.
    pub fn get_line(&self, offset: usize) -> (r: usize)
        requires
            self.wf(),
            self.lines@.len() > 0,
            self.lines@[0].offset <= offset,
        ensures
            r == line_for(self.lines@, offset as int),
    {
        let mut lo: usize = 0;
        let mut hi: usize = self.lines.len();
        while lo < hi
            invariant
                0 <= lo <= hi <= self.lines@.len(),
                lines_sorted(self.lines@),
                forall|i: int| 0 <= i < lo ==> (#[trigger] self.lines@[i]).offset <= offset,
                forall|i: int|
                    hi <= i < self.lines@.len() ==> (#[trigger] self.lines@[i]).offset > offset,
            decreases hi - lo,
        {
            let mid = lo + (hi - lo) / 2;
            if self.lines.get(mid).offset <= offset {
                lo = mid + 1;
            } else {
                hi = mid;
            }
        }
        assert(lo >= 1) by {
            if lo == 0 {
                assert(self.lines@[0].offset > offset);
            }
        }
        let idx = lo - 1;
        proof {
            lemma_line_for_at(self.lines@, offset as int, idx as int);
        }
        self.lines.get(idx).line
    }

    /// Intern `value` in the constant pool: return the index of an equal
    /// value if one is present (linear scan, first occurrence), else append
    /// it and return its new index. Indices are stable once handed out.
    pub fn write_constant(&mut self, tvm: &mut VM, value: Value) -> (r: usize)
        requires
            old(self).wf(),
            old(self).constants.can_reserve_more(1),
        ensures
            final(self).wf(),
            final(self).bytecode == old(self).bytecode,
            final(self).lines == old(self).lines,
            r as int == first_index(old(self).constants@, value),
            final(self).constants@ == pool_after(old(self).constants@, value),
            final(self).constants.cap_bytes() >= old(self).constants.cap_bytes(),
            final(tvm).allocator.spec_allocated_bytes() == counter_plus(
                old(tvm).allocator.spec_allocated_bytes(),
                (final(self).constants.cap_bytes() - old(self).constants.cap_bytes()) as usize,
            ),
    {
        proof {
            lemma_first_index_characterization(self.constants@, value);
        }
        let n = self.constants.len();
        let mut i: usize = 0;
        while i < n
            invariant
                *self == *old(self),
                self.wf(),
                n == self.constants@.len(),
                0 <= i <= n,
                forall|j: int| 0 <= j < i ==> self.constants@[j] != value,
            decreases n - i,
        {
            if *self.constants.get(i) == value {
                proof {
                    assert(self.constants@.contains(value));
                    lemma_first_index_characterization(self.constants@, value);
                    let fi = first_index(self.constants@, value);
                    assert(self.constants@[fi] == value);
                    assert(fi == i as int) by {
                        if fi < i as int {
                            assert(self.constants@[fi] != value);
                        }
                    }
                }
                return i;
            }
            i += 1;
        }
        proof {
            assert(!self.constants@.contains(value)) by {
                if self.constants@.contains(value) {
                    let w = choose|w: int|
                        0 <= w < self.constants@.len() && self.constants@[w] == value;
                    assert(self.constants@[w] != value);
                }
            }
        }
        self.constants.push(&mut tvm.allocator, value);
        self.constants.len() - 1
    }

    /// Emit one instruction: record the line transition, append the opcode
    /// byte, then append the `N`-byte little-endian encoding of `operand`
    /// (placeholder bytes first, patched in place). `N` is the operand
    /// width the emitting caller picked for this opcode; an operand that
    /// does not fit in `N` bytes is that caller's calling-convention
    /// violation (debug-fatal in the original design), excluded here.
    pub fn write_instruction<const N: usize>(
        &mut self,
        tvm: &mut VM,
        line: usize,
        opc: OpCode,
        operand: usize,
    )
        requires
            old(self).wf(),
            old(self).lines.can_reserve_more(1),
            old(self).bytecode.can_reserve_more(1 + N as int),
            (operand as int) < pow(256, N as nat),
        ensures
            final(self).wf(),
            final(self).bytecode@ == old(self).bytecode@.push(opc.0) + le_bytes(
                operand as int,
                N as nat,
            ),
            final(self).constants == old(self).constants,
            final(self).lines@ == lines_after(
                old(self).lines@,
                old(self).bytecode@.len() as usize,
                line,
            ),
            final(self).bytecode.spec_cap() as int == reserved_cap(
                old(self).bytecode.spec_cap() as int,
                old(self).bytecode@.len() as int,
                1 + N as int,
                size_of::<u8>() as int,
            ),
            final(self).lines.spec_cap() as int == if push_needed(old(self).lines@, line) {
                reserved_cap(
                    old(self).lines.spec_cap() as int,
                    old(self).lines@.len() as int,
                    1,
                    size_of::<LineStart>() as int,
                )
            } else {
                old(self).lines.spec_cap() as int
            },
            final(self).bytecode.cap_bytes() >= old(self).bytecode.cap_bytes(),
            final(self).lines.cap_bytes() >= old(self).lines.cap_bytes(),
            final(tvm).allocator.spec_allocated_bytes() == counter_plus(
                old(tvm).allocator.spec_allocated_bytes(),
                ((final(self).lines.cap_bytes() - old(self).lines.cap_bytes())
                    + (final(self).bytecode.cap_bytes()
                    - old(self).bytecode.cap_bytes())) as usize,
            ),
    {
        let ghost bc0 = self.bytecode@;
        let ghost c0 = tvm.allocator.spec_allocated_bytes();
        self.write_line(tvm, line);
        let ghost lines_bytes0 = old(self).lines.cap_bytes();
        let ghost dl = (self.lines.cap_bytes() - lines_bytes0) as usize;
        self.bytecode.reserve(&mut tvm.allocator, 1 + N);
        let ghost db = (self.bytecode.cap_bytes() - old(self).bytecode.cap_bytes()) as usize;
        self.bytecode.push(&mut tvm.allocator, u8::from(opc));
        let len = self.bytecode.len();
        self.bytecode.resize(&mut tvm.allocator, len + N, 0xff);
        write_multibyte_operand(&mut self.bytecode, len, N, operand);
        proof {
            assert(self.bytecode@ =~= bc0.push(opc.0) + le_bytes(operand as int, N as nat)) by {
                assert forall|i: int|
                    0 <= i < bc0.len() + 1 + N implies self.bytecode@[i] == (bc0.push(opc.0)
                    + le_bytes(operand as int, N as nat))[i] by {
                    if i >= bc0.len() + 1 {
                        assert(self.bytecode@.subrange(len as int, (len + N) as int)[i - len]
                            == self.bytecode@[i]);
                        assert(le_bytes(operand as int, N as nat)[i - len] == le_byte(
                            operand as int,
                            i - len,
                        ));
                    }
                }
            }
            crate::dyn_array::lemma_cap_bytes_bound::<LineStart>(self.lines);
            crate::dyn_array::lemma_cap_bytes_bound::<u8>(self.bytecode);
            crate::dyn_array::lemma_usize_isize_max();
            crate::allocator::lemma_counter_plus_chain(c0, dl, db);
        }
    }
}

} // verus!
