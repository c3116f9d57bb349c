use vstd::prelude::*;

use crate::vm::{state_wf, VmState, MEMORY_SIZE, REGISTER_COUNT, VM};

verus! {

/// The lower-case hexadecimal digit for `d < 16`.
pub open spec fn hex_digit(d: nat) -> char {
    seq!['0', '1', '2', '3', '4', '5', '6', '7', '8', '9', 'a', 'b', 'c', 'd', 'e', 'f'][d as int]
}

/// `n` in lower-case hexadecimal, without leading zeros ("0" for zero).
pub open spec fn hex_text(n: nat) -> Seq<char>
    decreases n,
{
    if n < 16 {
        seq![hex_digit(n)]
    } else {
        hex_text(n / 16).push(hex_digit(n % 16))
    }
}

/// `0x` followed by `n` in hexadecimal.
pub open spec fn prefixed_hex(n: nat) -> Seq<char> {
    seq!['0', 'x'] + hex_text(n)
}

/// The register names, in register order.
pub open spec fn register_name(i: int) -> char {
    seq!['A', 'B', 'C', 'D', 'E', 'F', 'G', 'H', 'I', 'J', 'K', 'L', 'M', 'N', 'O', 'P'][i]
}

/// One `label value` line with the value in prefixed hexadecimal.
pub open spec fn labelled_line(label: Seq<char>, n: nat) -> Seq<char> {
    label + prefixed_hex(n) + seq!['\n']
}

/// The lines for registers `0..k`.
pub open spec fn register_lines(regs: Seq<u16>, k: int) -> Seq<char>
    decreases k,
{
    if k <= 0 {
        seq![]
    } else {
        register_lines(regs, k - 1) + labelled_line(
            "Register "@ + seq![register_name(k - 1), ':', ' '],
            regs[k - 1] as nat,
        )
    }
}

/// The non-zero cells among addresses `0..n`, as `(address, value)`, ascending.
pub open spec fn nonzero_cells_upto(mem: Seq<u8>, n: int) -> Seq<(usize, u8)>
    decreases n,
{
    if n <= 0 {
        seq![]
    } else if mem[n - 1] != 0 {
        nonzero_cells_upto(mem, n - 1).push(((n - 1) as usize, mem[n - 1]))
    } else {
        nonzero_cells_upto(mem, n - 1)
    }
}

/// The lines `address -> value` for a list of memory cells.
pub open spec fn cell_lines(cells: Seq<(usize, u8)>) -> Seq<char>
    decreases cells.len(),
{
    if cells.len() == 0 {
        seq![]
    } else {
        cell_lines(cells.drop_last()) + prefixed_hex(cells.last().0 as nat) + " -> "@
            + prefixed_hex(cells.last().1 as nat) + seq!['\n']
    }
}

pub open spec fn status_text(halted: bool) -> Seq<char> {
    if halted {
        "halted"@
    } else {
        "running"@
    }
}

/// The full state report: registers A to P, accumulator, instruction pointer,
/// stack pointer, status, then every non-zero memory cell in ascending order.
pub open spec fn report_text(s: VmState) -> Seq<char> {
    register_lines(s.regs, REGISTER_COUNT as int) + labelled_line("Accumulator: "@, s.accum as nat)
        + labelled_line("Instruction Pointer: "@, s.ip as nat) + labelled_line(
        "Stack Pointer: "@,
        s.sp as nat,
    ) + "Status: "@ + status_text(s.halted) + "\nMemory:\n"@ + cell_lines(
        nonzero_cells_upto(s.mem, MEMORY_SIZE as int),
    )
}

fn hex_digit_str(d: u64) -> (r: &'static str)
    requires
        d < 16,
    ensures
        r@ == seq![hex_digit(d as nat)],
{
    proof {
        reveal_strlit("0");
        reveal_strlit("1");
        reveal_strlit("2");
        reveal_strlit("3");
        reveal_strlit("4");
        reveal_strlit("5");
        reveal_strlit("6");
        reveal_strlit("7");
        reveal_strlit("8");
        reveal_strlit("9");
        reveal_strlit("a");
        reveal_strlit("b");
        reveal_strlit("c");
        reveal_strlit("d");
        reveal_strlit("e");
        reveal_strlit("f");
    }
    let r = match d {
        0 => "0",
        1 => "1",
        2 => "2",
        3 => "3",
        4 => "4",
        5 => "5",
        6 => "6",
        7 => "7",
        8 => "8",
        9 => "9",
        10 => "a",
        11 => "b",
        12 => "c",
        13 => "d",
        14 => "e",
        _ => "f",
    };
    assert(r@ =~= seq![hex_digit(d as nat)]);
    r
}

/// Appends `n` in hexadecimal to `out`.
pub fn push_hex(out: &mut String, n: u64)
    ensures
        final(out)@ == old(out)@ + hex_text(n as nat),
    decreases n,
{
    if n >= 16 {
        push_hex(out, n / 16);
    }
    out.append(hex_digit_str(n % 16));
    assert(final(out)@ =~= old(out)@ + hex_text(n as nat));
}

fn push_labelled_line(out: &mut String, label: &str, n: u64)
    ensures
        final(out)@ == old(out)@ + labelled_line(label@, n as nat),
{
    out.append(label);
    out.append("0x");
    push_hex(out, n);
    out.append("\n");
    proof {
        reveal_strlit("0x");
        reveal_strlit("\n");
    }
    assert(final(out)@ =~= old(out)@ + labelled_line(label@, n as nat));
}

fn register_label(i: usize) -> (r: &'static str)
    requires
        i < 16,
    ensures
        r@ == "Register "@ + seq![register_name(i as int), ':', ' '],
{
    proof {
        reveal_strlit("Register ");
        reveal_strlit("Register A: ");
        reveal_strlit("Register B: ");
        reveal_strlit("Register C: ");
        reveal_strlit("Register D: ");
        reveal_strlit("Register E: ");
        reveal_strlit("Register F: ");
        reveal_strlit("Register G: ");
        reveal_strlit("Register H: ");
        reveal_strlit("Register I: ");
        reveal_strlit("Register J: ");
        reveal_strlit("Register K: ");
        reveal_strlit("Register L: ");
        reveal_strlit("Register M: ");
        reveal_strlit("Register N: ");
        reveal_strlit("Register O: ");
        reveal_strlit("Register P: ");
    }
    let r = match i {
        0 => "Register A: ",
        1 => "Register B: ",
        2 => "Register C: ",
        3 => "Register D: ",
        4 => "Register E: ",
        5 => "Register F: ",
        6 => "Register G: ",
        7 => "Register H: ",
        8 => "Register I: ",
        9 => "Register J: ",
        10 => "Register K: ",
        11 => "Register L: ",
        12 => "Register M: ",
        13 => "Register N: ",
        14 => "Register O: ",
        _ => "Register P: ",
    };
    assert(r@ =~= "Register "@ + seq![register_name(i as int), ':', ' ']);
    r
}

impl VM {
    /// The non-zero memory cells as `(address, value)`, in ascending address order.
    pub fn nonzero_cells(&self) -> (r: Vec<(usize, u8)>)
        requires
            self.wf(),
        ensures
            r@ == nonzero_cells_upto(self@.mem, MEMORY_SIZE as int),
    {
        let mut r: Vec<(usize, u8)> = Vec::new();
        let mut i: usize = 0;
        while i < MEMORY_SIZE
            invariant
                self.wf(),
                i <= MEMORY_SIZE,
                r@ == nonzero_cells_upto(self@.mem, i as int),
            decreases MEMORY_SIZE - i,
        {
            let v = self.memory_at(i);
            if v != 0 {
                r.push((i, v));
            }
            i = i + 1;
        }
        r
    }

    /// The engine's state as text; reading it changes nothing.
    pub fn state_report(&self) -> (r: String)
        requires
            self.wf(),
        ensures
            r@ == report_text(self@),
    {
        let mut out = String::new();
        let regs = self.registers();
        let mut i: usize = 0;
        while i < REGISTER_COUNT
            invariant
                self.wf(),
                regs@ == self@.regs,
                i <= REGISTER_COUNT,
                out@ == register_lines(self@.regs, i as int),
            decreases REGISTER_COUNT - i,
        {
            push_labelled_line(&mut out, register_label(i), regs[i] as u64);
            i = i + 1;
        }
        push_labelled_line(&mut out, "Accumulator: ", self.accumulator() as u64);
        push_labelled_line(&mut out, "Instruction Pointer: ", self.instruction_pointer() as u64);
        push_labelled_line(&mut out, "Stack Pointer: ", self.stack_pointer() as u64);
        out.append("Status: ");
        if self.is_halted() {
            out.append("halted");
        } else {
            out.append("running");
        }
        out.append("\nMemory:\n");
        let head = Ghost(out@);
        let cells = self.nonzero_cells();
        let mut j: usize = 0;
        while j < cells.len()
            invariant
                j <= cells@.len(),
                out@ == head@ + cell_lines(cells@.subrange(0, j as int)),
            decreases cells@.len() - j,
        {
            let (addr, value) = cells[j];
            out.append("0x");
            push_hex(&mut out, addr as u64);
            out.append(" -> 0x");
            push_hex(&mut out, value as u64);
            out.append("\n");
            proof {
                reveal_strlit("0x");
                reveal_strlit(" -> ");
                reveal_strlit(" -> 0x");
                reveal_strlit("\n");
                let next = cells@.subrange(0, j + 1);
                assert(next.drop_last() =~= cells@.subrange(0, j as int));
                assert(" -> 0x"@ =~= " -> "@ + seq!['0', 'x']);
            }
            j = j + 1;
            assert(out@ =~= head@ + cell_lines(cells@.subrange(0, j as int)));
        }
        proof {
            reveal_strlit("Status: ");
            reveal_strlit("halted");
            reveal_strlit("running");
            reveal_strlit("\nMemory:\n");
            assert(cells@.subrange(0, cells@.len() as int) =~= cells@);
        }
        assert(out@ =~= report_text(self@));
        out
    }
}

/// The memory listing holds exactly the non-zero cells below `n`, each with the
/// value memory holds there, in strictly ascending address order.
pub proof fn lemma_nonzero_cells_exact(mem: Seq<u8>, n: int)
    requires
        mem.len() == MEMORY_SIZE,
        0 <= n <= MEMORY_SIZE,
    ensures
        forall|k: int|
            0 <= k < nonzero_cells_upto(mem, n).len() ==> {
                let c = #[trigger] nonzero_cells_upto(mem, n)[k];
                &&& c.0 < n
                &&& c.1 != 0
                &&& mem[c.0 as int] == c.1
            },
        forall|k: int, l: int|
            0 <= k < l < nonzero_cells_upto(mem, n).len() ==> (#[trigger] nonzero_cells_upto(
                mem,
                n,
            )[k]).0 < (#[trigger] nonzero_cells_upto(mem, n)[l]).0,
        forall|a: int|
            0 <= a < n && #[trigger] mem[a] != 0 ==> exists|k: int|
                0 <= k < nonzero_cells_upto(mem, n).len() && (#[trigger] nonzero_cells_upto(
                    mem,
                    n,
                )[k]).0 == a,
    decreases n,
{
    if n > 0 {
        lemma_nonzero_cells_exact(mem, n - 1);
        let prev = nonzero_cells_upto(mem, n - 1);
        let cur = nonzero_cells_upto(mem, n);
        if mem[n - 1] != 0 {
            assert(cur == prev.push(((n - 1) as usize, mem[n - 1])));
            assert forall|a: int| 0 <= a < n && #[trigger] mem[a] != 0 implies exists|k: int|
                0 <= k < cur.len() && (#[trigger] cur[k]).0 == a by {
                if a == n - 1 {
                    assert(cur[prev.len() as int].0 == a);
                } else {
                    let k = choose|k: int| 0 <= k < prev.len() && (#[trigger] prev[k]).0 == a;
                    assert(cur[k] == prev[k]);
                }
            }
        } else {
            assert(cur == prev);
        }
    }
}

} // verus!
