//! A small tape machine. A program moves along a tape of bytes, changes the
//! byte under it, reads and writes bytes, and repeats a run of commands
//! while the byte under it is not zero.
//!
//! The machine does no input or output of its own: it reads from a run of
//! bytes that it is given and writes to one that it gives back. Since a
//! program may run for ever, every command costs one unit of fuel, and the
//! machine stops when the fuel is used up.

use vstd::prelude::*;
use std::collections::HashMap;

verus! {

/// One command.
#[derive(Debug)]
pub enum Cmd {
    ToLeft,
    ToRight,
    Read,
    Write,
    Succ,
    Pred,
    Space,
    Cycle(Vec<Cmd>),
}

/// A command as a plain value.
pub enum Op {
    ToLeft,
    ToRight,
    Read,
    Write,
    Succ,
    Pred,
    Space,
    Cycle(Seq<Op>),
}

impl Cmd {
    /// The command as a plain value.
    pub open spec fn view(&self) -> Op
        decreases self,
    {
        match self {
            Cmd::ToLeft => Op::ToLeft,
            Cmd::ToRight => Op::ToRight,
            Cmd::Read => Op::Read,
            Cmd::Write => Op::Write,
            Cmd::Succ => Op::Succ,
            Cmd::Pred => Op::Pred,
            Cmd::Space => Op::Space,
            Cmd::Cycle(body) => Op::Cycle(
                Seq::new(
                    body@.len(),
                    |i: int|
                        if 0 <= i < body@.len() {
                            body@[i].view()
                        } else {
                            Op::Space
                        },
                ),
            ),
        }
    }
}

/// The commands of a program as plain values.
pub open spec fn ops(prog: Seq<Cmd>) -> Seq<Op> {
    Seq::new(prog.len(), |i: int| prog[i]@)
}

/// The command that one byte of a program text stands for, where it stands
/// for one by itself.
pub open spec fn single_of(byte: u8) -> Option<Op> {
    if byte == 0x3e {
        Some(Op::ToRight)
    } else if byte == 0x3c {
        Some(Op::ToLeft)
    } else if byte == 0x2b {
        Some(Op::Succ)
    } else if byte == 0x2d {
        Some(Op::Pred)
    } else if byte == 0x2e {
        Some(Op::Write)
    } else if byte == 0x2c {
        Some(Op::Read)
    } else if byte == 0x0a || byte == 0x20 {
        Some(Op::Space)
    } else {
        None
    }
}

/// The commands of a run of single commands that starts at `from`: as many
/// as there are before a byte that is no single command, or the end.
pub open spec fn singles_from(inp: Seq<u8>, from: int) -> Seq<Op>
    decreases inp.len() - from,
{
    if from < 0 || from >= inp.len() {
        Seq::empty()
    } else {
        match single_of(inp[from]) {
            Some(op) => seq![op] + singles_from(inp, from + 1),
            None => Seq::empty(),
        }
    }
}

/// The program that the text from `from` on spells, if it spells one: a
/// sequence of single commands and of cycles, where a cycle is `[`, a run of
/// single commands, and `]`.
pub open spec fn parsed_from(inp: Seq<u8>, from: int) -> Option<Seq<Op>>
    decreases inp.len() - from,
{
    if from < 0 {
        None
    } else if from >= inp.len() {
        Some(Seq::empty())
    } else if single_of(inp[from]) is Some {
        match parsed_from(inp, from + 1) {
            Some(rest) => Some(seq![single_of(inp[from])->0] + rest),
            None => None,
        }
    } else if inp[from] == 0x5b {
        let body = singles_from(inp, from + 1);
        let close = from + 1 + body.len();
        if close < inp.len() && inp[close] == 0x5d {
            match parsed_from(inp, close + 1) {
                Some(rest) => Some(seq![Op::Cycle(body)] + rest),
                None => None,
            }
        } else {
            None
        }
    } else {
        None
    }
}

/// The single command that `byte` stands for.
pub fn parse_single(byte: u8) -> (cmd: Option<Cmd>)
    ensures
        match cmd {
            Some(c) => single_of(byte) == Some(c@),
            None => single_of(byte) is None,
        },
{
    if byte == 0x3e {
        Some(Cmd::ToRight)
    } else if byte == 0x3c {
        Some(Cmd::ToLeft)
    } else if byte == 0x2b {
        Some(Cmd::Succ)
    } else if byte == 0x2d {
        Some(Cmd::Pred)
    } else if byte == 0x2e {
        Some(Cmd::Write)
    } else if byte == 0x2c {
        Some(Cmd::Read)
    } else if byte == 0x0a || byte == 0x20 {
        Some(Cmd::Space)
    } else {
        None
    }
}

/// Reads the run of single commands that starts at `from`, and says where
/// it ends.
fn parse_singles(inp: &[u8], from: usize) -> (r: (Vec<Cmd>, usize))
    requires
        from <= inp@.len(),
    ensures
        ops(r.0@) == singles_from(inp@, from as int),
        r.1 == from + r.0@.len(),
        r.1 <= inp@.len(),
        r.1 < inp@.len() ==> single_of(inp@[r.1 as int]) is None,
    decreases inp@.len() - from,
{
    if from >= inp.len() {
        let out: Vec<Cmd> = Vec::new();
        assert(ops(out@) =~= singles_from(inp@, from as int));
        return (out, from);
    }
    match parse_single(inp[from]) {
        None => {
            let out: Vec<Cmd> = Vec::new();
            assert(ops(out@) =~= singles_from(inp@, from as int));
            (out, from)
        },
        Some(cmd) => {
            let (rest, end) = parse_singles(inp, from + 1);
            let mut out: Vec<Cmd> = Vec::new();
            out.push(cmd);
            let mut rest = rest;
            let ghost tail = rest@;
            out.append(&mut rest);
            assert(ops(out@) =~= seq![cmd@] + ops(tail));
            (out, end)
        },
    }
}

/// A cycle as a plain value is the cycle of its body as plain values.
proof fn lemma_cycle_view(body: Vec<Cmd>)
    ensures
        Cmd::Cycle(body)@ == Op::Cycle(ops(body@)),
{
    assert(Cmd::Cycle(body)@->Cycle_0 =~= ops(body@));
}

/// Reads the program that the text from `from` on spells.
fn parse_from(inp: &[u8], from: usize) -> (prog: Option<Vec<Cmd>>)
    requires
        from <= inp@.len(),
    ensures
        match prog {
            Some(p) => parsed_from(inp@, from as int) == Some(ops(p@)),
            None => parsed_from(inp@, from as int) is None,
        },
    decreases inp@.len() - from,
{
    if from >= inp.len() {
        let out: Vec<Cmd> = Vec::new();
        assert(ops(out@) =~= Seq::<Op>::empty());
        return Some(out);
    }
    let (first, next): (Cmd, usize) = match parse_single(inp[from]) {
        Some(cmd) => (cmd, from + 1),
        None => {
            if inp[from] != 0x5b {
                return None;
            }
            let (body, close) = parse_singles(inp, from + 1);
            if close >= inp.len() || inp[close] != 0x5d {
                return None;
            }
            proof {
                lemma_cycle_view(body);
            }
            (Cmd::Cycle(body), close + 1)
        },
    };
    match parse_from(inp, next) {
        None => None,
        Some(rest) => {
            let mut out: Vec<Cmd> = Vec::new();
            let ghost head = first@;
            out.push(first);
            let mut rest = rest;
            let ghost tail = rest@;
            out.append(&mut rest);
            assert(ops(out@) =~= seq![head] + ops(tail));
            Some(out)
        },
    }
}

/// Reads a program: the whole of `inp` has to spell one.
pub fn parse(inp: &[u8]) -> (prog: Option<Vec<Cmd>>)
    ensures
        match prog {
            Some(p) => parsed_from(inp@, 0) == Some(ops(p@)),
            None => parsed_from(inp@, 0) is None,
        },
{
    parse_from(inp, 0)
}

broadcast use vstd::std_specs::hash::group_hash_axioms;

/// Why the machine stopped before the end of its program.
#[derive(Clone, Copy, Debug, PartialEq, Eq)]
pub enum Halt {
    /// A move to the left of the first cell, or to the right of the last.
    OffTape,
    /// A read when no input was left.
    EndOfInput,
    /// The fuel was used up.
    OutOfFuel,
}

/// The machine: its tape, of which only the cells that were written to are
/// held, and its place on the tape.
pub struct BF {
    mem: HashMap<usize, u8>,
    pos: usize,
}

/// A run of the machine as a plain value: the tape and the place, how much
/// of the input is read, what is written, the fuel that is left, and why
/// the run stopped, if it did.
pub struct Run {
    pub mem: Map<usize, u8>,
    pub pos: usize,
    pub at: nat,
    pub out: Seq<u8>,
    pub fuel: nat,
    pub halt: Option<Halt>,
}

impl Run {
    /// The byte under the machine. A cell that was never written to holds
    /// zero.
    pub open spec fn cell(self) -> u8 {
        if self.mem.contains_key(self.pos) {
            self.mem[self.pos]
        } else {
            0
        }
    }

    /// The run with no more fuel than `fuel`.
    pub open spec fn capped(self, fuel: nat) -> Run {
        if self.fuel <= fuel {
            self
        } else {
            Run { fuel, ..self }
        }
    }

    /// The run as the machine holds it: the reason for a stop is not part
    /// of the machine.
    pub open spec fn going(self) -> Run {
        Run { halt: None, ..self }
    }

    /// How the run ended.
    pub open spec fn outcome(self) -> Result<(), Halt> {
        match self.halt {
            Some(halt) => Err(halt),
            None => Ok(()),
        }
    }

    /// The run, stopped for the reason `halt`.
    pub open spec fn stopped(self, halt: Halt) -> Run {
        Run { halt: Some(halt), ..self }
    }

    /// What a command that is no cycle makes of the run.
    pub open spec fn step(self, op: Op, input: Seq<u8>) -> Run {
        match op {
            Op::ToLeft => if self.pos == 0 {
                self.stopped(Halt::OffTape)
            } else {
                Run { pos: (self.pos - 1) as usize, ..self }
            },
            Op::ToRight => if self.pos == usize::MAX {
                self.stopped(Halt::OffTape)
            } else {
                Run { pos: (self.pos + 1) as usize, ..self }
            },
            Op::Read => if self.at >= input.len() {
                self.stopped(Halt::EndOfInput)
            } else {
                Run { mem: self.mem.insert(self.pos, input[self.at as int]), at: self.at + 1, ..self }
            },
            Op::Write => Run { out: self.out.push(self.cell()), ..self },
            Op::Succ => Run { mem: self.mem.insert(self.pos, self.cell().wrapping_add(1)), ..self },
            Op::Pred => Run { mem: self.mem.insert(self.pos, self.cell().wrapping_sub(1)), ..self },
            Op::Space => self,
            Op::Cycle(_) => self,
        }
    }
}

/// What the commands of `prog` from the `k`th on make of a run.
pub open spec fn run_ops(r: Run, prog: Seq<Op>, k: int, input: Seq<u8>) -> Run
    decreases r.fuel, 2int, prog.len() - k,
{
    if k < 0 || k >= prog.len() || r.halt is Some {
        r
    } else {
        run_ops(run_op(r, prog[k], input).capped(r.fuel), prog, k + 1, input)
    }
}

/// What one command makes of a run. Every command costs one unit of fuel.
pub open spec fn run_op(r: Run, op: Op, input: Seq<u8>) -> Run
    decreases r.fuel, 1int, 0int,
{
    if r.fuel == 0 {
        r.stopped(Halt::OutOfFuel)
    } else {
        let paid = Run { fuel: (r.fuel - 1) as nat, ..r };
        match op {
            Op::Cycle(body) => run_cycle(paid, body, input),
            _ => paid.step(op, input),
        }
    }
}

/// What a cycle makes of a run: its body is run again and again while the
/// byte under the machine is not zero. Every round costs one unit of fuel.
pub open spec fn run_cycle(r: Run, body: Seq<Op>, input: Seq<u8>) -> Run
    decreases r.fuel, 0int, 0int,
{
    if r.halt is Some || r.cell() == 0 {
        r
    } else if r.fuel == 0 {
        r.stopped(Halt::OutOfFuel)
    } else {
        let paid = Run { fuel: (r.fuel - 1) as nat, ..r };
        run_cycle(run_ops(paid, body, 0, input).capped(paid.fuel), body, input)
    }
}

impl BF {
    /// The tape.
    pub closed spec fn mem(&self) -> Map<usize, u8> {
        self.mem@
    }

    /// The place on the tape.
    pub closed spec fn pos(&self) -> usize {
        self.pos
    }

    /// The run that starts from this machine with `at` bytes of the input
    /// read, `out` written and `fuel` left.
    pub open spec fn run(&self, at: usize, out: Seq<u8>, fuel: u64) -> Run {
        Run { mem: self.mem(), pos: self.pos(), at: at as nat, out, fuel: fuel as nat, halt: None }
    }

    /// A machine with an empty tape, at its first cell.
    pub fn new() -> (bf: Self)
        ensures
            bf.mem() == Map::<usize, u8>::empty(),
            bf.pos() == 0,
    {
        BF { mem: HashMap::new(), pos: 0 }
    }

    /// The byte under the machine.
    pub fn cell(&self) -> (byte: u8)
        ensures
            byte == self.run(0, Seq::empty(), 0).cell(),
    {
        match self.mem.get(&self.pos) {
            Some(byte) => *byte,
            None => 0,
        }
    }

    /// Runs one command.
    pub fn exec_cmd(
        &mut self,
        cmd: &Cmd,
        input: &[u8],
        at: &mut usize,
        out: &mut Vec<u8>,
        fuel: &mut u64,
    ) -> (r: Result<(), Halt>)
        requires
            *old(at) <= input@.len(),
        ensures
            *final(at) <= input@.len(),
            final(self).run(*final(at), final(out)@, *final(fuel)) == run_op(
                old(self).run(*old(at), old(out)@, *old(fuel)),
                cmd@,
                input@,
            ).going(),
            r == run_op(
                old(self).run(*old(at), old(out)@, *old(fuel)),
                cmd@,
                input@,
            ).outcome(),
            *final(fuel) <= *old(fuel),
        decreases *old(fuel), 1int, 0int,
    {
        if *fuel == 0 {
            return Err(Halt::OutOfFuel);
        }
        *fuel = *fuel - 1;
        match cmd {
            Cmd::ToLeft => {
                if self.pos == 0 {
                    return Err(Halt::OffTape);
                }
                self.pos = self.pos - 1;
            },
            Cmd::ToRight => {
                if self.pos == usize::MAX {
                    return Err(Halt::OffTape);
                }
                self.pos = self.pos + 1;
            },
            Cmd::Read => {
                if *at >= input.len() {
                    return Err(Halt::EndOfInput);
                }
                self.mem.insert(self.pos, input[*at]);
                *at = *at + 1;
            },
            Cmd::Write => {
                out.push(self.cell());
            },
            Cmd::Succ => {
                let v = self.cell();
                self.mem.insert(self.pos, v.wrapping_add(1));
            },
            Cmd::Pred => {
                let v = self.cell();
                self.mem.insert(self.pos, v.wrapping_sub(1));
            },
            Cmd::Cycle(data) => {
                proof {
                    lemma_cycle_view(*data);
                }
                return self.exec_cycle(data.as_slice(), input, at, out, fuel);
            },
            Cmd::Space => {},
        }
        Ok(())
    }

    /// Runs a cycle: its body again and again while the byte under the
    /// machine is not zero.
    fn exec_cycle(
        &mut self,
        body: &[Cmd],
        input: &[u8],
        at: &mut usize,
        out: &mut Vec<u8>,
        fuel: &mut u64,
    ) -> (r: Result<(), Halt>)
        requires
            *old(at) <= input@.len(),
        ensures
            *final(at) <= input@.len(),
            final(self).run(*final(at), final(out)@, *final(fuel)) == run_cycle(
                old(self).run(*old(at), old(out)@, *old(fuel)),
                ops(body@),
                input@,
            ).going(),
            r == run_cycle(
                old(self).run(*old(at), old(out)@, *old(fuel)),
                ops(body@),
                input@,
            ).outcome(),
            *final(fuel) <= *old(fuel),
        decreases *old(fuel), 0int, 0int,
    {
        if self.cell() == 0 {
            return Ok(());
        }
        if *fuel == 0 {
            return Err(Halt::OutOfFuel);
        }
        *fuel = *fuel - 1;
        let ghost paid = Run {
            fuel: (*old(fuel) - 1) as nat,
            ..old(self).run(*old(at), old(out)@, *old(fuel))
        };
        match self.exec_from(body, 0, input, at, out, fuel) {
            Ok(_) => {},
            Err(halt) => {
                proof {
                    lemma_cycle_stopped(
                        run_ops(paid, ops(body@), 0, input@).capped(paid.fuel),
                        ops(body@),
                        input@,
                    );
                }
                return Err(halt);
            },
        }
        self.exec_cycle(body, input, at, out, fuel)
    }

    /// Runs the commands of `prog` from the `k`th on.
    fn exec_from(
        &mut self,
        prog: &[Cmd],
        k: usize,
        input: &[u8],
        at: &mut usize,
        out: &mut Vec<u8>,
        fuel: &mut u64,
    ) -> (r: Result<(), Halt>)
        requires
            *old(at) <= input@.len(),
        ensures
            *final(at) <= input@.len(),
            final(self).run(*final(at), final(out)@, *final(fuel)) == run_ops(
                old(self).run(*old(at), old(out)@, *old(fuel)),
                ops(prog@),
                k as int,
                input@,
            ).going(),
            r == run_ops(
                old(self).run(*old(at), old(out)@, *old(fuel)),
                ops(prog@),
                k as int,
                input@,
            ).outcome(),
            *final(fuel) <= *old(fuel),
        decreases *old(fuel), 2int, prog@.len() - k,
    {
        if k >= prog.len() {
            return Ok(());
        }
        match self.exec_cmd(&prog[k], input, at, out, fuel) {
            Ok(_) => {},
            Err(halt) => {
                proof {
                    lemma_stopped_stays(
                        run_op(
                            old(self).run(*old(at), old(out)@, *old(fuel)),
                            ops(prog@)[k as int],
                            input@,
                        ).capped(*old(fuel) as nat),
                        ops(prog@),
                        k + 1,
                        input@,
                    );
                }
                return Err(halt);
            },
        }
        self.exec_from(prog, k + 1, input, at, out, fuel)
    }

    /// Runs a program on the input from its `at`th byte on, with the fuel
    /// that `fuel` holds. What the program writes is appended to `out`.
    pub fn exec(
        &mut self,
        prog: &[Cmd],
        input: &[u8],
        at: &mut usize,
        out: &mut Vec<u8>,
        fuel: &mut u64,
    ) -> (r: Result<(), Halt>)
        requires
            *old(at) <= input@.len(),
        ensures
            *final(at) <= input@.len(),
            final(self).run(*final(at), final(out)@, *final(fuel)) == run_ops(
                old(self).run(*old(at), old(out)@, *old(fuel)),
                ops(prog@),
                0,
                input@,
            ).going(),
            r == run_ops(
                old(self).run(*old(at), old(out)@, *old(fuel)),
                ops(prog@),
                0,
                input@,
            ).outcome(),
            *final(fuel) <= *old(fuel),
    {
        self.exec_from(prog, 0, input, at, out, fuel)
    }
}

/// A cycle does nothing to a run that has stopped.
pub proof fn lemma_cycle_stopped(r: Run, body: Seq<Op>, input: Seq<u8>)
    requires
        r.halt is Some,
    ensures
        run_cycle(r, body, input) == r,
{
}

/// A run that has stopped stays as it is.
pub proof fn lemma_stopped_stays(r: Run, prog: Seq<Op>, k: int, input: Seq<u8>)
    requires
        r.halt is Some,
    ensures
        run_ops(r, prog, k, input) == r,
{
}

} // verus!
