//! A time-travelling debugger: it steps a CPU forward, keeps a snapshot of
//! the CPU from before each step, and steps back by restoring the newest
//! snapshot.
//!
//! The debugger reads and prints nothing itself. Its host reads the
//! command lines, hands them over, and does what the returned action asks.

use crate::cpu::{CpuState, Error, Reg, CPU};
use crate::instr::{decode, Instr};
use crate::text::{decimal, hex8, push_decimal_signed, push_hex8, same_text};
use crate::word::{add32, signed, sub32, word_of};
use vstd::prelude::*;
use vstd::string::*;

verus! {

/// The commands of the debugger.
#[derive(Copy, Clone, Debug, PartialEq, Eq, Structural)]
pub enum Cmd {
    /// Step forward by one instruction.
    Step,
    /// Step back by one instruction.
    StepBackwards,
    /// Leave the debugger.
    Exit,
    /// Run the program until it halts.
    Run,
    /// Show the commands.
    Help,
}

/// What the debugger does next.
#[derive(Copy, Clone, Debug, PartialEq, Eq, Structural)]
pub enum State {
    /// It steps the CPU until the program halts.
    Running,
    /// It waits for a command.
    AcceptCmd,
    /// The program has halted.
    Done,
}

/// What the host is to do after a command.
#[derive(Copy, Clone, Debug, PartialEq, Eq, Structural)]
pub enum Action {
    /// Nothing.
    Proceed,
    /// Show the state of the machine.
    ShowState,
    /// Show the commands.
    ShowHelp,
    /// End the process, with exit code 1.
    Exit,
}

impl Cmd {
    /// The command that `text` names, if it names one.
    pub open spec fn named(text: Seq<char>) -> Option<Cmd> {
        if text == "run"@ {
            Some(Cmd::Run)
        } else if text == "step"@ || text == "s"@ || text == "sf"@ {
            Some(Cmd::Step)
        } else if text == "step-backwards"@ || text == "sb"@ {
            Some(Cmd::StepBackwards)
        } else if text == "exit"@ || text == "quit"@ || text == "q"@ {
            Some(Cmd::Exit)
        } else if text == "help"@ {
            Some(Cmd::Help)
        } else {
            None
        }
    }

    /// The name under which the prompt shows the command.
    pub open spec fn label(self) -> Seq<char> {
        match self {
            Cmd::Step => "Step"@,
            Cmd::StepBackwards => "StepBackwards"@,
            Cmd::Exit => "Exit"@,
            Cmd::Run => "Run"@,
            Cmd::Help => "Help"@,
        }
    }

    /// The list of the commands, one or more lines for each.
    pub open spec fn help_text() -> Seq<char> {
        "  run ------------ run program\n  step ----------- step forward a single instruction\n  | s\n  | sf\n  step-backwards - step backwards a single instruction\n  | sb\n  exit ----------- quit the debugger\n  | quit\n  | q\n  help ----------- open help\n"@
    }

    /// The list of the commands, for the host to show.
    pub fn help() -> (text: &'static str)
        ensures
            text@ == Cmd::help_text(),
    {
        "  run ------------ run program\n  step ----------- step forward a single instruction\n  | s\n  | sf\n  step-backwards - step backwards a single instruction\n  | sb\n  exit ----------- quit the debugger\n  | quit\n  | q\n  help ----------- open help\n"
    }

    /// Reads a command. Fails with the message `Invalid Command` where
    /// `s` names none.
    pub fn from_str(s: &str) -> (res: Result<Cmd, &'static str>)
        ensures
            match res {
                Ok(cmd) => Cmd::named(s@) == Some(cmd),
                Err(msg) => Cmd::named(s@) is None && msg@ == "Invalid Command"@,
            },
    {
        if same_text(s, "run") {
            Ok(Cmd::Run)
        } else if same_text(s, "step") || same_text(s, "s") || same_text(s, "sf") {
            Ok(Cmd::Step)
        } else if same_text(s, "step-backwards") || same_text(s, "sb") {
            Ok(Cmd::StepBackwards)
        } else if same_text(s, "exit") || same_text(s, "quit") || same_text(s, "q") {
            Ok(Cmd::Exit)
        } else if same_text(s, "help") {
            Ok(Cmd::Help)
        } else {
            Err("Invalid Command")
        }
    }

    /// The name under which the prompt shows the command.
    pub fn name(self) -> (name: &'static str)
        ensures
            name@ == self.label(),
    {
        match self {
            Cmd::Step => "Step",
            Cmd::StepBackwards => "StepBackwards",
            Cmd::Exit => "Exit",
            Cmd::Run => "Run",
            Cmd::Help => "Help",
        }
    }
}

/// The message for an error of the CPU.
pub open spec fn cpu_error_message(err: Error) -> Seq<char> {
    "CPU Error: "@ + (match err {
        Error::InvalidReg => "InvalidReg"@,
        Error::BadInstr => "BadInstr"@,
    })
}

/// The state of a debugger.
pub struct DebuggerState {
    /// The live CPU.
    pub cpu: CpuState,
    /// What the debugger does next.
    pub state: State,
    /// The last command that was carried out; `Help` does not count.
    pub prev_command: Cmd,
    /// The snapshots, the oldest first: the CPU as it was before each
    /// forward step that was not yet stepped back.
    pub past_states: Seq<CpuState>,
}

impl DebuggerState {
    /// The state of a new debugger on `cpu`: it waits for a command, holds
    /// no snapshot, and `Step` counts as the last command.
    pub open spec fn initial(cpu: CpuState) -> DebuggerState {
        DebuggerState {
            cpu,
            state: State::AcceptCmd,
            prev_command: Cmd::Step,
            past_states: Seq::empty(),
        }
    }

    /// The state after a forward step: the CPU as it was is the newest
    /// snapshot and the CPU has made a step. A running debugger is done
    /// where that step found the CPU halted; a debugger that waits for a
    /// command goes on waiting, also then.
    pub open spec fn step_forward(self) -> DebuggerState {
        let outcome = self.cpu.step();
        DebuggerState {
            cpu: outcome.state,
            state: if self.state == State::Running && outcome.result == Ok::<bool, Error>(false) {
                State::Done
            } else {
                self.state
            },
            past_states: self.past_states.push(self.cpu),
            ..self
        }
    }

    /// The state after a step back: the machine is that of the newest
    /// snapshot, which is gone from the stack. Without a snapshot nothing
    /// changes.
    pub open spec fn step_backward(self) -> DebuggerState {
        if self.past_states.len() > 0 {
            DebuggerState {
                cpu: self.cpu.restored(self.past_states.last()),
                past_states: self.past_states.drop_last(),
                ..self
            }
        } else {
            self
        }
    }

    /// The state after the command `cmd`. A command that was carried out
    /// becomes the last command, but for `Help`; a forward step on which
    /// the CPU fails does not.
    pub open spec fn execute(self, cmd: Cmd) -> DebuggerState {
        match cmd {
            Cmd::Run => DebuggerState { state: State::Running, prev_command: cmd, ..self },
            Cmd::Step => if self.cpu.step().result is Err {
                self.step_forward()
            } else {
                DebuggerState { prev_command: cmd, ..self.step_forward() }
            },
            Cmd::StepBackwards => DebuggerState { prev_command: cmd, ..self.step_backward() },
            Cmd::Exit => self,
            Cmd::Help => self,
        }
    }

    /// What the host is to do after the command `cmd`.
    pub open spec fn action(cmd: Cmd) -> Action {
        match cmd {
            Cmd::Run => Action::Proceed,
            Cmd::Step => Action::ShowState,
            Cmd::StepBackwards => Action::ShowState,
            Cmd::Exit => Action::Exit,
            Cmd::Help => Action::ShowHelp,
        }
    }

    /// The command that the line `line`, as read with its line end, asks
    /// for: the command that the line without its last character names;
    /// the last command again where the line is empty; none otherwise.
    pub open spec fn command_for_line(self, line: Seq<char>) -> Option<Cmd> {
        match Cmd::named(line.drop_last()) {
            Some(cmd) => Some(cmd),
            None => if line == "\n"@ {
                Some(self.prev_command)
            } else {
                None
            },
        }
    }

    /// The state with `bytes` added to the pending input of the CPU.
    pub open spec fn fed(self, bytes: Seq<u8>) -> DebuggerState {
        DebuggerState {
            cpu: CpuState {
                bus: crate::bus::BusState { input: self.cpu.bus.input + bytes, ..self.cpu.bus },
                ..self.cpu
            },
            ..self
        }
    }

    /// The state with the two streams of the CPU as the host has left
    /// them: `input` is pending, `output` waits to be collected.
    pub open spec fn with_streams(self, input: Seq<u8>, output: Seq<u8>) -> DebuggerState {
        DebuggerState {
            cpu: CpuState {
                bus: crate::bus::BusState { input, output, ..self.cpu.bus },
                ..self.cpu
            },
            ..self
        }
    }

    /// The state after one forward step for each entry of `streams`.
    /// Before each step the host has supplied input and collected output,
    /// which has left the two streams as the entry says: the pending input
    /// first, the waiting output second.
    pub open spec fn run_forward(self, streams: Seq<(Seq<u8>, Seq<u8>)>) -> DebuggerState
        decreases streams.len(),
    {
        if streams.len() == 0 {
            self
        } else {
            self.run_forward(streams.drop_last()).with_streams(
                streams.last().0,
                streams.last().1,
            ).step_forward()
        }
    }

    /// The state after `n` steps back.
    pub open spec fn run_backward(self, n: nat) -> DebuggerState
        decreases n,
    {
        if n == 0 {
            self
        } else {
            self.step_backward().run_backward((n - 1) as nat)
        }
    }

    /// Whether two states hold the same machine and the same snapshots.
    pub open spec fn same_machine(self, other: DebuggerState) -> bool {
        self.cpu.same_machine(other.cpu) && self.past_states == other.past_states
    }
}

/// The number of rows of a memory window.
pub const WINDOW_ROWS: usize = 13;

/// The address of the row `k` of a window of thirteen words round
/// `centre`, which is the address of row 6.
pub open spec fn window_addr(centre: u32, k: int) -> u32 {
    word_of(centre + 4 * (k - 6))
}

/// The mark in front of a row: `>` on the row of the centre, a space on
/// the others.
pub open spec fn row_mark(addr: u32, centre: u32) -> Seq<char> {
    if addr == centre {
        ">"@
    } else {
        " "@
    }
}

/// The row `k` of the stack window: the mark, the address and the word
/// there in hexadecimal, and the word as a signed number.
pub open spec fn stack_row(cpu: CpuState, k: int) -> Seq<char> {
    let centre = cpu.regs[30];
    let addr = window_addr(centre, k);
    let val = cpu.bus.peek(addr);
    row_mark(addr, centre) + "  0x"@ + hex8(addr) + "  | 0x"@ + hex8(val) + "  | "@ + decimal(
        signed(val),
    ) + "\n"@
}

/// The first `count` rows of the stack window.
pub open spec fn stack_rows(cpu: CpuState, count: int) -> Seq<char>
    decreases count,
{
    if count <= 0 {
        Seq::empty()
    } else {
        stack_rows(cpu, count - 1) + stack_row(cpu, count - 1)
    }
}

/// The row `k` of the program window: the mark, the address and the word
/// there in hexadecimal, and the word as an instruction.
pub open spec fn program_row(cpu: CpuState, k: int) -> Seq<char> {
    let centre = cpu.pc;
    let addr = window_addr(centre, k);
    let val = cpu.bus.peek(addr);
    row_mark(addr, centre) + " 0x"@ + hex8(addr) + " | 0x"@ + hex8(val) + " : "@ + decode(
        val,
    ).text() + "\n"@
}

/// The first `count` rows of the program window.
pub open spec fn program_rows(cpu: CpuState, count: int) -> Seq<char>
    decreases count,
{
    if count <= 0 {
        Seq::empty()
    } else {
        program_rows(cpu, count - 1) + program_row(cpu, count - 1)
    }
}

/// The heading of the stack window.
pub open spec fn stack_heading() -> Seq<char> {
    "  -------------==== Stack ====-------------\n"@
        + "       ADDR    |     HEX     |     VAL     \n"@
        + "  -------------|-------------|-------------\n"@
}

/// The heading of the program window.
pub open spec fn program_heading() -> Seq<char> {
    "  ---------====== Program RAM ======--------\n"@
        + "     ADDR    |   HEXVAL   :     MIPS ASM    \n"@
        + "  -----------|------------------------------\n"@
}

/// The heading of the registers.
pub open spec fn registers_heading() -> Seq<char> {
    "------------------------------------------------====== CPU State ======------------------------------------------------\n"@
}

/// The state of the machine as text: a window of thirteen words of memory
/// round the address in register 30, a window of thirteen words round the
/// program counter, each word with the instruction it stands for, and the
/// registers. An empty line stands after each window.
pub open spec fn machine_dump(cpu: CpuState) -> Seq<char> {
    stack_heading() + stack_rows(cpu, 13) + "\n"@ + program_heading() + program_rows(cpu, 13)
        + "\n"@ + registers_heading() + cpu.text() + "\n"@
}

/// Adds the heading of the stack window to `out`.
pub fn push_stack_heading(out: &mut String)
    ensures
        final(out)@ == old(out)@ + stack_heading(),
{
    out.append("  -------------==== Stack ====-------------\n");
    out.append("       ADDR    |     HEX     |     VAL     \n");
    out.append("  -------------|-------------|-------------\n");
    assert(out@ =~= old(out)@ + stack_heading());
}

/// Adds the heading of the program window to `out`.
pub fn push_program_heading(out: &mut String)
    ensures
        final(out)@ == old(out)@ + program_heading(),
{
    out.append("  ---------====== Program RAM ======--------\n");
    out.append("     ADDR    |   HEXVAL   :     MIPS ASM    \n");
    out.append("  -----------|------------------------------\n");
    assert(out@ =~= old(out)@ + program_heading());
}

/// Adds the row `k` of the stack window of `cpu` to `out`; `addr` is the
/// address of the row.
pub fn push_stack_row(cpu: &CPU, out: &mut String, k: usize, addr: u32)
    requires
        addr == window_addr(cpu@.regs[30], k as int),
    ensures
        final(out)@ == old(out)@ + stack_row(cpu@, k as int),
{
    proof {
        cpu.lemma_wf();
    }
    let centre = match cpu.get_reg(Reg::Reg(30)) {
        Ok(word) => word,
        Err(_) => 0,
    };
    let val = cpu.peek(addr);
    out.append(if addr == centre { ">" } else { " " });
    out.append("  0x");
    push_hex8(out, addr);
    out.append("  | 0x");
    push_hex8(out, val);
    out.append("  | ");
    push_decimal_signed(out, val);
    out.append("\n");
    assert(out@ =~= old(out)@ + stack_row(cpu@, k as int));
}

/// Adds the row `k` of the program window of `cpu` to `out`; `addr` is
/// the address of the row.
pub fn push_program_row(cpu: &CPU, out: &mut String, k: usize, addr: u32)
    requires
        addr == window_addr(cpu@.pc, k as int),
    ensures
        final(out)@ == old(out)@ + program_row(cpu@, k as int),
{
    let centre = match cpu.get_reg(Reg::PC) {
        Ok(word) => word,
        Err(_) => 0,
    };
    let val = cpu.peek(addr);
    out.append(if addr == centre { ">" } else { " " });
    out.append(" 0x");
    push_hex8(out, addr);
    out.append(" | 0x");
    push_hex8(out, val);
    out.append(" : ");
    Instr::from_u32(val).write_to(out);
    out.append("\n");
    assert(out@ =~= old(out)@ + program_row(cpu@, k as int));
}

/// The first row of a window lies 24 below the centre, and each row four
/// above the row before it.
pub proof fn lemma_window_rows(centre: u32, k: int)
    requires
        0 <= k < 13,
    ensures
        window_addr(centre, 0) == word_of(centre - 24),
        word_of(window_addr(centre, k) + 4) == window_addr(centre, k + 1),
{
    let x = centre + 4 * (k - 6);
    vstd::arithmetic::div_mod::lemma_add_mod_noop(x, 4, 0x1_0000_0000);
    assert(4int % 0x1_0000_0000 == 4);
    assert(word_of(x) as int == x % 0x1_0000_0000);
}

/// Adds the thirteen rows of the stack window of `cpu` to `out`.
pub fn push_stack_window(cpu: &CPU, out: &mut String)
    ensures
        final(out)@ == old(out)@ + stack_rows(cpu@, 13),
{
    proof {
        cpu.lemma_wf();
    }
    let centre = match cpu.get_reg(Reg::Reg(30)) {
        Ok(word) => word,
        Err(_) => 0,
    };
    let mut addr = sub32(centre, 24);
    let mut k: usize = 0;
    proof {
        lemma_window_rows(centre, 0);
    }
    assert(out@ =~= old(out)@ + stack_rows(cpu@, 0));
    while k < WINDOW_ROWS
        invariant
            k <= WINDOW_ROWS,
            centre == cpu@.regs[30],
            addr == window_addr(centre, k as int),
            out@ == old(out)@ + stack_rows(cpu@, k as int),
        decreases WINDOW_ROWS - k,
    {
        push_stack_row(cpu, out, k, addr);
        assert(out@ =~= old(out)@ + stack_rows(cpu@, k + 1));
        proof {
            lemma_window_rows(centre, k as int);
        }
        addr = add32(addr, 4);
        k = k + 1;
    }
}

/// Adds the thirteen rows of the program window of `cpu` to `out`.
pub fn push_program_window(cpu: &CPU, out: &mut String)
    ensures
        final(out)@ == old(out)@ + program_rows(cpu@, 13),
{
    let centre = match cpu.get_reg(Reg::PC) {
        Ok(word) => word,
        Err(_) => 0,
    };
    let mut addr = sub32(centre, 24);
    let mut k: usize = 0;
    proof {
        lemma_window_rows(centre, 0);
    }
    assert(out@ =~= old(out)@ + program_rows(cpu@, 0));
    while k < WINDOW_ROWS
        invariant
            k <= WINDOW_ROWS,
            centre == cpu@.pc,
            addr == window_addr(centre, k as int),
            out@ == old(out)@ + program_rows(cpu@, k as int),
        decreases WINDOW_ROWS - k,
    {
        push_program_row(cpu, out, k, addr);
        assert(out@ =~= old(out)@ + program_rows(cpu@, k + 1));
        proof {
            lemma_window_rows(centre, k as int);
        }
        addr = add32(addr, 4);
        k = k + 1;
    }
}

/// A time-travelling debugger for a CPU.
pub struct Debugger {
    cpu: CPU,
    state: State,
    prev_command: Cmd,
    past_states: Vec<CPU>,
}

impl View for Debugger {
    type V = DebuggerState;

    closed spec fn view(&self) -> DebuggerState {
        DebuggerState {
            cpu: self.cpu@,
            state: self.state,
            prev_command: self.prev_command,
            past_states: Seq::new(self.past_states@.len(), |k: int| self.past_states@[k]@),
        }
    }
}

impl Debugger {
    /// A debugger for `cpu`.
    pub fn new(cpu: CPU) -> (debugger: Debugger)
        ensures
            debugger@ == DebuggerState::initial(cpu@),
    {
        let debugger = Debugger {
            cpu,
            state: State::AcceptCmd,
            prev_command: Cmd::Step,
            past_states: Vec::new(),
        };
        assert(debugger@.past_states =~= Seq::empty());
        debugger
    }

    /// The live CPU.
    pub fn cpu(&self) -> (cpu: &CPU)
        ensures
            cpu@ == self@.cpu,
    {
        &self.cpu
    }

    /// What the debugger does next.
    pub fn state(&self) -> (state: State)
        ensures
            state == self@.state,
    {
        self.state
    }

    /// The last command that was carried out.
    pub fn prev_command(&self) -> (cmd: Cmd)
        ensures
            cmd == self@.prev_command,
    {
        self.prev_command
    }

    /// The number of snapshots, which is the number of steps that can be
    /// taken back.
    pub fn depth(&self) -> (depth: usize)
        ensures
            depth == self@.past_states.len(),
    {
        self.past_states.len()
    }

    /// Whether an input byte is pending on the bus of the live CPU.
    pub fn has_input(&self) -> (pending: bool)
        ensures
            pending == (self@.cpu.bus.input.len() > 0),
    {
        self.cpu.has_input()
    }

    /// Hands the bus of the live CPU the next byte of the input stream.
    pub fn feed_input(&mut self, byte: u8)
        ensures
            final(self)@ == old(self)@.fed(seq![byte]),
    {
        self.cpu.feed_input(byte);
        assert(self@.cpu.bus.input =~= old(self)@.cpu.bus.input + seq![byte]);
    }

    /// Collects the bytes that the live CPU has sent to the output stream
    /// since the last call.
    pub fn take_output(&mut self) -> (bytes: Vec<u8>)
        ensures
            bytes@ == old(self)@.cpu.bus.output,
            final(self)@ == (DebuggerState {
                cpu: CpuState {
                    bus: crate::bus::BusState { output: Seq::empty(), ..old(self)@.cpu.bus },
                    ..old(self)@.cpu
                },
                ..old(self)@
            }),
    {
        self.cpu.take_output()
    }

    /// The state of the machine as text, for the host to show.
    pub fn dump_cpu_state(&self) -> (text: String)
        ensures
            text@ == machine_dump(self@.cpu),
    {
        let mut text = String::new();
        push_stack_heading(&mut text);
        push_stack_window(&self.cpu, &mut text);
        text.append("\n");
        push_program_heading(&mut text);
        push_program_window(&self.cpu, &mut text);
        text.append("\n");
        text.append(
            "------------------------------------------------====== CPU State ======------------------------------------------------\n",
        );
        self.cpu.write_to(&mut text);
        text.append("\n");
        assert(text@ =~= machine_dump(self@.cpu));
        text
    }

    /// The text of the prompt: the name of the last command and `> `.
    pub fn prompt(&self) -> (text: String)
        ensures
            text@ == self@.prev_command.label() + "> "@,
    {
        String::from_str(self.prev_command.name()).concat("> ")
    }

    /// The command that a line asks for. `line` is the line as it was
    /// read, with its line end. Returns `None` for a line that is neither
    /// a command nor empty.
    pub fn command_for_line(&self, line: &str) -> (cmd: Option<Cmd>)
        requires
            line@.len() > 0,
        ensures
            cmd == self@.command_for_line(line@),
    {
        let len = line.unicode_len();
        match Cmd::from_str(line.substring_char(0, len - 1)) {
            Ok(cmd) => Some(cmd),
            Err(_) => {
                if same_text(line, "\n") {
                    Some(self.prev_command)
                } else {
                    None
                }
            },
        }
    }

    /// Takes a snapshot of the CPU and steps it forward. Fails with the
    /// message of the CPU's error where the step fails; the snapshot is
    /// taken all the same.
    pub fn step_cpu(&mut self) -> (res: Result<(), String>)
        requires
            old(self)@.cpu.can_step(),
        ensures
            final(self)@ == old(self)@.step_forward(),
            match res {
                Ok(_) => old(self)@.cpu.step().result is Ok,
                Err(msg) => old(self)@.cpu.step().result is Err && msg@ == cpu_error_message(
                    old(self)@.cpu.step().result->Err_0,
                ),
            },
    {
        let prev_cpu = self.cpu.clone();
        self.past_states.push(prev_cpu);
        assert(self@.past_states =~= old(self)@.past_states.push(old(self)@.cpu));

        match self.cpu.step() {
            Ok(keep_running) => {
                if !keep_running {
                    // Only a run ends at the halt; a single step goes
                    // back to the prompt.
                    match self.state {
                        State::Running => self.state = State::Done,
                        _ => {},
                    }
                }
                Ok(())
            },
            Err(err) => {
                let name = match err {
                    Error::InvalidReg => "InvalidReg",
                    Error::BadInstr => "BadInstr",
                };
                Err(String::from_str("CPU Error: ").concat(name))
            },
        }
    }

    /// Carries out a command and says what the host is to do next. Fails
    /// with the message of the CPU's error where a forward step fails.
    pub fn exec_command(&mut self, cmd: Cmd) -> (res: Result<Action, String>)
        requires
            cmd == Cmd::Step ==> old(self)@.cpu.can_step(),
        ensures
            final(self)@ == old(self)@.execute(cmd),
            match res {
                Ok(action) => action == DebuggerState::action(cmd) && !(cmd == Cmd::Step && old(
                    self,
                )@.cpu.step().result is Err),
                Err(msg) => cmd == Cmd::Step && old(self)@.cpu.step().result is Err && msg@
                    == cpu_error_message(old(self)@.cpu.step().result->Err_0),
            },
    {
        match cmd {
            Cmd::Run => {
                self.state = State::Running;
            },
            Cmd::Step => {
                match self.step_cpu() {
                    Ok(_) => {},
                    Err(msg) => {
                        return Err(msg);
                    },
                }
            },
            Cmd::StepBackwards => {
                // Retrieve the previous state of the machine.
                match self.past_states.pop() {
                    Some(prev_cpu) => {
                        self.cpu.restore(prev_cpu);
                        assert(self@.past_states =~= old(self)@.past_states.drop_last());
                    },
                    None => {
                        assert(self@.past_states =~= old(self)@.past_states);
                    },
                }
            },
            Cmd::Exit => {
                return Ok(Action::Exit);
            },
            Cmd::Help => {
                return Ok(Action::ShowHelp);
            },
        }
        self.prev_command = cmd;
        Ok(
            match cmd {
                Cmd::Run => Action::Proceed,
                _ => Action::ShowState,
            },
        )
    }
}

/// No command but `run` changes what the debugger does next: after a
/// step forwards or backwards it waits for a command as before, also where
/// the CPU has halted.
pub proof fn lemma_commands_keep_state(d: DebuggerState, cmd: Cmd)
    requires
        d.state == State::AcceptCmd,
    ensures
        d.execute(cmd).state == (if cmd == Cmd::Run {
            State::Running
        } else {
            State::AcceptCmd
        }),
{
}

/// A step back after a forward step gives the machine and the snapshots
/// from before the forward step.
pub proof fn lemma_forward_then_backward(d: DebuggerState)
    ensures
        d.step_forward().step_backward().same_machine(d),
{
    let f = d.step_forward();
    assert(f.past_states.drop_last() =~= d.past_states);
}

/// Steps back from two states with the same machine and the same
/// snapshots lead to such states again.
pub proof fn lemma_backward_same_machine(a: DebuggerState, b: DebuggerState, n: nat)
    requires
        a.same_machine(b),
    ensures
        a.run_backward(n).same_machine(b.run_backward(n)),
    decreases n,
{
    if n > 0 {
        lemma_backward_same_machine(a.step_backward(), b.step_backward(), (n - 1) as nat);
    }
}

/// Stepping back undoes stepping forward: after any number of forward
/// steps, whatever the host did to the two streams before each and however
/// each ended, as many steps back leave the program counter, all
/// registers, `hi`, `lo` and the memory as they were before the first, and
/// the snapshots as well.
pub proof fn lemma_steps_are_reversible(d: DebuggerState, streams: Seq<(Seq<u8>, Seq<u8>)>)
    ensures
        d.run_forward(streams).run_backward(streams.len()).same_machine(d),
    decreases streams.len(),
{
    if streams.len() > 0 {
        let before = d.run_forward(streams.drop_last());
        let hosted = before.with_streams(streams.last().0, streams.last().1);
        let after = hosted.step_forward();
        assert(after == d.run_forward(streams));
        lemma_forward_then_backward(hosted);
        assert(after.step_backward().same_machine(before));
        let n = (streams.len() - 1) as nat;
        lemma_backward_same_machine(after.step_backward(), before, n);
        lemma_steps_are_reversible(d, streams.drop_last());
        assert(streams.drop_last().len() == n);
    }
}

} // verus!
