//! The services that a host offers to a program through `syscall`: which one the
//! program asks for, and how the core goes on once it has been performed.

use vstd::prelude::*;

use crate::chip::{Cp0Register, Cp0State, Cpu, CpuState, Register};
use crate::mem::{spec_get_byte, Memory, Pages};
use crate::word;

verus! {

/// What a program asks its host to do.
#[derive(Debug, PartialEq, Eq)]
pub enum Service {
    /// Service 1: print the number in decimal.
    PrintInt(word),
    /// Service 4: print the text that these bytes hold.
    PrintString(Vec<u8>),
    /// Service 17: end the program with this exit code.
    Exit(word),
    /// Service 32: wait for this many milliseconds.
    Sleep(word),
    /// A service number that stands for nothing.
    Unknown(word),
}

/// A service as a mathematical value.
pub enum ServiceView {
    PrintInt(word),
    PrintString(Seq<u8>),
    Exit(word),
    Sleep(word),
    Unknown(word),
}

impl View for Service {
    type V = ServiceView;

    open spec fn view(&self) -> ServiceView {
        match self {
            Service::PrintInt(n) => ServiceView::PrintInt(*n),
            Service::PrintString(bytes) => ServiceView::PrintString(bytes@),
            Service::Exit(code) => ServiceView::Exit(*code),
            Service::Sleep(ms) => ServiceView::Sleep(*ms),
            Service::Unknown(number) => ServiceView::Unknown(*number),
        }
    }
}

/// Whether `addr` is an address inside the memory whose byte is not zero.
pub open spec fn holds_text(mem: Pages, addr: int) -> bool {
    0 <= addr < 0x1_0000_0000 && match spec_get_byte(mem, addr as word) {
        Some(b) => b != 0,
        None => false,
    }
}

/// Where the text that begins at `addr` ends: the first address at or after `addr`
/// that holds a zero byte or lies outside the memory.
pub open spec fn text_end(mem: Pages, addr: int) -> int
    decreases 0x1_0000_0000 - addr,
{
    if holds_text(mem, addr) {
        text_end(mem, addr + 1)
    } else {
        addr
    }
}

/// The text that begins at `addr`: the bytes up to, and without, the first zero byte.
/// The text ends at the end of the memory if no zero byte comes before.
pub open spec fn text_at(mem: Pages, addr: word) -> Seq<u8> {
    Seq::new(
        (text_end(mem, addr as int) - addr) as nat,
        |k: int|
            match spec_get_byte(mem, (addr + k) as word) {
                Some(b) => b,
                None => 0,
            },
    )
}

/// The service that a core asks for when it executes `syscall`: `$v0` holds the number
/// of the service and `$a0` its argument.
pub open spec fn spec_requested(cpu: CpuState, mem: Pages) -> ServiceView {
    let number = cpu.get(Register::v0);
    let argument = cpu.get(Register::a0);
    if number == 1 {
        ServiceView::PrintInt(argument)
    } else if number == 4 {
        ServiceView::PrintString(text_at(mem, argument))
    } else if number == 17 {
        ServiceView::Exit(argument)
    } else if number == 32 {
        ServiceView::Sleep(argument)
    } else {
        ServiceView::Unknown(number)
    }
}

/// The core after its host has performed `service` for a `syscall`: execution goes on
/// with the instruction after the `syscall`, whose address EPC holds, and the core is
/// halted if the service was to end the program.
pub open spec fn spec_completed(cpu: CpuState, service: ServiceView) -> CpuState {
    CpuState {
        pc: cpu.cp0.reg[Cp0Register::ExPC.index() as int].wrapping_add(4),
        cp0: Cp0State { halt: cpu.cp0.halt || service is Exit, ..cpu.cp0 },
        ..cpu
    }
}

/// Reads the text that begins at `addr`.
pub fn read_text(mem: &Memory, addr: word) -> (text: Vec<u8>)
    ensures
        text@ == text_at(mem@, addr),
{
    let mut text: Vec<u8> = Vec::new();
    let mut at: u64 = addr as u64;
    loop
        invariant
            addr <= at <= 0x1_0000_0000,
            text_end(mem@, addr as int) == text_end(mem@, at as int),
            text@.len() == at - addr,
            forall|k: int|
                0 <= k < text@.len() ==> #[trigger] text@[k] == (match spec_get_byte(
                    mem@,
                    (addr + k) as word,
                ) {
                    Some(b) => b,
                    None => 0,
                }),
        ensures
            text@ =~= text_at(mem@, addr),
        decreases 0x1_0000_0000 - at,
    {
        if at >= 0x1_0000_0000 {
            break ;
        }
        match mem.get_byte(at as word) {
            Some(b) => {
                if b == 0 {
                    break ;
                }
                text.push(b);
                at += 1;
            },
            None => {
                break ;
            },
        }
    }
    text
}

/// Tells which service a core asks for.
pub fn requested(cpu: &Cpu, mem: &Memory) -> (service: Service)
    ensures
        service@ == spec_requested(cpu@, mem@),
{
    let number = cpu.get(Register::v0);
    let argument = cpu.get(Register::a0);
    if number == 1 {
        Service::PrintInt(argument)
    } else if number == 4 {
        Service::PrintString(read_text(mem, argument))
    } else if number == 17 {
        Service::Exit(argument)
    } else if number == 32 {
        Service::Sleep(argument)
    } else {
        Service::Unknown(number)
    }
}

/// Lets a core go on after its host has performed `service`.
pub fn completed(cpu: &mut Cpu, service: &Service)
    ensures
        final(cpu)@ == spec_completed(old(cpu)@, service@),
{
    cpu.pc = cpu.cp0.reg[Cp0Register::ExPC.index()].wrapping_add(4);
    match service {
        Service::Exit(_) => {
            cpu.cp0.halt = true;
        },
        _ => {},
    }
}

impl Cpu {
    /// Answers a `syscall`: tells which service the program asks for, and lets the core
    /// go on as it does once the service has been performed. It is for the host to
    /// perform the service.
    pub fn do_syscall(&mut self, mem: &Memory) -> (service: Service)
        ensures
            service@ == spec_requested(old(self)@, mem@),
            final(self)@ == spec_completed(old(self)@, service@),
    {
        let service = requested(self, mem);
        completed(self, &service);
        service
    }
}

} // verus!
