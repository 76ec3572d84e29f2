use vstd::prelude::*;
use vstd::string::StringExecFns;
use crate::text::{dec_digits, hex_text, push_dec, push_hex};
use riscv::interrupt::supervisor::{Exception, Interrupt};
use riscv::interrupt::Trap;
use riscv::register::scause::Scause;
use riscv::register::sstatus::{Sstatus, SPP};

verus! {

/// The registers saved when a user program traps into the kernel.
pub struct TrapContext {
    /// General registers `x0`..`x31`.
    pub x: [usize; 32],
    /// The raw bits of the supervisor status register.
    pub sstatus: usize,
    /// The address the program resumes at.
    pub sepc: usize,
}

/// The bits of the supervisor status register that the `riscv` crate keeps
/// (64-bit targets).
pub open spec fn sstatus_mask() -> usize {
    0x8000_0003_000d_e762u64 as usize
}

/// The bit of the previous privilege mode `SPP`.
pub open spec fn spp_bit() -> usize {
    0x100usize
}

/// Calls `Sstatus::set_spp(SPP::User)` on the status value `bits`: the value
/// keeps only the bits of the register's mask, and clears `SPP` so that
/// `sret` returns to user mode.
#[verifier::external_body]
fn sstatus_with_user_spp(bits: usize) -> (r: usize)
    ensures
        r & spp_bit() == 0,
        usize::BITS == 64 ==> r == bits & sstatus_mask() & !spp_bit(),
{
    let mut sstatus = Sstatus::from_bits(bits);
    sstatus.set_spp(SPP::User);
    sstatus.bits()
}

impl TrapContext {
    /// Sets the stack pointer `x2`.
    pub fn set_sp(&mut self, sp: usize)
        ensures
            final(self).x@ == old(self).x@.update(2, sp),
            final(self).sstatus == old(self).sstatus,
            final(self).sepc == old(self).sepc,
    {
        self.x[2] = sp;
    }

    /// The context a user program first runs with: every register zero but
    /// the stack pointer `sp`, the return address `entry`, and the status
    /// `sstatus` with the previous privilege set to user.
    pub fn app_init_context(entry: usize, sp: usize, sstatus: usize) -> (r: Self)
        ensures
            r.x@ == Seq::new(32, |i: int| 0usize).update(2, sp),
            r.sepc == entry,
            r.sstatus & spp_bit() == 0,
            usize::BITS == 64 ==> r.sstatus == sstatus & sstatus_mask() & !spp_bit(),
    {
        let user = sstatus_with_user_spp(sstatus);
        let mut cx = TrapContext { x: [0; 32], sstatus: user, sepc: entry };
        assert(cx.x@ =~= Seq::new(32, |i: int| 0usize));
        cx.set_sp(sp);
        cx
    }
}

/// Why the program trapped, as far as the kernel tells causes apart.
#[derive(Clone, Copy, Debug, PartialEq, Eq, Structural)]
pub enum TrapCause {
    /// An `ecall` from user mode: a system call.
    UserEnvCall,
    /// The supervisor timer fired.
    SupervisorTimer,
    /// A store access fault.
    StoreFault,
    /// A store page fault.
    StorePageFault,
    /// An illegal instruction.
    IllegalInstruction,
    /// Any other interrupt or exception, by its code.
    Other { interrupt: bool, code: usize },
}

/// The interrupt bit of a cause value (its top bit).
pub open spec fn cause_is_interrupt(bits: usize) -> bool {
    bits > usize::MAX / 2
}

/// The code of a cause value (all bits but the top one).
pub open spec fn cause_code(bits: usize) -> usize {
    if bits > usize::MAX / 2 {
        (bits - (usize::MAX / 2 + 1)) as usize
    } else {
        bits
    }
}

/// The cause that the `scause` value `bits` reports.
pub open spec fn trap_cause_of(bits: usize) -> TrapCause {
    let code = cause_code(bits);
    if cause_is_interrupt(bits) {
        if code == 5 {
            TrapCause::SupervisorTimer
        } else {
            TrapCause::Other { interrupt: true, code }
        }
    } else {
        if code == 8 {
            TrapCause::UserEnvCall
        } else if code == 7 {
            TrapCause::StoreFault
        } else if code == 15 {
            TrapCause::StorePageFault
        } else if code == 2 {
            TrapCause::IllegalInstruction
        } else {
            TrapCause::Other { interrupt: false, code }
        }
    }
}

/// Decodes the `scause` value `bits` with `Scause::cause` and the supervisor
/// interrupt and exception numbers of the `riscv` crate: the top bit tells
/// an interrupt from an exception, the other bits give the code.
#[verifier::external_body]
fn decode_scause(bits: usize) -> (r: TrapCause)
    ensures
        usize::BITS == 64 ==> r == trap_cause_of(bits),
{
    let raw = Scause::from_bits(bits).cause();
    match raw.try_into::<Interrupt, Exception>() {
        Ok(Trap::Interrupt(Interrupt::SupervisorTimer)) => TrapCause::SupervisorTimer,
        Ok(Trap::Exception(Exception::UserEnvCall)) => TrapCause::UserEnvCall,
        Ok(Trap::Exception(Exception::StoreFault)) => TrapCause::StoreFault,
        Ok(Trap::Exception(Exception::StorePageFault)) => TrapCause::StorePageFault,
        Ok(Trap::Exception(Exception::IllegalInstruction)) => TrapCause::IllegalInstruction,
        _ => match raw {
            Trap::Interrupt(code) => TrapCause::Other { interrupt: true, code },
            Trap::Exception(code) => TrapCause::Other { interrupt: false, code },
        },
    }
}

/// The cause of a trap, from the value of `scause`.
pub fn trap_cause(scause: usize) -> (r: TrapCause)
    ensures
        usize::BITS == 64 ==> r == trap_cause_of(scause),
{
    decode_scause(scause)
}

/// What the kernel does about a trap.
#[derive(Clone, Copy, Debug, PartialEq, Eq, Structural)]
pub enum TrapAction {
    /// Run system call `id` with arguments `a0`, `a1`, `a2`, then store its
    /// result in `a0`.
    Syscall { id: usize, a0: usize, a1: usize, a2: usize },
    /// Arm the next timer interrupt and switch to the next task.
    Preempt,
    /// Kill the program: it faulted on a store.
    KillPageFault,
    /// Kill the program: it ran an illegal instruction.
    KillIllegalInstruction,
    /// A trap the kernel does not handle: it stops with this cause and
    /// `stval`.
    Unsupported { cause: TrapCause, stval: usize },
}

/// The action for a trap of `cause`, taken in context `cx` (before the
/// context is changed).
pub open spec fn trap_action(cause: TrapCause, cx: TrapContext, stval: usize) -> TrapAction {
    match cause {
        TrapCause::UserEnvCall => TrapAction::Syscall {
            id: cx.x@[17],
            a0: cx.x@[10],
            a1: cx.x@[11],
            a2: cx.x@[12],
        },
        TrapCause::SupervisorTimer => TrapAction::Preempt,
        TrapCause::StoreFault => TrapAction::KillPageFault,
        TrapCause::StorePageFault => TrapAction::KillPageFault,
        TrapCause::IllegalInstruction => TrapAction::KillIllegalInstruction,
        TrapCause::Other { .. } => TrapAction::Unsupported { cause, stval },
    }
}

/// Decoding keeps the information of `scause`: the interrupt bit and the
/// code of the decoded cause are those of the value.
pub proof fn lemma_decoded_cause_keeps_bits(bits: usize)
    ensures
        cause_parts(trap_cause_of(bits)) == (cause_is_interrupt(bits), cause_code(bits)),
{
}

/// The kernel handles five causes and no other: a user `ecall` becomes a
/// system call, the timer a preemption, the two store faults and the
/// illegal instruction kill the program; every other cause, interrupt or
/// exception, stops the kernel with that cause and `stval`.
pub proof fn lemma_only_five_causes_handled(cause: TrapCause, cx: TrapContext, stval: usize)
    ensures
        cause is Other ==> trap_action(cause, cx, stval) == (TrapAction::Unsupported { cause, stval }),
        trap_action(cause, cx, stval) is KillPageFault <==> (cause is StoreFault || cause is StorePageFault),
        trap_action(cause, cx, stval) is KillIllegalInstruction <==> cause is IllegalInstruction,
        trap_action(cause, cx, stval) is Preempt <==> cause is SupervisorTimer,
        trap_action(cause, cx, stval) is Syscall <==> cause is UserEnvCall,
        trap_action(cause, cx, stval) is Unsupported <==> cause is Other,
{
}

/// Decides what to do about a trap of `cause` with fault value `stval`. A
/// system call resumes after the `ecall` instruction, so `sepc` moves on by
/// four; no other trap changes the context.
pub fn trap_handler(cx: &mut TrapContext, cause: TrapCause, stval: usize) -> (r: TrapAction)
    requires
        cause == TrapCause::UserEnvCall ==> old(cx).sepc + 4 <= usize::MAX,
    ensures
        r == trap_action(cause, *old(cx), stval),
        final(cx).x@ == old(cx).x@,
        final(cx).sstatus == old(cx).sstatus,
        final(cx).sepc == if cause == TrapCause::UserEnvCall {
            (old(cx).sepc + 4) as usize
        } else {
            old(cx).sepc
        },
{
    match cause {
        TrapCause::UserEnvCall => {
            cx.sepc = cx.sepc + 4;
            TrapAction::Syscall { id: cx.x[17], a0: cx.x[10], a1: cx.x[11], a2: cx.x[12] }
        },
        TrapCause::SupervisorTimer => TrapAction::Preempt,
        TrapCause::StoreFault => TrapAction::KillPageFault,
        TrapCause::StorePageFault => TrapAction::KillPageFault,
        TrapCause::IllegalInstruction => TrapAction::KillIllegalInstruction,
        TrapCause::Other { .. } => TrapAction::Unsupported { cause, stval },
    }
}

/// Whether a cause is an interrupt, and its code.
pub open spec fn cause_parts(cause: TrapCause) -> (bool, usize) {
    match cause {
        TrapCause::UserEnvCall => (false, 8),
        TrapCause::SupervisorTimer => (true, 5),
        TrapCause::StoreFault => (false, 7),
        TrapCause::StorePageFault => (false, 15),
        TrapCause::IllegalInstruction => (false, 2),
        TrapCause::Other { interrupt, code } => (interrupt, code),
    }
}

/// A cause as the `riscv` crate's raw `Trap` prints it with `{:?}`:
/// `Interrupt(code)` or `Exception(code)`, the code in decimal.
pub open spec fn cause_text(cause: TrapCause) -> Seq<char> {
    let (interrupt, code) = cause_parts(cause);
    (if interrupt { "Interrupt("@ } else { "Exception("@ }) + dec_digits(code as nat) + ")"@
}

/// What the kernel prints about a trap: the notice before it kills the
/// program, or the message of the panic for a trap it does not handle.
pub open spec fn trap_message(action: TrapAction) -> Option<Seq<char>> {
    match action {
        TrapAction::KillPageFault => Some("[kernel] PageFault in application, kernel killed it."@),
        TrapAction::KillIllegalInstruction => Some(
            "[kernel] IllegalInstruction in application, kernel killed it."@,
        ),
        TrapAction::Unsupported { cause, stval } => Some(
            "Unsupported trap "@ + cause_text(cause) + ", stval = "@ + hex_text(stval as nat) + "!"@,
        ),
        _ => None,
    }
}

/// The line the kernel prints for `action`: the notice for a killed
/// program, or the panic message for an unsupported trap; `None` for a
/// system call or a preemption.
pub fn trap_report(action: &TrapAction) -> (r: Option<String>)
    ensures
        r is None <==> trap_message(*action) is None,
        r matches Some(line) ==> trap_message(*action) == Some(line@),
{
    match action {
        TrapAction::KillPageFault => Some(String::from_str("[kernel] PageFault in application, kernel killed it.")),
        TrapAction::KillIllegalInstruction => Some(
            String::from_str("[kernel] IllegalInstruction in application, kernel killed it."),
        ),
        TrapAction::Unsupported { cause, stval } => {
            let (interrupt, code): (bool, usize) = match cause {
                TrapCause::UserEnvCall => (false, 8),
                TrapCause::SupervisorTimer => (true, 5),
                TrapCause::StoreFault => (false, 7),
                TrapCause::StorePageFault => (false, 15),
                TrapCause::IllegalInstruction => (false, 2),
                TrapCause::Other { interrupt, code } => (*interrupt, *code),
            };
            let mut line = String::from_str("Unsupported trap ");
            if interrupt {
                line.append("Interrupt(");
            } else {
                line.append("Exception(");
            }
            push_dec(&mut line, code);
            line.append(")");
            line.append(", stval = ");
            push_hex(&mut line, *stval);
            line.append("!");
            assert(line@ =~= trap_message(*action).unwrap());
            Some(line)
        },
        _ => None,
    }
}

/// Stores the result of a system call in `a0` (`x10`), as the program reads it.
pub fn complete_syscall(cx: &mut TrapContext, ret: isize)
    ensures
        final(cx).x@ == old(cx).x@.update(10, ret as usize),
        final(cx).sstatus == old(cx).sstatus,
        final(cx).sepc == old(cx).sepc,
{
    cx.x[10] = ret as usize;
}

} // verus!
