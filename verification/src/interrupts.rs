//! The trap dispatch table: which exceptions have a handler, the one-time
//! installation of the table, and what each handler reports and decides.

use vstd::prelude::*;

verus! {

/// Vector number of the breakpoint exception.
pub const BREAKPOINT_VECTOR: u8 = 3;

/// Vector number of the double-fault exception.
pub const DOUBLE_FAULT_VECTOR: u8 = 8;

/// Vector number of the page-fault exception.
pub const PAGE_FAULT_VECTOR: u8 = 14;

/// Number of stacks in the interrupt stack table: valid indices are 0 to 6.
pub const STACK_TABLE_ENTRIES: u16 = 7;

/// Bit of a page-fault error code: the page was in use and the access broke
/// its protection. Clear where the page was not in use.
pub const PROTECTION_VIOLATION: u64 = 0x1;

/// Bit of a page-fault error code: the access was a write.
pub const CAUSED_BY_WRITE: u64 = 0x2;

/// Bit of a page-fault error code: the access came from user mode.
pub const USER_MODE: u64 = 0x4;

/// The exceptions that the kernel handles.
#[derive(Clone, Copy, Debug, PartialEq, Eq, Structural)]
pub enum ExceptionKind {
    Breakpoint,
    DoubleFault,
    PageFault,
}

impl ExceptionKind {
    /// Whether the interrupted code goes on after the handler: only after a
    /// breakpoint.
    pub open spec fn resumes(self) -> bool {
        self == ExceptionKind::Breakpoint
    }

    /// The vector through which the CPU raises the exception.
    pub fn vector(self) -> (vector: u8)
        ensures
            vector == match self {
                ExceptionKind::Breakpoint => BREAKPOINT_VECTOR,
                ExceptionKind::DoubleFault => DOUBLE_FAULT_VECTOR,
                ExceptionKind::PageFault => PAGE_FAULT_VECTOR,
            },
    {
        match self {
            ExceptionKind::Breakpoint => BREAKPOINT_VECTOR,
            ExceptionKind::DoubleFault => DOUBLE_FAULT_VECTOR,
            ExceptionKind::PageFault => PAGE_FAULT_VECTOR,
        }
    }

    /// The first line of the handler's report.
    pub fn headline(self) -> (text: &'static str)
        ensures
            text@ == match self {
                ExceptionKind::Breakpoint => "EXCEPTION: BREAKPOINT"@,
                ExceptionKind::DoubleFault => "EXCEPTION: DOUBLE FAULT"@,
                ExceptionKind::PageFault => "EXCEPTION: PAGE FAULT"@,
            },
    {
        match self {
            ExceptionKind::Breakpoint => "EXCEPTION: BREAKPOINT",
            ExceptionKind::DoubleFault => "EXCEPTION: DOUBLE FAULT",
            ExceptionKind::PageFault => "EXCEPTION: PAGE FAULT",
        }
    }
}

/// One entry of the table that is in use: the handler that runs, and the
/// stack of the interrupt stack table that the CPU switches to first, if any.
#[derive(Clone, Copy, Debug, PartialEq, Eq)]
pub struct Gate {
    pub handler: ExceptionKind,
    pub stack_index: Option<u16>,
}

/// The trap dispatch table, as far as the kernel fills it. Every other vector
/// keeps the CPU's default behaviour.
#[derive(Clone, Copy, Debug, PartialEq, Eq)]
pub struct InterruptDescriptorTable {
    pub breakpoint: Option<Gate>,
    pub double_fault: Option<Gate>,
    pub page_fault: Option<Gate>,
}

impl InterruptDescriptorTable {
    /// The entry for `vector`, if the table has one.
    pub open spec fn gate(self, vector: u8) -> Option<Gate> {
        if vector == BREAKPOINT_VECTOR {
            self.breakpoint
        } else if vector == DOUBLE_FAULT_VECTOR {
            self.double_fault
        } else if vector == PAGE_FAULT_VECTOR {
            self.page_fault
        } else {
            None
        }
    }

    /// A table without any handler.
    pub fn new() -> (table: InterruptDescriptorTable)
        ensures
            forall|vector: u8| table.gate(vector) is None,
    {
        InterruptDescriptorTable { breakpoint: None, double_fault: None, page_fault: None }
    }

    /// The entry for `vector`, if the table has one.
    pub fn entry(&self, vector: u8) -> (gate: Option<Gate>)
        ensures
            gate == self.gate(vector),
    {
        if vector == BREAKPOINT_VECTOR {
            self.breakpoint
        } else if vector == DOUBLE_FAULT_VECTOR {
            self.double_fault
        } else if vector == PAGE_FAULT_VECTOR {
            self.page_fault
        } else {
            None
        }
    }
}

/// The table that the kernel installs: handlers for breakpoint, double fault
/// and page fault, the one for the double fault on a stack of its own.
pub open spec fn kernel_table(double_fault_stack_index: u16) -> InterruptDescriptorTable {
    InterruptDescriptorTable {
        breakpoint: Some(Gate { handler: ExceptionKind::Breakpoint, stack_index: None }),
        double_fault: Some(
            Gate {
                handler: ExceptionKind::DoubleFault,
                stack_index: Some(double_fault_stack_index),
            },
        ),
        page_fault: Some(Gate { handler: ExceptionKind::PageFault, stack_index: None }),
    }
}

/// Whether the trap dispatch table has been handed to the CPU.
#[derive(Clone, Copy, Debug, PartialEq, Eq)]
pub enum TrapState {
    Uninstalled,
    Installed(InterruptDescriptorTable),
}

/// The table was installed before; it is installed once.
#[derive(Clone, Copy, Debug, PartialEq, Eq, Structural)]
pub struct AlreadyInstalled;

/// Builds the kernel's table and records it as installed. The caller loads
/// the returned table into the CPU. A second call changes nothing and fails.
pub fn init_idt(state: &mut TrapState, double_fault_stack_index: u16) -> (result: Result<
    InterruptDescriptorTable,
    AlreadyInstalled,
>)
    requires
        double_fault_stack_index < STACK_TABLE_ENTRIES,
    ensures
        match *old(state) {
            TrapState::Uninstalled => result == Ok::<InterruptDescriptorTable, AlreadyInstalled>(
                kernel_table(double_fault_stack_index),
            ) && *final(state) == TrapState::Installed(kernel_table(double_fault_stack_index)),
            TrapState::Installed(_) => result is Err && *final(state) == *old(state),
        },
{
    match state {
        TrapState::Installed(_) => Err(AlreadyInstalled),
        TrapState::Uninstalled => {
            let mut table = InterruptDescriptorTable::new();
            table.breakpoint = Some(Gate { handler: ExceptionKind::Breakpoint, stack_index: None });
            table.double_fault = Some(
                Gate {
                    handler: ExceptionKind::DoubleFault,
                    stack_index: Some(double_fault_stack_index),
                },
            );
            table.page_fault = Some(Gate { handler: ExceptionKind::PageFault, stack_index: None });
            *state = TrapState::Installed(table);
            Ok(table)
        },
    }
}

/// What the CPU saved when it interrupted the running code.
#[derive(Clone, Copy, Debug, PartialEq, Eq, Structural)]
pub struct InterruptStackFrame {
    /// Where execution goes on if the handler returns.
    pub instruction_pointer: u64,
    pub code_segment: u64,
    pub cpu_flags: u64,
    pub stack_pointer: u64,
    pub stack_segment: u64,
}

/// What a handler knows beyond the interrupted state.
#[derive(Clone, Copy, Debug, PartialEq, Eq, Structural)]
pub enum Detail {
    Nothing,
    /// The error code that the CPU pushed.
    ErrorCode(u64),
    /// The address whose access faulted, the error code, and what the code
    /// says of the access.
    PageFault {
        accessed_address: u64,
        error_code: u64,
        protection_violation: bool,
        caused_by_write: bool,
        user_mode: bool,
    },
}

/// What happens once the handler has reported.
#[derive(Clone, Copy, Debug, PartialEq, Eq, Structural)]
pub enum Disposition {
    /// The interrupted code goes on at this address.
    Resume(u64),
    /// The CPU halts for good.
    Halt,
}

/// What a handler reports and decides.
#[derive(Clone, Copy, Debug, PartialEq, Eq, Structural)]
pub struct Diagnosis {
    pub kind: ExceptionKind,
    pub stack_frame: InterruptStackFrame,
    pub detail: Detail,
    pub disposition: Disposition,
}

/// The breakpoint handler: reports the interrupted state and lets the code go
/// on where the CPU says, which is behind the breakpoint instruction.
pub fn breakpoint_handler(stack_frame: InterruptStackFrame) -> (diagnosis: Diagnosis)
    ensures
        diagnosis == (Diagnosis {
            kind: ExceptionKind::Breakpoint,
            stack_frame,
            detail: Detail::Nothing,
            disposition: Disposition::Resume(stack_frame.instruction_pointer),
        }),
        diagnosis.kind.resumes(),
{
    Diagnosis {
        kind: ExceptionKind::Breakpoint,
        stack_frame,
        detail: Detail::Nothing,
        disposition: Disposition::Resume(stack_frame.instruction_pointer),
    }
}

/// The double-fault handler: reports the interrupted state and halts.
pub fn double_fault_handler(stack_frame: InterruptStackFrame, error_code: u64) -> (diagnosis:
    Diagnosis)
    ensures
        diagnosis == (Diagnosis {
            kind: ExceptionKind::DoubleFault,
            stack_frame,
            detail: Detail::ErrorCode(error_code),
            disposition: Disposition::Halt,
        }),
        !diagnosis.kind.resumes(),
{
    Diagnosis {
        kind: ExceptionKind::DoubleFault,
        stack_frame,
        detail: Detail::ErrorCode(error_code),
        disposition: Disposition::Halt,
    }
}

/// The page-fault handler: reports the address whose access faulted, what
/// the error code says of the access, and the interrupted state, and halts.
pub fn page_fault_handler(
    stack_frame: InterruptStackFrame,
    error_code: u64,
    accessed_address: u64,
) -> (diagnosis: Diagnosis)
    ensures
        diagnosis == (Diagnosis {
            kind: ExceptionKind::PageFault,
            stack_frame,
            detail: Detail::PageFault {
                accessed_address,
                error_code,
                protection_violation: error_code & PROTECTION_VIOLATION != 0,
                caused_by_write: error_code & CAUSED_BY_WRITE != 0,
                user_mode: error_code & USER_MODE != 0,
            },
            disposition: Disposition::Halt,
        }),
        !diagnosis.kind.resumes(),
{
    Diagnosis {
        kind: ExceptionKind::PageFault,
        stack_frame,
        detail: Detail::PageFault {
            accessed_address,
            error_code,
            protection_violation: error_code & PROTECTION_VIOLATION != 0,
            caused_by_write: error_code & CAUSED_BY_WRITE != 0,
            user_mode: error_code & USER_MODE != 0,
        },
        disposition: Disposition::Halt,
    }
}

} // verus!
