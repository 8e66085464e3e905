//! Working-directory recovery by native memory introspection, modelled as a
//! step machine.
//!
//! Reading another process's current directory takes a fixed chain of reads
//! of that process's address space: query the control-block address, read
//! the startup-parameters pointer at a fixed offset inside the control
//! block, read the length field and then the buffer pointer of the
//! length-prefixed wide-character string describing the current directory,
//! and finally read exactly `length` bytes of string data. The offsets are
//! a versioned constant table for one architecture/OS-version family, not a
//! computed layout; an OS update that changes the layout breaks this path,
//! and every reader must treat that as "unknown", never as fatal.
//!
//! The machine below makes those decisions. The caller performs each
//! [`CwdAction`] against the live process and feeds the outcome back as a
//! [`CwdEvent`]; a failed or malformed outcome at any step drives the
//! machine to `Finished { cwd: None }`, so one broken process never aborts
//! a batch. The byte count of the final read always equals the length field
//! read earlier, which keeps every buffer bounds-checked by construction.

use vstd::bytes::{spec_u16_from_le_bytes, spec_u64_from_le_bytes, u16_from_le_bytes, u64_from_le_bytes};
use vstd::prelude::*;

verus! {

/// Offset of the startup-parameters pointer inside the control block.
pub const CONTROL_BLOCK_PARAMS_OFFSET: u64 = 0x20;

/// Offset of the current-directory string descriptor inside the startup
/// parameters: a 16-bit length, a 16-bit capacity, padding, then the buffer
/// pointer.
pub const PARAMS_CURRENT_DIRECTORY_OFFSET: u64 = 0x38;

/// Offset of the buffer pointer inside the string descriptor.
pub const DESCRIPTOR_BUFFER_OFFSET: u64 = 8;

/// Where the resolver stands for one process.
pub enum CwdState {
    /// Waiting for the address of the process's control block.
    AwaitControlBlock,
    /// Waiting for the startup-parameters pointer read from the control block.
    AwaitParamsPointer,
    /// Waiting for the length field of the current-directory descriptor.
    AwaitLength { params: u64 },
    /// Waiting for the buffer pointer of the current-directory descriptor.
    AwaitBufferPointer { params: u64, length: u16 },
    /// Waiting for the wide-character string data itself.
    AwaitPath { length: u16 },
    /// The resolution ended, successfully or not.
    Finished { cwd: Option<String> },
}

/// Outcome of the action the caller performed, `None` on any failure.
pub enum CwdEvent {
    /// The control-block address from the basic-information query.
    ControlBlock(Option<u64>),
    /// Raw bytes read from the target process's memory.
    Bytes(Option<Vec<u8>>),
    /// The decoded wide-character string data of the final read.
    PathText(Option<String>),
}

/// What the caller must do next.
pub enum CwdAction {
    /// Query the process's basic information for its control-block address.
    QueryControlBlock,
    /// Read `size` bytes at `address` in the target's address space.
    ReadMemory { address: u64, size: u64 },
    /// Read `length_bytes` bytes at `address` and decode them as UTF-16.
    ReadPath { address: u64, length_bytes: u16 },
    /// Resolution is over; release the process handle.
    Stop,
}

/// A recovered directory with one trailing path separator stripped — but
/// never the separator of a bare drive root.
pub open spec fn spec_normalize_cwd(p: Seq<char>) -> Seq<char> {
    if p.len() > 0 && p[p.len() - 1] == '\\' && !(p.len() >= 2 && p[p.len() - 2] == ':') {
        p.subrange(0, p.len() - 1)
    } else {
        p
    }
}

/// Executable counterpart of [`spec_normalize_cwd`].
pub fn normalize_cwd(p: String) -> (r: String)
    ensures
        r@ == spec_normalize_cwd(p@),
{
    let n = p.as_str().unicode_len();
    if n == 0 {
        return p;
    }
    if p.as_str().get_char(n - 1) != '\\' {
        return p;
    }
    if n >= 2 && p.as_str().get_char(n - 2) == ':' {
        return p;
    }
    p.as_str().substring_char(0, n - 1).to_owned()
}

/// Whether the event cannot carry the awaiting state one step further: a
/// failed query or read, a read of the wrong width, a null address or
/// pointer, a zero-length directory string, or an address so high that the
/// fixed offset would wrap.
pub open spec fn spec_event_fails(state: CwdState, event: CwdEvent) -> bool {
    match state {
        CwdState::AwaitControlBlock => match event {
            CwdEvent::ControlBlock(Some(a)) => a == 0 || a > u64::MAX - CONTROL_BLOCK_PARAMS_OFFSET,
            _ => true,
        },
        CwdState::AwaitParamsPointer => match event {
            CwdEvent::Bytes(Some(b)) => b@.len() != 8 || spec_u64_from_le_bytes(b@) == 0
                || spec_u64_from_le_bytes(b@) > u64::MAX - PARAMS_CURRENT_DIRECTORY_OFFSET
                - DESCRIPTOR_BUFFER_OFFSET,
            _ => true,
        },
        CwdState::AwaitLength { params } => match event {
            CwdEvent::Bytes(Some(b)) => b@.len() != 2 || spec_u16_from_le_bytes(b@) == 0
                || params > u64::MAX - PARAMS_CURRENT_DIRECTORY_OFFSET - DESCRIPTOR_BUFFER_OFFSET,
            _ => true,
        },
        CwdState::AwaitBufferPointer { params, length } => match event {
            CwdEvent::Bytes(Some(b)) => b@.len() != 8 || spec_u64_from_le_bytes(b@) == 0,
            _ => true,
        },
        CwdState::AwaitPath { length } => match event {
            CwdEvent::PathText(Some(_)) => false,
            _ => true,
        },
        CwdState::Finished { cwd } => false,
    }
}

/// Start resolving one process: no memory has been touched yet and the
/// first step is the basic-information query.
pub fn cwd_start() -> (r: (CwdState, CwdAction))
    ensures
        r.0 is AwaitControlBlock,
        r.1 is QueryControlBlock,
{
    (CwdState::AwaitControlBlock, CwdAction::QueryControlBlock)
}

/// Advance the resolver by one observed event.
///
/// A failing event at any step finishes with no directory — the batch goes
/// on and the caller releases the handle. On the successful path each
/// clause pins the next address read, and the final data read requests
/// exactly the number of bytes announced by the length field.
pub fn cwd_step(state: CwdState, event: CwdEvent) -> (r: (CwdState, CwdAction))
    ensures
        spec_event_fails(state, event) ==> ({
            &&& r.0 matches (CwdState::Finished { cwd: None })
            &&& r.1 is Stop
        }),
        (state is AwaitControlBlock && !spec_event_fails(state, event)) ==> ({
            &&& event matches CwdEvent::ControlBlock(Some(a)) ==> ({
                &&& r.0 is AwaitParamsPointer
                &&& r.1 == (CwdAction::ReadMemory {
                    address: (a + CONTROL_BLOCK_PARAMS_OFFSET) as u64,
                    size: 8u64,
                })
            })
            &&& event matches CwdEvent::ControlBlock(Some(_))
        }),
        (state is AwaitParamsPointer && !spec_event_fails(state, event)) ==> ({
            &&& event matches CwdEvent::Bytes(Some(b)) ==> ({
                &&& r.0 matches (CwdState::AwaitLength { params }) && params
                    == spec_u64_from_le_bytes(b@)
                &&& r.1 == (CwdAction::ReadMemory {
                    address: (spec_u64_from_le_bytes(b@) + PARAMS_CURRENT_DIRECTORY_OFFSET) as u64,
                    size: 2u64,
                })
            })
            &&& event matches CwdEvent::Bytes(Some(_))
        }),
        state matches (CwdState::AwaitLength { params }) ==> (!spec_event_fails(state, event)
            ==> ({
            &&& event matches CwdEvent::Bytes(Some(b)) ==> ({
                &&& r.0 matches (CwdState::AwaitBufferPointer { params: p2, length }) && p2
                    == params && length == spec_u16_from_le_bytes(b@)
                &&& r.1 == (CwdAction::ReadMemory {
                    address: (params + PARAMS_CURRENT_DIRECTORY_OFFSET
                        + DESCRIPTOR_BUFFER_OFFSET) as u64,
                    size: 8u64,
                })
            })
            &&& event matches CwdEvent::Bytes(Some(_))
        })),
        state matches (CwdState::AwaitBufferPointer { params, length }) ==> (!spec_event_fails(
            state,
            event,
        ) ==> ({
            &&& event matches CwdEvent::Bytes(Some(b)) ==> ({
                &&& r.0 matches (CwdState::AwaitPath { length: l2 }) && l2 == length
                &&& r.1 == (CwdAction::ReadPath {
                    address: spec_u64_from_le_bytes(b@),
                    length_bytes: length,
                })
            })
            &&& event matches CwdEvent::Bytes(Some(_))
        })),
        (state is AwaitPath && !spec_event_fails(state, event)) ==> ({
            &&& event matches CwdEvent::PathText(Some(s)) ==> ({
                &&& r.0 matches (CwdState::Finished { cwd: Some(c) }) && c@ == spec_normalize_cwd(
                    s@,
                )
                &&& r.1 is Stop
            })
            &&& event matches CwdEvent::PathText(Some(_))
        }),
        state matches (CwdState::Finished { cwd }) ==> ({
            &&& r.0 matches (CwdState::Finished { cwd: c2 }) && c2.deep_view() == cwd.deep_view()
            &&& r.1 is Stop
        }),
{
    match state {
        CwdState::AwaitControlBlock => {
            match event {
                CwdEvent::ControlBlock(Some(a)) => {
                    if a != 0 && a <= u64::MAX - CONTROL_BLOCK_PARAMS_OFFSET {
                        (
                            CwdState::AwaitParamsPointer,
                            CwdAction::ReadMemory {
                                address: a + CONTROL_BLOCK_PARAMS_OFFSET,
                                size: 8,
                            },
                        )
                    } else {
                        (CwdState::Finished { cwd: None }, CwdAction::Stop)
                    }
                },
                _ => (CwdState::Finished { cwd: None }, CwdAction::Stop),
            }
        },
        CwdState::AwaitParamsPointer => {
            match event {
                CwdEvent::Bytes(Some(b)) => {
                    if b.len() == 8 {
                        let p = u64_from_le_bytes(b.as_slice());
                        if p != 0 && p <= u64::MAX - PARAMS_CURRENT_DIRECTORY_OFFSET
                            - DESCRIPTOR_BUFFER_OFFSET {
                            (
                                CwdState::AwaitLength { params: p },
                                CwdAction::ReadMemory {
                                    address: p + PARAMS_CURRENT_DIRECTORY_OFFSET,
                                    size: 2,
                                },
                            )
                        } else {
                            (CwdState::Finished { cwd: None }, CwdAction::Stop)
                        }
                    } else {
                        (CwdState::Finished { cwd: None }, CwdAction::Stop)
                    }
                },
                _ => (CwdState::Finished { cwd: None }, CwdAction::Stop),
            }
        },
        CwdState::AwaitLength { params } => {
            match event {
                CwdEvent::Bytes(Some(b)) => {
                    if b.len() == 2 && params <= u64::MAX - PARAMS_CURRENT_DIRECTORY_OFFSET
                        - DESCRIPTOR_BUFFER_OFFSET {
                        let l = u16_from_le_bytes(b.as_slice());
                        if l != 0 {
                            (
                                CwdState::AwaitBufferPointer { params, length: l },
                                CwdAction::ReadMemory {
                                    address: params + PARAMS_CURRENT_DIRECTORY_OFFSET
                                        + DESCRIPTOR_BUFFER_OFFSET,
                                    size: 8,
                                },
                            )
                        } else {
                            (CwdState::Finished { cwd: None }, CwdAction::Stop)
                        }
                    } else {
                        (CwdState::Finished { cwd: None }, CwdAction::Stop)
                    }
                },
                _ => (CwdState::Finished { cwd: None }, CwdAction::Stop),
            }
        },
        CwdState::AwaitBufferPointer { params, length } => {
            match event {
                CwdEvent::Bytes(Some(b)) => {
                    if b.len() == 8 {
                        let q = u64_from_le_bytes(b.as_slice());
                        if q != 0 {
                            (
                                CwdState::AwaitPath { length },
                                CwdAction::ReadPath { address: q, length_bytes: length },
                            )
                        } else {
                            (CwdState::Finished { cwd: None }, CwdAction::Stop)
                        }
                    } else {
                        (CwdState::Finished { cwd: None }, CwdAction::Stop)
                    }
                },
                _ => (CwdState::Finished { cwd: None }, CwdAction::Stop),
            }
        },
        CwdState::AwaitPath { length } => {
            match event {
                CwdEvent::PathText(Some(s)) => {
                    (CwdState::Finished { cwd: Some(normalize_cwd(s)) }, CwdAction::Stop)
                },
                _ => (CwdState::Finished { cwd: None }, CwdAction::Stop),
            }
        },
        CwdState::Finished { cwd } => (CwdState::Finished { cwd }, CwdAction::Stop),
    }
}

} // verus!
