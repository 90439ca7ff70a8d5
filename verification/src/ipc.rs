//! The interrupt bridge: bookkeeping for the inter-processor-communication
//! peripheral that signals between the host core and the modem core.
//!
//! On each IPC interrupt the hardware presents a bitmask of pending
//! events.  The service routine must clear every asserted event -- lowest
//! bit first -- and then invoke the registered handler exactly once with
//! the full mask.  The decisions of that routine live here, verified:
//! which event registers to clear and in what order
//! ([`pending_event_indices`]), and the single registered handler slot
//! that each registration overwrites ([`IpcBridge`]).  The register
//! writes themselves and the call through the raw handler address are the
//! hosting program's side of the bargain.

use vstd::prelude::*;

verus! {

/// Number of channel configurations in an [`NrfxIpcConfig`].
pub const IPC_CONF_NUM: usize = 8;

/// Configuration for the IPC peripheral: the connection of signals and
/// events to IPC channels, and which events raise interrupts.
#[derive(Debug, Clone, PartialEq, Eq)]
pub struct NrfxIpcConfig {
    /// Configuration of the connection between signals and IPC channels.
    pub send_task_config: [u32; 8],
    /// Configuration of the connection between events and IPC channels.
    pub receive_event_config: [u32; 8],
    /// Bitmask of events enabled to generate an interrupt.
    pub receive_events_enabled: u32,
}

/// IPC error codes, as the peripheral driver interface defines them.
#[derive(Debug, Copy, Clone, PartialEq, Eq)]
pub enum NrfxErr {
    /// Operation performed successfully.
    Success,
    /// Internal error.
    ErrorInternal,
    /// No memory for operation.
    ErrorNoMem,
    /// Not supported.
    ErrorNotSupported,
    /// Invalid parameter.
    ErrorInvalidParam,
    /// Invalid state, operation disallowed in this state.
    ErrorInvalidState,
    /// Invalid length.
    ErrorInvalidLength,
    /// Operation timed out.
    ErrorTimeout,
    /// Operation is forbidden.
    ErrorForbidden,
    /// Null pointer.
    ErrorNull,
    /// Bad memory address.
    ErrorInvalidAddr,
    /// Busy.
    ErrorBusy,
    /// Module already initialized.
    ErrorAlreadyInitialized,
}

/// The numeric code of each IPC error: a fixed base with the error's
/// ordinal added.
pub open spec fn spec_nrfx_err_code(e: NrfxErr) -> u32 {
    match e {
        NrfxErr::Success => 0x0BAD0000,
        NrfxErr::ErrorInternal => 0x0BAD0001,
        NrfxErr::ErrorNoMem => 0x0BAD0002,
        NrfxErr::ErrorNotSupported => 0x0BAD0003,
        NrfxErr::ErrorInvalidParam => 0x0BAD0004,
        NrfxErr::ErrorInvalidState => 0x0BAD0005,
        NrfxErr::ErrorInvalidLength => 0x0BAD0006,
        NrfxErr::ErrorTimeout => 0x0BAD0007,
        NrfxErr::ErrorForbidden => 0x0BAD0008,
        NrfxErr::ErrorNull => 0x0BAD0009,
        NrfxErr::ErrorInvalidAddr => 0x0BAD000A,
        NrfxErr::ErrorBusy => 0x0BAD000B,
        NrfxErr::ErrorAlreadyInitialized => 0x0BAD000C,
    }
}

impl NrfxErr {
    /// The numeric code of this error.
    pub fn code(self) -> (r: u32)
        ensures
            r == spec_nrfx_err_code(self),
    {
        match self {
            NrfxErr::Success => 0x0BAD0000,
            NrfxErr::ErrorInternal => 0x0BAD0001,
            NrfxErr::ErrorNoMem => 0x0BAD0002,
            NrfxErr::ErrorNotSupported => 0x0BAD0003,
            NrfxErr::ErrorInvalidParam => 0x0BAD0004,
            NrfxErr::ErrorInvalidState => 0x0BAD0005,
            NrfxErr::ErrorInvalidLength => 0x0BAD0006,
            NrfxErr::ErrorTimeout => 0x0BAD0007,
            NrfxErr::ErrorForbidden => 0x0BAD0008,
            NrfxErr::ErrorNull => 0x0BAD0009,
            NrfxErr::ErrorInvalidAddr => 0x0BAD000A,
            NrfxErr::ErrorBusy => 0x0BAD000B,
            NrfxErr::ErrorAlreadyInitialized => 0x0BAD000C,
        }
    }
}

/// The single registered handler slot of the interrupt bridge: the
/// address of the handler function and the context word handed back to
/// it.  Registration overwrites; nothing is queued.
#[derive(Debug, Clone, Copy, PartialEq, Eq)]
pub struct IpcBridge {
    handler_addr: usize,
    context: usize,
    registered: bool,
}

impl IpcBridge {
    /// The registered handler address.
    pub closed spec fn spec_handler_addr(self) -> usize {
        self.handler_addr
    }

    /// The registered context word.
    pub closed spec fn spec_context(self) -> usize {
        self.context
    }

    /// Whether a handler has been registered.
    pub closed spec fn spec_registered(self) -> bool {
        self.registered
    }

    /// A bridge with no handler registered.  An interrupt arriving in
    /// this state is a start-up ordering violation the firmware must
    /// avoid, not something the bridge recovers from.
    pub fn new() -> (r: IpcBridge)
        ensures
            !r.spec_registered(),
            r.spec_handler_addr() == 0,
            r.spec_context() == 0,
    {
        IpcBridge { handler_addr: 0, context: 0, registered: false }
    }

    /// Register the handler and its context, overwriting any previous
    /// registration; always reports success.
    pub fn register(&mut self, handler_addr: usize, context: usize) -> (r: NrfxErr)
        ensures
            final(self).spec_registered(),
            final(self).spec_handler_addr() == handler_addr,
            final(self).spec_context() == context,
            r == NrfxErr::Success,
    {
        self.handler_addr = handler_addr;
        self.context = context;
        self.registered = true;
        NrfxErr::Success
    }

    /// The registered handler address.
    pub fn handler_addr(&self) -> (r: usize)
        ensures
            r == self.spec_handler_addr(),
    {
        self.handler_addr
    }

    /// The registered context word.
    pub fn context(&self) -> (r: usize)
        ensures
            r == self.spec_context(),
    {
        self.context
    }

    /// Whether a handler has been registered.
    pub fn is_registered(&self) -> (r: bool)
        ensures
            r == self.spec_registered(),
    {
        self.registered
    }
}

/// The event indices asserted in `events_map`, lowest first: exactly the
/// set bits of the mask, in increasing order.  The service routine clears
/// each listed event register and then delivers the whole mask to the
/// handler once.
pub fn pending_event_indices(events_map: u32) -> (r: Vec<u32>)
    ensures
        forall|i: int|
            0 <= i < r@.len() ==> #[trigger] r@[i] < 32 && (events_map >> r@[i]) & 1 == 1,
        forall|i: int, j: int| 0 <= i < j < r@.len() ==> r@[i] < r@[j],
        forall|b: u32| b < 32 && (events_map >> b) & 1 == 1 ==> r@.contains(b),
{
    let mut r: Vec<u32> = Vec::new();
    let mut bit: u32 = 0;
    while bit < 32
        invariant
            bit <= 32,
            forall|i: int|
                0 <= i < r@.len() ==> #[trigger] r@[i] < bit && (events_map >> r@[i]) & 1 == 1,
            forall|i: int, j: int| 0 <= i < j < r@.len() ==> r@[i] < r@[j],
            forall|b: u32| b < bit && (events_map >> b) & 1 == 1 ==> r@.contains(b),
        decreases 32 - bit,
    {
        if (events_map >> bit) & 1 == 1 {
            let ghost old_r = r@;
            r.push(bit);
            proof {
                assert forall|b: u32| b < bit + 1 && (events_map >> b) & 1 == 1 implies r@
                    .contains(b) by {
                    if b < bit {
                        assert(old_r.contains(b));
                        let i = choose|i: int| 0 <= i < old_r.len() && old_r[i] == b;
                        assert(r@[i] == old_r[i]);
                        assert(r@.contains(b));
                    } else {
                        assert(r@[r@.len() - 1] == bit);
                    }
                }
            }
        } else {
            proof {
                assert forall|b: u32| b < bit + 1 && (events_map >> b) & 1 == 1 implies r@
                    .contains(b) by {
                    if b < bit {
                        assert(r@.contains(b));
                    } else {
                        assert(b == bit);
                        assert(false);
                    }
                }
            }
        }
        bit = bit + 1;
    }
    r
}

} // verus!
