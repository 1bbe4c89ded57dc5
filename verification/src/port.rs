//! The raw-frame boundary between the master core and a platform MAC.
use vstd::prelude::*;
use crate::dma::DmaTxHandle;
use crate::wire::MAX_ETHERNET_FRAME_LEN;

verus! {

#[derive(Clone, Copy, Debug, PartialEq, Eq, Structural)]
pub enum LinkState {
    Down,
    Up,
}

#[derive(Clone, Copy, Debug, PartialEq, Eq, Structural)]
pub enum RxPoll {
    Empty,
    Frame(usize),
    LinkDown,
}

#[derive(Clone, Copy, Debug, PartialEq, Eq, Structural)]
pub enum PortError {
    BufferTooSmall,
    TxUnavailable,
    RxUnavailable,
    LinkDown,
    HardwareFault,
}

/// Minimal raw-frame boundary. Implementations may wrap DMA descriptors, a
/// host packet socket or a vendor MAC without exposing it to the core.
pub trait EthercatPort {
    type Error;

    /// Whether the port states the link it reports; a port that does gives
    /// that state as `spec_link_state`.
    open spec fn states_link(&self) -> bool {
        false
    }

    /// The link state `link_state` reports, when `states_link`.
    open spec fn spec_link_state(&self) -> LinkState {
        LinkState::Up
    }

    fn link_state(&self) -> (link: LinkState)
        ensures
            self.states_link() ==> link == self.spec_link_state(),
    ;

    /// Whether the port keeps a log of its traffic; a port that does gives
    /// its clock as `spec_now`, records every submitted frame in `submitted`
    /// and every poll in `polled`.
    open spec fn logs_io(&self) -> bool {
        false
    }

    /// The time `now_ns` reports, when `logs_io`.
    open spec fn spec_now(&self) -> u64 {
        0
    }

    /// The frames submitted so far, oldest first, when `logs_io`.
    open spec fn submitted(&self) -> Seq<Seq<u8>> {
        Seq::empty()
    }

    /// The polls so far, oldest first, when `logs_io`.
    open spec fn polled(&self) -> Seq<PortPoll> {
        Seq::empty()
    }

    fn now_ns(&self) -> (now: u64)
        ensures
            self.logs_io() ==> now == self.spec_now(),
    ;

    /// Submit one fully built Ethernet frame; the bytes are consumed before
    /// the call returns.
    fn tx_submit(&mut self, frame: &[u8]) -> (result: Result<(), Self::Error>)
        ensures
            old(self).logs_io() ==> final(self).logs_io() && final(self).submitted() == old(self).submitted().push(
                frame@,
            ) && final(self).polled() == old(self).polled(),
    ;

    /// Poll one received frame into caller storage without blocking.
    fn rx_poll(&mut self, destination: &mut [u8; MAX_ETHERNET_FRAME_LEN]) -> (result: Result<RxPoll, Self::Error>)
        ensures
            old(self).logs_io() ==> final(self).logs_io() && final(self).submitted() == old(self).submitted()
                && final(self).polled() == old(self).polled().push(
                poll_record(result, final(destination)@, final(self).spec_now()),
            ),
    ;
}

/// One poll as a logging port records it, with the port's clock right
/// after it: a frame of `length` bytes with the caller storage as the poll
/// left it, an empty poll, a lost link, or a failed poll.
pub enum PortPoll {
    Frame { length: usize, storage: Seq<u8>, now_ns: u64 },
    Empty { now_ns: u64 },
    LinkDown { now_ns: u64 },
    Failed { now_ns: u64 },
}

/// The record of a poll that returned `result` and left `storage`.
pub open spec fn poll_record<E>(result: Result<RxPoll, E>, storage: Seq<u8>, now_ns: u64) -> PortPoll {
    match result {
        Ok(RxPoll::Frame(length)) => PortPoll::Frame { length, storage, now_ns },
        Ok(RxPoll::Empty) => PortPoll::Empty { now_ns },
        Ok(RxPoll::LinkDown) => PortPoll::LinkDown { now_ns },
        Err(_) => PortPoll::Failed { now_ns },
    }
}

/// TX-only port boundary for the DMA hot path. An error means the port did
/// not hand the descriptor to hardware.
pub trait EthercatDmaTxPort {
    type Error;

    /// Whether the port keeps a log of the descriptors handed to it; a port
    /// that does records every submission in `dma_submitted`.
    open spec fn logs_submissions(&self) -> bool {
        false
    }

    /// The descriptors submitted so far with their frame bytes, oldest
    /// first, when `logs_submissions`.
    open spec fn dma_submitted(&self) -> Seq<(DmaTxHandle, Seq<u8>)> {
        Seq::empty()
    }

    fn tx_submit(&mut self, handle: DmaTxHandle, frame: &[u8]) -> (result: Result<(), Self::Error>)
        ensures
            old(self).logs_submissions() ==> final(self).logs_submissions() && final(self).dma_submitted() == old(
                self,
            ).dma_submitted().push((handle, frame@)),
    ;
}

} // verus!
