//! The decisions of the three workers of a scan. Each takes the lifecycle
//! flag, and what the device last reported, and says what to do next; the
//! caller does it, sleeps and talks to the device.
use crate::device::{DeviceStatus, DATA_READY};
use crate::lifecycle::ScanState;
use vstd::prelude::*;

verus! {

/// The most samples read from one channel in one batch.
pub const MAX_BATCH: u32 = 100000;

/// Milliseconds between two looks at the flag while the scan has not started.
pub const SPIN_WAIT_MS: u64 = 1;

/// Milliseconds between two payloads of the publisher.
pub const PUBLISH_INTERVAL_MS: u64 = 300;

/// The input range of both channels for a scan: ±10 V.
pub const SCAN_RANGE: u8 = 0;

/// Both channels at once.
pub const BOTH_CHANNELS: u8 = 2;

/// One step of the scan controller.
#[derive(Clone, Copy, Debug, PartialEq, Eq, Structural)]
pub enum ControllerAction {
    /// Set the input range of both channels.
    InputSet { id: i16, range1: u8, range2: u8 },
    /// Set the sampling clock period and source.
    SetClock { id: i16, period: i32, source: u8 },
    /// Start continuous acquisition.
    Start { id: i16, channels: u8, pretrigger: i32, trigger_type: u8, trigger_channel: u8 },
    /// Issue a software trigger.
    Trigger { id: i16 },
    /// Set the lifecycle flag.
    Announce { state: ScanState },
    /// Sleep for the scan's duration.
    Sleep { seconds: u64 },
    /// Stop acquisition.
    Stop { id: i16 },
}

/// The scan controller's steps, in order.
pub open spec fn plan_of(id: i16, clock: i32, seconds: u64) -> Seq<ControllerAction> {
    seq![
        ControllerAction::InputSet { id, range1: SCAN_RANGE, range2: SCAN_RANGE },
        ControllerAction::SetClock { id, period: clock, source: 0 },
        ControllerAction::Start {
            id,
            channels: BOTH_CHANNELS,
            pretrigger: 0,
            trigger_type: 0,
            trigger_channel: 0,
        },
        ControllerAction::Trigger { id },
        ControllerAction::Announce { state: ScanState::Running },
        ControllerAction::Sleep { seconds },
        ControllerAction::Stop { id },
        ControllerAction::Announce { state: ScanState::Finished },
    ]
}

/// What the scan controller does, in order: set both channels to ±10 V,
/// set the clock, start acquisition on both channels with no pre-trigger,
/// trigger, announce that the scan runs, sleep for `seconds`, stop the
/// device and announce that the scan is finished. A device error is
/// reported and the plan goes on.
pub fn scan_plan(id: i16, clock: i32, seconds: u64) -> (r: Vec<ControllerAction>)
    ensures
        r@ == plan_of(id, clock, seconds),
{
    let mut r: Vec<ControllerAction> = Vec::new();
    r.push(ControllerAction::InputSet { id, range1: SCAN_RANGE, range2: SCAN_RANGE });
    r.push(ControllerAction::SetClock { id, period: clock, source: 0 });
    r.push(
        ControllerAction::Start {
            id,
            channels: BOTH_CHANNELS,
            pretrigger: 0,
            trigger_type: 0,
            trigger_channel: 0,
        },
    );
    r.push(ControllerAction::Trigger { id });
    r.push(ControllerAction::Announce { state: ScanState::Running });
    r.push(ControllerAction::Sleep { seconds });
    r.push(ControllerAction::Stop { id });
    r.push(ControllerAction::Announce { state: ScanState::Finished });
    assert(r@ =~= plan_of(id, clock, seconds));
    r
}

/// The states that the plan announces, in order.
pub open spec fn announced(p: Seq<ControllerAction>) -> Seq<ScanState>
    decreases p.len(),
{
    if p.len() == 0 {
        Seq::empty()
    } else {
        let rest = announced(p.drop_last());
        match p.last() {
            ControllerAction::Announce { state } => rest.push(state),
            _ => rest,
        }
    }
}

/// The controller sets the flag to running and then to finished, and
/// nothing else; it sleeps only while the scan runs, and stops the device
/// before it announces the end.
pub proof fn lemma_plan_order(id: i16, clock: i32, seconds: u64)
    ensures
        announced(plan_of(id, clock, seconds)) == seq![ScanState::Running, ScanState::Finished],
        plan_of(id, clock, seconds)[4] == (ControllerAction::Announce { state: ScanState::Running }),
        plan_of(id, clock, seconds)[5] == (ControllerAction::Sleep { seconds }),
        plan_of(id, clock, seconds)[6] == (ControllerAction::Stop { id }),
        plan_of(id, clock, seconds)[7] == (ControllerAction::Announce { state: ScanState::Finished }),
{
    let p = plan_of(id, clock, seconds);
    assert(announced(p.take(0)) =~= Seq::<ScanState>::empty());
    lemma_announced_step(p, 0);
    lemma_announced_step(p, 1);
    lemma_announced_step(p, 2);
    lemma_announced_step(p, 3);
    assert(announced(p.take(4)) =~= Seq::<ScanState>::empty());
    lemma_announced_step(p, 4);
    lemma_announced_step(p, 5);
    lemma_announced_step(p, 6);
    lemma_announced_step(p, 7);
    assert(p.take(8) =~= p);
    assert(announced(p) =~= seq![ScanState::Running, ScanState::Finished]);
}

proof fn lemma_announced_step(p: Seq<ControllerAction>, k: int)
    requires
        0 <= k < p.len(),
    ensures
        announced(p.take(k + 1)) == match p[k] {
            ControllerAction::Announce { state } => announced(p.take(k)).push(state),
            _ => announced(p.take(k)),
        },
{
    assert(p.take(k + 1).drop_last() =~= p.take(k));
}

/// One step of the acquisition worker.
#[derive(Clone, Copy, Debug, PartialEq, Eq, Structural)]
pub enum AcquisitionAction {
    /// The scan has not started: sleep a little and look again.
    Wait,
    /// No batch is ready: poll again at once.
    Skip,
    /// Read a batch of at most this many samples from each channel, filter
    /// the positions and merge.
    Read { length: u32 },
    /// The scan is finished: stop.
    Stop,
}

/// The smaller of two lengths.
pub open spec fn min_len(a: u32, b: u32) -> u32 {
    if a <= b {
        a
    } else {
        b
    }
}

/// Whether the acquisition worker polls the device status: only while the
/// scan runs, never before it starts or after it ends.
pub fn needs_status(flag: ScanState) -> (r: bool)
    ensures
        r <==> flag == ScanState::Running,
{
    flag.has_started() && !flag.is_finished()
}

/// What the acquisition worker does next: wait while the scan has not
/// started, stop once it is finished, and while it runs read a batch when
/// the device has one ready, bounded by `MAX_BATCH` and by what both
/// channels hold, or poll again. The status is the one polled when
/// `needs_status` asked for it; without one the worker polls again.
pub fn acquisition_step(flag: ScanState, status: Option<DeviceStatus>) -> (r: AcquisitionAction)
    ensures
        flag == ScanState::NotStarted ==> r == AcquisitionAction::Wait,
        flag == ScanState::Finished ==> r == AcquisitionAction::Stop,
        flag == ScanState::Running ==> r == match status {
            Some(st) => if st.status == DATA_READY {
                AcquisitionAction::Read {
                    length: min_len(MAX_BATCH, min_len(st.ch1_datalen, st.ch2_datalen)),
                }
            } else {
                AcquisitionAction::Skip
            },
            None => AcquisitionAction::Skip,
        },
{
    match flag {
        ScanState::NotStarted => AcquisitionAction::Wait,
        ScanState::Finished => AcquisitionAction::Stop,
        ScanState::Running => match status {
            Some(st) => {
                if st.is_ready() {
                    let available = if st.ch1_datalen <= st.ch2_datalen {
                        st.ch1_datalen
                    } else {
                        st.ch2_datalen
                    };
                    let length = if MAX_BATCH <= available {
                        MAX_BATCH
                    } else {
                        available
                    };
                    AcquisitionAction::Read { length }
                } else {
                    AcquisitionAction::Skip
                }
            },
            None => AcquisitionAction::Skip,
        },
    }
}

/// How many pairs of a batch are merged: none when either channel's read
/// failed, else what the reads reported, bounded by what both buffers hold.
pub fn batch_len(e1: i16, e2: i16, length: u32, n1: usize, n2: usize) -> (r: usize)
    ensures
        r == if e1 == 0 && e2 == 0 {
            min_usize(min_usize(length as usize, n1), n2)
        } else {
            0
        },
{
    if e1 != 0 || e2 != 0 {
        return 0;
    }
    let a: usize = if (length as usize) <= n1 {
        length as usize
    } else {
        n1
    };
    if a <= n2 {
        a
    } else {
        n2
    }
}

/// The smaller of two sizes.
pub open spec fn min_usize(a: usize, b: usize) -> usize {
    if a <= b {
        a
    } else {
        b
    }
}

/// One step of the publisher.
#[derive(Clone, Copy, Debug, PartialEq, Eq, Structural)]
pub enum PublishAction {
    /// The scan has not started: sleep a little and look again.
    Wait,
    /// Send a snapshot of the dataset; after one marked finished, stop.
    Publish { finished: bool },
}

/// What the publisher does next: wait while the scan has not started, then
/// send snapshots, the one taken once the scan is finished marked as the
/// last.
pub fn publish_step(flag: ScanState) -> (r: PublishAction)
    ensures
        r == match flag {
            ScanState::NotStarted => PublishAction::Wait,
            ScanState::Running => PublishAction::Publish { finished: false },
            ScanState::Finished => PublishAction::Publish { finished: true },
        },
{
    match flag {
        ScanState::NotStarted => PublishAction::Wait,
        ScanState::Running => PublishAction::Publish { finished: false },
        ScanState::Finished => PublishAction::Publish { finished: true },
    }
}

} // verus!
