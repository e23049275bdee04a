//! The queue-monitor read planner: decides, for every watched circuit
//! queue, which interface and class each direction's statistics are read
//! from. The surrounding work — reading the scheduler, updating the live
//! circuit map — is I/O and stays with the caller.

use vstd::prelude::*;

verus! {

/// One circuit queue marked for monitoring.
#[derive(Clone, PartialEq, Eq, Debug)]
pub struct WatchedQueue {
    pub circuit_id: String,
    pub download_class: u32,
    pub upload_class: u32,
}

pub ghost struct SpecWatchedQueue {
    pub circuit_id: Seq<char>,
    pub download_class: u32,
    pub upload_class: u32,
}

impl View for WatchedQueue {
    type V = SpecWatchedQueue;

    open spec fn view(&self) -> SpecWatchedQueue {
        SpecWatchedQueue {
            circuit_id: self.circuit_id@,
            download_class: self.download_class,
            upload_class: self.upload_class,
        }
    }
}

/// The slice of configuration that decides where queues are read.
#[derive(Clone, PartialEq, Eq, Debug)]
pub struct QueueReadConfig {
    /// One physical interface for both directions?
    pub on_a_stick_mode: bool,
    pub internet_interface: String,
    pub isp_interface: String,
}

pub ghost struct SpecQueueReadConfig {
    pub on_a_stick_mode: bool,
    pub internet_interface: Seq<char>,
    pub isp_interface: Seq<char>,
}

impl View for QueueReadConfig {
    type V = SpecQueueReadConfig;

    open spec fn view(&self) -> SpecQueueReadConfig {
        SpecQueueReadConfig {
            on_a_stick_mode: self.on_a_stick_mode,
            internet_interface: self.internet_interface@,
            isp_interface: self.isp_interface@,
        }
    }
}

/// Where one queue's statistics are read: an interface and a class id for
/// each direction.
#[derive(Clone, PartialEq, Eq, Debug)]
pub struct QueueReadPlan {
    pub circuit_id: String,
    pub download_interface: String,
    pub download_class: u32,
    pub upload_interface: String,
    pub upload_class: u32,
}

pub ghost struct SpecQueueReadPlan {
    pub circuit_id: Seq<char>,
    pub download_interface: Seq<char>,
    pub download_class: u32,
    pub upload_interface: Seq<char>,
    pub upload_class: u32,
}

impl View for QueueReadPlan {
    type V = SpecQueueReadPlan;

    open spec fn view(&self) -> SpecQueueReadPlan {
        SpecQueueReadPlan {
            circuit_id: self.circuit_id@,
            download_interface: self.download_interface@,
            download_class: self.download_class,
            upload_interface: self.upload_interface@,
            upload_class: self.upload_class,
        }
    }
}

/// The read plan for one watched queue. On a stick, both directions are
/// read from the internet interface under their own class ids; with split
/// interfaces, both reads use the download class id, one read per
/// interface.
pub open spec fn plan_for(w: SpecWatchedQueue, c: SpecQueueReadConfig) -> SpecQueueReadPlan {
    if c.on_a_stick_mode {
        SpecQueueReadPlan {
            circuit_id: w.circuit_id,
            download_interface: c.internet_interface,
            download_class: w.download_class,
            upload_interface: c.internet_interface,
            upload_class: w.upload_class,
        }
    } else {
        SpecQueueReadPlan {
            circuit_id: w.circuit_id,
            download_interface: c.isp_interface,
            download_class: w.download_class,
            upload_interface: c.internet_interface,
            upload_class: w.download_class,
        }
    }
}

/// Computes, for every watched queue, where its statistics are to be read
/// this cycle, in the order the queues are watched.
pub fn track_queues(watching: &Vec<WatchedQueue>, config: &QueueReadConfig) -> (r: Vec<
    QueueReadPlan,
>)
    ensures
        r@.len() == watching@.len(),
        forall|i: int|
            0 <= i < watching@.len() ==> (#[trigger] r@[i])@ == plan_for(watching@[i]@, config@),
{
    let mut r: Vec<QueueReadPlan> = Vec::new();
    let mut i: usize = 0;
    while i < watching.len()
        invariant
            i <= watching@.len(),
            r@.len() == i,
            forall|j: int| 0 <= j < i ==> (#[trigger] r@[j])@ == plan_for(watching@[j]@, config@),
        decreases watching@.len() - i,
    {
        let w = &watching[i];
        let plan = if config.on_a_stick_mode {
            QueueReadPlan {
                circuit_id: w.circuit_id.clone(),
                download_interface: config.internet_interface.clone(),
                download_class: w.download_class,
                upload_interface: config.internet_interface.clone(),
                upload_class: w.upload_class,
            }
        } else {
            QueueReadPlan {
                circuit_id: w.circuit_id.clone(),
                download_interface: config.isp_interface.clone(),
                download_class: w.download_class,
                upload_interface: config.internet_interface.clone(),
                upload_class: w.download_class,
            }
        };
        r.push(plan);
        i += 1;
    }
    r
}

} // verus!
