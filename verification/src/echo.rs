//! The smallest server: it prints what it receives, one core at a time, and
//! remembers nothing.

use crate::metrics::MetricsResponse;
use crate::text::{decimal, decimal_text};
use vstd::prelude::*;

verus! {

/// A collector that remembers nothing.
#[derive(Clone, Copy, Debug)]
pub struct MyCollector {}

impl Default for MyCollector {
    fn default() -> (collector: Self)
        ensures
            collector == (MyCollector {  }),
    {
        MyCollector {  }
    }
}

impl MyCollector {
    /// The line to print on a report of one core, whose load is the number
    /// `usage`, and the answer: every report is accepted.
    pub fn send_metrics(&self, core_id: u32, usage: &str) -> (reply: (String, MetricsResponse))
        ensures
            reply.0@ == "Received metrics: Core "@ + decimal(core_id as nat) + " -> "@ + usage@
                + "%"@,
            reply.1.success,
    {
        let mut line: String = "Received metrics: Core ".to_owned();
        line.append(decimal_text(core_id as u64).as_str());
        line.append(" -> ");
        line.append(usage);
        line.append("%");
        (line, MetricsResponse { success: true })
    }
}

} // verus!
