//! Process counters and the interval line they are printed on.
//!
//! A handful of monotonic counters and one line every so often, for a sidecar
//! to scrape.

use vstd::prelude::*;
use crate::error::{Code, Failure, ParseError};
use crate::text::{cat2, cat6, cat8, decimal, decimal_text};

verus! {

/// Counters shared by every parse.
#[derive(Clone, Copy, Debug, PartialEq, Eq, Structural)]
pub struct Metrics {
    /// Parse streams opened.
    pub parses_started: u64,
    /// Parse streams that reached their trailer.
    pub parses_completed: u64,
    /// Parse streams that ended with a gRPC error.
    pub parses_failed: u64,
    /// Parse streams refused before starting, by the concurrency cap.
    pub parses_rejected: u64,
    /// Records emitted as rows.
    pub records_emitted: u64,
    /// Input bytes received across all parses.
    pub bytes_received: u64,
    /// Parses stopped by the byte cap.
    pub byte_cap_hits: u64,
}

/// A counter with an amount added to it. A counter that overflows starts over.
pub open spec fn sum(counter: u64, amount: u64) -> u64 {
    if counter + amount <= u64::MAX {
        (counter + amount) as u64
    } else {
        (counter + amount - u64::MAX - 1) as u64
    }
}

/// The counters with one parse started.
pub open spec fn with_start(metrics: Metrics) -> Metrics {
    Metrics { parses_started: sum(metrics.parses_started, 1), ..metrics }
}

/// The counters with one parse refused.
pub open spec fn with_rejection(metrics: Metrics) -> Metrics {
    Metrics { parses_rejected: sum(metrics.parses_rejected, 1), ..metrics }
}

/// The counters with input received.
pub open spec fn with_input(metrics: Metrics, bytes: u64) -> Metrics {
    Metrics { bytes_received: sum(metrics.bytes_received, bytes), ..metrics }
}

/// The counters with one record emitted.
pub open spec fn with_record(metrics: Metrics) -> Metrics {
    Metrics { records_emitted: sum(metrics.records_emitted, 1), ..metrics }
}

/// The counters with one parse ended. One that ran out of a resource hit the
/// byte cap: the concurrency cap refuses a parse before it starts.
pub open spec fn with_end(metrics: Metrics, outcome: Result<(), Failure>) -> Metrics {
    match outcome {
        Ok(_) => Metrics { parses_completed: sum(metrics.parses_completed, 1), ..metrics },
        Err(failure) => Metrics {
            parses_failed: sum(metrics.parses_failed, 1),
            byte_cap_hits: if failure.code() == Code::ResourceExhausted {
                sum(metrics.byte_cap_hits, 1)
            } else {
                metrics.byte_cap_hits
            },
            ..metrics
        },
    }
}

/// The one-line snapshot of the counters.
pub open spec fn line_of(metrics: Metrics) -> Seq<char> {
    "grpc-ebcdic metrics: parses{started="@ + decimal(metrics.parses_started as nat)
        + ",completed="@ + decimal(metrics.parses_completed as nat) + ",failed="@ + decimal(
        metrics.parses_failed as nat,
    ) + ",rejected="@ + decimal(metrics.parses_rejected as nat) + "} records="@ + decimal(
        metrics.records_emitted as nat,
    ) + " bytes="@ + decimal(metrics.bytes_received as nat) + " byte_cap_hits="@ + decimal(
        metrics.byte_cap_hits as nat,
    )
}

impl Metrics {
    /// A fresh, zeroed counter set.
    pub fn new() -> (r: Self)
        ensures
            r == (Metrics {
                parses_started: 0,
                parses_completed: 0,
                parses_failed: 0,
                parses_rejected: 0,
                records_emitted: 0,
                bytes_received: 0,
                byte_cap_hits: 0,
            }),
    {
        Metrics {
            parses_started: 0,
            parses_completed: 0,
            parses_failed: 0,
            parses_rejected: 0,
            records_emitted: 0,
            bytes_received: 0,
            byte_cap_hits: 0,
        }
    }

    /// Add to a counter.
    pub fn add(counter: &mut u64, amount: u64)
        ensures
            *final(counter) == sum(*old(counter), amount),
    {
        *counter = counter.wrapping_add(amount);
    }

    /// Bump a counter by one.
    pub fn bump(counter: &mut u64)
        ensures
            *final(counter) == sum(*old(counter), 1),
    {
        Metrics::add(counter, 1);
    }

    /// Count one parse that ended.
    pub fn conclude(&mut self, outcome: &Result<(), ParseError>)
        ensures
            *final(self) == with_end(
                *old(self),
                match *outcome {
                    Ok(_) => Ok(()),
                    Err(error) => Err(error@),
                },
            ),
    {
        match outcome {
            Ok(_) => Metrics::bump(&mut self.parses_completed),
            Err(error) => {
                Metrics::bump(&mut self.parses_failed);
                if error.code() == Code::ResourceExhausted {
                    Metrics::bump(&mut self.byte_cap_hits);
                }
            },
        }
    }

    /// The one-line snapshot printed on the interval.
    pub fn line(&self) -> (r: String)
        ensures
            r@ == line_of(*self),
    {
        let parses: String = cat8(
            "grpc-ebcdic metrics: parses{started=",
            &decimal_text(self.parses_started as u128),
            ",completed=",
            &decimal_text(self.parses_completed as u128),
            ",failed=",
            &decimal_text(self.parses_failed as u128),
            ",rejected=",
            &decimal_text(self.parses_rejected as u128),
        );
        let rest: String = cat6(
            "} records=",
            &decimal_text(self.records_emitted as u128),
            " bytes=",
            &decimal_text(self.bytes_received as u128),
            " byte_cap_hits=",
            &decimal_text(self.byte_cap_hits as u128),
        );
        let r: String = cat2(&parses, &rest);
        proof {
            assert(r@ =~= line_of(*self));
        }
        r
    }
}

} // verus!
