//! The settings of the background pass.
use vstd::prelude::*;
use vstd::string::*;

use crate::memory::consolidation;
use crate::memory::consolidation::{ConsolidationLimits, ConsolidationRunStats};
use crate::memory::store::MemoryStore;
use crate::memory::types::MemoryError;

verus! {

#[derive(Debug, Clone, Copy)]
pub struct MemoryConsolidationConfig {
    pub enabled: bool,
    pub check_interval_seconds: u64,
    pub min_interval_seconds: u64,
    pub min_new_records: usize,
    pub min_distinct_sources: usize,
    pub max_records: usize,
    pub max_input_chars: usize,
}

/// What a run of the worker has done.
#[derive(Debug, Clone, Copy, PartialEq, Eq, Structural)]
pub struct MemoryConsolidationRunStats {
    pub candidate_target_count: usize,
    pub processed_target_count: usize,
    pub input_record_count: usize,
    pub output_record_count: usize,
    pub archived_duplicate_count: usize,
    pub conflict_count: usize,
    pub truncated_target_count: usize,
}

pub open spec fn as_run_stats(s: ConsolidationRunStats) -> MemoryConsolidationRunStats {
    MemoryConsolidationRunStats {
        candidate_target_count: s.candidate_target_count,
        processed_target_count: s.processed_target_count,
        input_record_count: s.input_record_count,
        output_record_count: s.output_record_count,
        archived_duplicate_count: s.archived_duplicate_count,
        conflict_count: s.conflict_count,
        truncated_target_count: s.truncated_target_count,
    }
}

impl From<ConsolidationRunStats> for MemoryConsolidationRunStats {
    fn from(stats: ConsolidationRunStats) -> (r: Self) {
        MemoryConsolidationRunStats {
            candidate_target_count: stats.candidate_target_count,
            processed_target_count: stats.processed_target_count,
            input_record_count: stats.input_record_count,
            output_record_count: stats.output_record_count,
            archived_duplicate_count: stats.archived_duplicate_count,
            conflict_count: stats.conflict_count,
            truncated_target_count: stats.truncated_target_count,
        }
    }
}

impl vstd::std_specs::convert::FromSpecImpl<ConsolidationRunStats> for MemoryConsolidationRunStats {
    open spec fn obeys_from_spec() -> bool {
        true
    }

    open spec fn from_spec(stats: ConsolidationRunStats) -> Self {
        as_run_stats(stats)
    }
}

#[derive(Debug)]
pub struct MemoryConsolidationWorker {
    pub store: MemoryStore,
    pub config: MemoryConsolidationConfig,
}

pub open spec fn limits_of(config: MemoryConsolidationConfig) -> ConsolidationLimits {
    ConsolidationLimits {
        min_interval_seconds: config.min_interval_seconds,
        min_new_records: config.min_new_records,
        min_distinct_sources: config.min_distinct_sources,
        max_records: config.max_records,
        max_input_chars: config.max_input_chars,
    }
}

impl MemoryConsolidationWorker {
    pub fn new(store: MemoryStore, config: MemoryConsolidationConfig) -> (r: Self)
        ensures
            r.store == store,
            r.config == config,
    {
        MemoryConsolidationWorker { store, config }
    }

    /// The limits that the passes of a run keep to.
    pub fn limits(&self) -> (r: ConsolidationLimits)
        ensures
            r == limits_of(self.config),
    {
        ConsolidationLimits {
            min_interval_seconds: self.config.min_interval_seconds,
            min_new_records: self.config.min_new_records,
            min_distinct_sources: self.config.min_distinct_sources,
            max_records: self.config.max_records,
            max_input_chars: self.config.max_input_chars,
        }
    }

    /// The seconds between two checks; never under a minute.
    pub fn tick_seconds(&self) -> (r: u64)
        ensures
            r == (if self.config.check_interval_seconds < 60 {
                60
            } else {
                self.config.check_interval_seconds
            }),
    {
        if self.config.check_interval_seconds < 60 {
            60
        } else {
            self.config.check_interval_seconds
        }
    }

    /// One run at `now_epoch`; a worker that is switched off does nothing.
    pub fn run_once(&mut self, now_epoch: i64) -> (r: Result<MemoryConsolidationRunStats, String>)
        requires
            old(self).store@.wf(),
        ensures
            final(self).store@.wf(),
            final(self).config == old(self).config,
            !old(self).config.enabled ==> final(self).store@ == old(self).store@ && r == Ok::<
                MemoryConsolidationRunStats,
                String,
            >(as_run_stats(consolidation::no_stats())),
            old(self).config.enabled ==> exists|
                now: String,
                done: Result<ConsolidationRunStats, MemoryError>,
            |
                #[trigger] consolidation::is_run(
                    old(self).store@,
                    final(self).store@,
                    done,
                    limits_of(old(self).config),
                    now_epoch,
                    now,
                ) && match (r, done) {
                    (Ok(a), Ok(b)) => a == as_run_stats(b),
                    (Err(a), Err(b)) => a@ == b.code_text() + ": "@ + b.message_text(),
                    _ => false,
                },
    {
        if !self.config.enabled {
            return Ok(MemoryConsolidationRunStats::from(ConsolidationRunStats::default()));
        }
        let limits = self.limits();
        let done = self.store.consolidate_due(limits, now_epoch);
        proof {
            let now = choose|now: String|
                consolidation::is_run(
                    old(self).store@,
                    self.store@,
                    done,
                    limits,
                    now_epoch,
                    now,
                );
            assert(consolidation::is_run(
                old(self).store@,
                self.store@,
                done,
                limits_of(old(self).config),
                now_epoch,
                now,
            ));
        }
        match done {
            Ok(stats) => Ok(MemoryConsolidationRunStats::from(stats)),
            Err(e) => {
                let mut s = e.code().to_owned();
                s.append(": ");
                s.append(e.message());
                Err(s)
            },
        }
    }
}

} // verus!
