use vstd::prelude::*;

verus! {

/// The two kinds of processing a user pays for.
#[derive(Clone, Copy, Debug, PartialEq, Eq, Structural)]
pub enum ProcessingType {
    Dubbing,
    LipSync,
}

pub open spec fn jobs_field(t: ProcessingType) -> Seq<char> {
    match t {
        ProcessingType::Dubbing => "active_dubbing_jobs"@,
        ProcessingType::LipSync => "active_lipsync_jobs"@,
    }
}

impl ProcessingType {
    /// The stored column that counts a user's running jobs of this kind.
    pub fn active_jobs_field(&self) -> (res: &'static str)
        ensures
            res@ == jobs_field(*self),
    {
        match self {
            ProcessingType::Dubbing => "active_dubbing_jobs",
            ProcessingType::LipSync => "active_lipsync_jobs",
        }
    }
}

/// A user's running jobs of each kind.
#[derive(Clone, Copy, Debug, PartialEq, Eq, Structural)]
pub struct JobSlots {
    pub active_dubbing_jobs: i32,
    pub active_lipsync_jobs: i32,
}

pub open spec fn active_of(s: JobSlots, t: ProcessingType) -> i32 {
    match t {
        ProcessingType::Dubbing => s.active_dubbing_jobs,
        ProcessingType::LipSync => s.active_lipsync_jobs,
    }
}

pub open spec fn with_active(s: JobSlots, t: ProcessingType, n: i32) -> JobSlots {
    match t {
        ProcessingType::Dubbing => JobSlots { active_dubbing_jobs: n, ..s },
        ProcessingType::LipSync => JobSlots { active_lipsync_jobs: n, ..s },
    }
}

impl JobSlots {
    /// A job of a kind may start only while none of that kind runs.
    pub fn can_start_job(&self, job_type: ProcessingType) -> (res: bool)
        ensures
            res == (active_of(*self, job_type) == 0),
    {
        match job_type {
            ProcessingType::Dubbing => self.active_dubbing_jobs == 0,
            ProcessingType::LipSync => self.active_lipsync_jobs == 0,
        }
    }

    /// Counts one more running job of the kind.
    pub fn reserve_job_slot(&mut self, job_type: ProcessingType)
        requires
            active_of(*old(self), job_type) < i32::MAX,
        ensures
            *final(self) == with_active(*old(self), job_type, (active_of(*old(self), job_type) + 1) as i32),
    {
        match job_type {
            ProcessingType::Dubbing => {
                *self = JobSlots { active_dubbing_jobs: self.active_dubbing_jobs + 1, ..*self };
            },
            ProcessingType::LipSync => {
                *self = JobSlots { active_lipsync_jobs: self.active_lipsync_jobs + 1, ..*self };
            },
        }
    }

    /// Counts one job of the kind as finished; the count never drops below 0.
    pub fn complete_job(&mut self, job_type: ProcessingType)
        ensures
            *final(self) == with_active(
                *old(self),
                job_type,
                if active_of(*old(self), job_type) > 0 {
                    (active_of(*old(self), job_type) - 1) as i32
                } else {
                    active_of(*old(self), job_type)
                },
            ),
    {
        match job_type {
            ProcessingType::Dubbing => {
                if self.active_dubbing_jobs > 0 {
                    *self = JobSlots { active_dubbing_jobs: self.active_dubbing_jobs - 1, ..*self };
                }
            },
            ProcessingType::LipSync => {
                if self.active_lipsync_jobs > 0 {
                    *self = JobSlots { active_lipsync_jobs: self.active_lipsync_jobs - 1, ..*self };
                }
            },
        }
    }
}

pub open spec fn after_reserve(s: JobSlots, t: ProcessingType) -> JobSlots {
    with_active(s, t, (active_of(s, t) + 1) as i32)
}

pub open spec fn after_complete(s: JobSlots, t: ProcessingType) -> JobSlots {
    with_active(
        s,
        t,
        if active_of(s, t) > 0 {
            (active_of(s, t) - 1) as i32
        } else {
            active_of(s, t)
        },
    )
}

/// Finishing a job gives back the slot its start took: reserving and then
/// completing a job of one kind leaves the counts as they were.
pub proof fn lemma_complete_undoes_reserve(s: JobSlots, t: ProcessingType)
    requires
        0 <= active_of(s, t) < i32::MAX,
    ensures
        after_complete(after_reserve(s, t), t) == s,
{
}

/// While a job of a kind runs, no second job of that kind can start.
pub proof fn lemma_one_job_per_kind(s: JobSlots, t: ProcessingType)
    requires
        0 <= active_of(s, t) < i32::MAX,
    ensures
        active_of(after_reserve(s, t), t) != 0,
{
}

} // verus!
