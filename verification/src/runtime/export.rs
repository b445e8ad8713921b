//! Export jobs of project sessions: numbered in order of request and
//! described to the scheduler as user-visible FFmpeg work.
use vstd::prelude::*;

use crate::compiler::job::ExportMp4Preset;
use crate::runtime::error::RuntimeError;
use crate::runtime::project_session::ProjectSessionHandle;
use crate::text::{append_string, decimal, lemma_numbered_ids_distinct, lit, u64_to_decimal};

verus! {

/// Work domains of the scheduler.
#[derive(Debug, Clone, Copy, PartialEq, Eq, Structural)]
pub enum JobDomain {
    Export,
}

/// Scheduling priorities.
#[derive(Debug, Clone, Copy, PartialEq, Eq, Structural)]
pub enum JobPriority {
    UserVisible,
}

/// Resources a job occupies.
#[derive(Debug, Clone, Copy, PartialEq, Eq, Structural)]
pub enum ResourceClass {
    FfmpegProcess,
}

/// How a job is presented to the scheduler.
#[derive(Debug, Clone)]
pub struct JobEnvelope {
    pub job_id: String,
    pub domain: JobDomain,
    pub priority: JobPriority,
    pub resource_class: ResourceClass,
    pub cancellation_token: u64,
    pub requested_at_us: u64,
}

/// A request to export a project session.
#[derive(Debug, Clone)]
pub struct StartProjectSessionExportRequest {
    pub project_session: ProjectSessionHandle,
    pub output_path: String,
    pub preset: ExportMp4Preset,
    pub requested_at_us: u64,
}

/// An export job ready to be scheduled.
#[derive(Debug, Clone)]
pub struct ProjectSessionExportJob {
    pub job_id: String,
    pub project_session: ProjectSessionHandle,
    pub output_path: String,
    pub preset: ExportMp4Preset,
    pub scheduler_envelope: JobEnvelope,
}

/// Hands out export jobs.
pub struct ExportService {
    next_id: u64,
}

impl ExportService {
    /// Number of jobs started so far (saturating).
    pub closed spec fn started(&self) -> u64 {
        self.next_id
    }

    /// A service that has started no job.
    pub fn new() -> (s: Self)
        ensures
            s.started() == 0,
    {
        ExportService { next_id: 0 }
    }

    /// Starts the next export job: `export-N`, cancellation token N.
    pub fn start_project_session_export(&mut self, request: StartProjectSessionExportRequest) -> (r: Result<ProjectSessionExportJob, RuntimeError>)
        ensures
            final(self).started() == if old(self).started() == u64::MAX { u64::MAX } else { (old(self).started() + 1) as u64 },
            r matches Ok(job) && {
                let n = final(self).started();
                &&& job.job_id@ == "export-"@ + decimal(n as nat)
                &&& job.project_session@ == request.project_session@
                &&& job.output_path == request.output_path
                &&& job.preset == request.preset
                &&& job.scheduler_envelope.job_id@ == job.job_id@
                &&& job.scheduler_envelope.domain == JobDomain::Export
                &&& job.scheduler_envelope.priority == JobPriority::UserVisible
                &&& job.scheduler_envelope.resource_class == ResourceClass::FfmpegProcess
                &&& job.scheduler_envelope.cancellation_token == n
                &&& job.scheduler_envelope.requested_at_us == request.requested_at_us
            },
    {
        let id_number = if self.next_id == u64::MAX { u64::MAX } else { self.next_id + 1 };
        self.next_id = id_number;
        let mut job_id = lit("export-");
        let digits = u64_to_decimal(id_number);
        append_string(&mut job_id, &digits);
        let envelope = JobEnvelope {
            job_id: job_id.clone(),
            domain: JobDomain::Export,
            priority: JobPriority::UserVisible,
            resource_class: ResourceClass::FfmpegProcess,
            cancellation_token: id_number,
            requested_at_us: request.requested_at_us,
        };
        Ok(ProjectSessionExportJob {
            job_id,
            project_session: request.project_session,
            output_path: request.output_path,
            preset: request.preset,
            scheduler_envelope: envelope,
        })
    }
}


/// Export jobs started at different counter values get different job ids.
pub proof fn law_export_job_ids_distinct(a: nat, b: nat)
    ensures
        a != b ==> "export-"@ + decimal(a) != "export-"@ + decimal(b),
{
    lemma_numbered_ids_distinct("export-"@, a, b);
}

} // verus!
