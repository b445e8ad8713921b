use editor_core::compiler::job::{ExportMp4Preset, RenderAudioCodec, RenderContainer, RenderVideoCodec};
use editor_core::engine::model::{CanvasBackground, CanvasConfig, Draft, RationalFrameRate};
use editor_core::runtime::error::{RuntimeError, RuntimeErrorKind};
use editor_core::runtime::export::{ExportService, JobDomain, JobPriority, ResourceClass, StartProjectSessionExportRequest};
use editor_core::runtime::project_session::{ProjectSessionService, SaveProjectSessionRequest};
use editor_core::runtime::session::{RuntimeSessionConfig, RuntimeSessionRegistry};

fn named_draft(draft_id: &str, name: &str) -> Draft {
    let mut draft = empty_draft(draft_id);
    draft.name = name.to_owned();
    draft
}

fn empty_draft(draft_id: &str) -> Draft {
    Draft {
        draft_id: draft_id.to_owned(),
        name: String::new(),
        canvas_config: CanvasConfig {
            frame_rate: RationalFrameRate::new(30, 1),
            width: 1920,
            height: 1080,
            background: CanvasBackground::Black,
        },
        tracks: Vec::new(),
        materials: Vec::new(),
    }
}

fn balanced_preset() -> ExportMp4Preset {
    ExportMp4Preset {
        container: RenderContainer::Mp4,
        video_codec: RenderVideoCodec::H264,
        audio_codec: RenderAudioCodec::Aac,
        crf: 23,
        audio_bitrate_kbps: 192,
    }
}

#[test]
fn creating_runtime_session_returns_opaque_generation_one_without_adapter_metadata() {
    let mut registry = RuntimeSessionRegistry::default();

    let session = registry
        .create_session(RuntimeSessionConfig::default())
        .expect("runtime session should be created");

    assert_eq!(session.id.generation(), 1);
    assert!(session.id.as_str().starts_with("runtime-"));
    assert!(
        session.adapter_metadata.is_none(),
        "shared runtime sessions must not carry Node/Electron/C adapter metadata"
    );
}

#[test]
fn runtime_sessions_are_numbered_in_creation_order_and_keep_their_label() {
    let mut registry = RuntimeSessionRegistry::default();
    let first = registry.create_session(RuntimeSessionConfig::default()).unwrap();
    let second = registry
        .create_session(RuntimeSessionConfig { diagnostic_label: Some("preview".to_owned()) })
        .unwrap();
    assert_eq!(first.id.as_str(), "runtime-1");
    assert_eq!(second.id.as_str(), "runtime-2");
    assert_eq!(second.diagnostic_label.as_deref(), Some("preview"));
    assert!(registry.contains_session(&first.id));
    assert!(registry.contains_session(&second.id));
    assert!(!registry.contains_session(&first.id.with_generation(2)));
    let found = registry.session(&second.id).unwrap();
    assert!(found.id.same_as(&second.id));
}

#[test]
fn unknown_runtime_session_lookup_fails_closed() {
    let mut registry = RuntimeSessionRegistry::default();
    let session = registry.create_session(RuntimeSessionConfig::default()).unwrap();
    let stale = session.id.with_generation(7);
    let error = registry.session(&stale).unwrap_err();
    assert_eq!(error.kind, RuntimeErrorKind::UnknownRuntimeSession);
}

#[test]
fn opening_project_sessions_hands_out_numbered_handles_at_revision_one() {
    let mut registry = RuntimeSessionRegistry::default();
    let runtime = registry.create_session(RuntimeSessionConfig::default()).unwrap();
    let mut projects = ProjectSessionService::new();

    let opened = projects.insert_opened_project(
        runtime.id.duplicate(),
        "/projects/runtime-draft.veproj".to_owned(),
        "/projects/runtime-draft.veproj/project.json".to_owned(),
        named_draft("draft-runtime-001", "Runtime draft"),
        Vec::new(),
    );
    assert_eq!(opened.handle.as_str(), "projectSession-1");
    assert_eq!(opened.handle.generation(), 1);
    assert!(opened.handle.owner_session().same_as(&runtime.id));
    assert_eq!(opened.revision, 1);
    assert_eq!(opened.bundle_path, "/projects/runtime-draft.veproj");
    assert_eq!(opened.project_json_path, "/projects/runtime-draft.veproj/project.json");
    assert_eq!(opened.draft_id, "draft-runtime-001");
    assert_eq!(opened.draft_name, "Runtime draft");

    let second = projects.insert_opened_project(
        runtime.id.duplicate(),
        "/projects/b.veproj".to_owned(),
        "/projects/b.veproj/project.json".to_owned(),
        named_draft("draft-b", "B"),
        Vec::new(),
    );
    assert_eq!(second.handle.as_str(), "projectSession-2");

    let snapshot = projects.snapshot(&opened.handle).unwrap();
    assert!(snapshot.handle.same_as(&opened.handle));
    assert_eq!(snapshot.revision, 1);
    assert_eq!(snapshot.bundle_path, "/projects/runtime-draft.veproj");
    assert_eq!(snapshot.draft.draft_id, "draft-runtime-001");
}

#[test]
fn saving_a_project_session_advances_its_revision() {
    let mut registry = RuntimeSessionRegistry::default();
    let runtime = registry.create_session(RuntimeSessionConfig::default()).unwrap();
    let mut projects = ProjectSessionService::new();
    let opened = projects.insert_opened_project(
        runtime.id.duplicate(),
        "/p/a.veproj".to_owned(),
        "/p/a.veproj/project.json".to_owned(),
        named_draft("draft-a", "A"),
        Vec::new(),
    );
    let request = SaveProjectSessionRequest { handle: opened.handle.duplicate() };
    {
        let (path, draft) = projects.save_source(&request).unwrap();
        assert_eq!(path, "/p/a.veproj");
        assert_eq!(draft.draft_id, "draft-a");
    }
    let saved = projects
        .record_saved(&request, "/p/a.veproj".to_owned(), "/p/a.veproj/project.json".to_owned(), empty_draft("draft-a2"))
        .unwrap();
    assert_eq!(saved.revision, 2);
    assert_eq!(saved.draft.draft_id, "draft-a2");
    let again = projects
        .record_saved(&request, "/p/a.veproj".to_owned(), "/p/a.veproj/project.json".to_owned(), empty_draft("draft-a3"))
        .unwrap();
    assert_eq!(again.revision, 3);
    assert_eq!(projects.snapshot(&opened.handle).unwrap().revision, 3);
}

#[test]
fn unknown_project_session_is_reported_for_snapshot_and_save() {
    let mut registry = RuntimeSessionRegistry::default();
    let runtime = registry.create_session(RuntimeSessionConfig::default()).unwrap();
    let mut projects = ProjectSessionService::new();
    let opened = projects.insert_opened_project(
        runtime.id.duplicate(),
        "/p/a.veproj".to_owned(),
        "/p/a.veproj/project.json".to_owned(),
        named_draft("draft-a", "A"),
        Vec::new(),
    );
    let other = ProjectSessionService::new();
    let error = other.snapshot(&opened.handle).unwrap_err();
    assert_eq!(error.kind, RuntimeErrorKind::UnknownProjectSession);
    assert_eq!(error.message, "project session not found: projectSession-1");
    let request = SaveProjectSessionRequest { handle: opened.handle.duplicate() };
    assert_eq!(other.save_source(&request).unwrap_err().kind, RuntimeErrorKind::UnknownProjectSession);
}

#[test]
fn export_service_returns_shared_job_contract_without_adapter_code() {
    let mut runtime_sessions = RuntimeSessionRegistry::default();
    let runtime = runtime_sessions
        .create_session(RuntimeSessionConfig::default())
        .expect("runtime session should be created");
    let mut project_sessions = ProjectSessionService::new();
    let opened = project_sessions.insert_opened_project(
        runtime.id.duplicate(),
        "/tmp/export-draft.veproj".to_owned(),
        "/tmp/export-draft.veproj/project.json".to_owned(),
        named_draft("draft-export-001", "Export draft"),
        Vec::new(),
    );

    let mut exports = ExportService::new();
    let requested_at_us = 1_700_000_000_000_000;
    let export = exports
        .start_project_session_export(StartProjectSessionExportRequest {
            project_session: opened.handle.duplicate(),
            output_path: "/tmp/out.mp4".to_owned(),
            preset: balanced_preset(),
            requested_at_us,
        })
        .expect("export job contract should be created");

    assert!(export.project_session.same_as(&opened.handle));
    assert_eq!(export.scheduler_envelope.domain, JobDomain::Export);
    assert_eq!(export.scheduler_envelope.resource_class, ResourceClass::FfmpegProcess);
    assert_eq!(export.scheduler_envelope.priority, JobPriority::UserVisible);
    assert_eq!(export.scheduler_envelope.requested_at_us, requested_at_us);
    assert_eq!(export.job_id, "export-1");
    assert_eq!(export.scheduler_envelope.job_id, "export-1");
    assert_eq!(export.scheduler_envelope.cancellation_token, 1);
    assert_eq!(export.output_path, "/tmp/out.mp4");
    assert!(
        export.job_id.as_str().starts_with("export-"),
        "export service should create shared runtime job ids, not adapter ids"
    );

    let second = exports
        .start_project_session_export(StartProjectSessionExportRequest {
            project_session: opened.handle.duplicate(),
            output_path: "/tmp/out2.mp4".to_owned(),
            preset: balanced_preset(),
            requested_at_us: 5,
        })
        .unwrap();
    assert_eq!(second.job_id, "export-2");
}

#[test]
fn current_revision_is_looked_up_by_session_token() {
    let mut registry = RuntimeSessionRegistry::default();
    let runtime = registry.create_session(RuntimeSessionConfig::default()).unwrap();
    let mut projects = ProjectSessionService::new();
    let opened = projects.insert_opened_project(
        runtime.id.duplicate(),
        "/p/a.veproj".to_owned(),
        "/p/a.veproj/project.json".to_owned(),
        named_draft("draft-a", "A"),
        Vec::new(),
    );
    assert_eq!(projects.current_revision("projectSession-1"), Some(1));
    assert_eq!(projects.current_revision("projectSession-9"), None);
    let request = SaveProjectSessionRequest { handle: opened.handle.duplicate() };
    projects
        .record_saved(&request, "/p/a.veproj".to_owned(), "/p/a.veproj/project.json".to_owned(), empty_draft("draft-a"))
        .unwrap();
    assert_eq!(projects.current_revision(opened.handle.as_str()), Some(2));
}

#[test]
fn runtime_error_reads_with_its_prefix() {
    let error = RuntimeError::new(RuntimeErrorKind::UnknownHandle, "handle not found: media-3".to_owned());
    assert_eq!(error.to_string(), "runtime error: handle not found: media-3");
}

#[test]
fn looked_up_session_carries_the_requested_id_and_new_ids_are_fresh() {
    let mut registry = RuntimeSessionRegistry::default();
    let first = registry.create_session(RuntimeSessionConfig::default()).unwrap();
    let second = registry.create_session(RuntimeSessionConfig::default()).unwrap();
    assert_ne!(first.id.as_str(), second.id.as_str());
    let found = registry.session(&first.id).unwrap();
    assert_eq!(found.id.as_str(), first.id.as_str());
    assert_eq!(found.id.generation(), first.id.generation());
    let missing = registry.session(&first.id.with_generation(9)).unwrap_err();
    assert_eq!(missing.message, "runtime session not found: runtime-1");
}
