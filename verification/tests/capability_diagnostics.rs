use editor_core::compiler::effects::{RenderRetimeAudio, RenderRetimeIntent, RenderRetimeSourceMapping};
use editor_core::compiler::filters::{
    LayerTransform, RenderAudioMix, RenderTransitionIntent, SegmentAnchor, SegmentCrop, SegmentFitMode, SegmentScale,
};
use editor_core::compiler::job::{
    effect_capability_diagnostics, filter_export_diagnostic, transition_export_diagnostic, RenderFilterIntent,
    RenderIntentSupport, RenderVisualDiagnostic,
};
use editor_core::compiler::visual::RenderVideoLayer;
use editor_core::engine::model::{
    AudioRetimePolicy, BackgroundFilling, MaterialKind, RetimeMode, SegmentRetiming, SourceTimerange, SpeedRatio,
    TargetTimerange,
};

fn retime() -> RenderRetimeIntent {
    RenderRetimeIntent {
        retiming: SegmentRetiming {
            mode: RetimeMode::Constant { speed: SpeedRatio { numerator: 1, denominator: 1 } },
            audio_policy: AudioRetimePolicy::FollowVideoSpeed,
        },
        support: RenderIntentSupport::Supported,
        audio: RenderRetimeAudio {
            support: RenderIntentSupport::Supported,
            reason: String::new(),
            follow_speed: true,
            policy: AudioRetimePolicy::FollowVideoSpeed,
        },
        source_mapping: RenderRetimeSourceMapping {
            target_timerange: TargetTimerange::new(0, 0),
            retimed_source_timerange: SourceTimerange::new(0, 0),
        },
    }
}

fn filter(support: RenderIntentSupport, reason: &str) -> RenderFilterIntent {
    RenderFilterIntent { support, reason: reason.to_owned() }
}

fn transition(support: RenderIntentSupport, reason: &str) -> RenderTransitionIntent {
    RenderTransitionIntent {
        from_segment_id: "video-a".to_owned(),
        to_segment_id: "video-b".to_owned(),
        support,
        reason: reason.to_owned(),
        window: TargetTimerange::new(0, 10_000),
    }
}

fn video_layer(filters: Vec<RenderFilterIntent>, transition: Option<RenderTransitionIntent>) -> RenderVideoLayer {
    RenderVideoLayer {
        track_id: "video-track".to_owned(),
        segment_id: "video-a".to_owned(),
        material_id: "video-material".to_owned(),
        material_kind: MaterialKind::Video,
        stack_index: 0,
        source_timerange: SourceTimerange::new(0, 100_000),
        target_timerange: TargetTimerange::new(0, 100_000),
        retime: retime(),
        transform: LayerTransform {
            fit_mode: SegmentFitMode::Fit,
            crop: SegmentCrop { left_millis: 0, right_millis: 0, top_millis: 0, bottom_millis: 0 },
            scale: SegmentScale { x_millis: 1_000, y_millis: 1_000 },
            position_x: 0,
            position_y: 0,
            anchor: SegmentAnchor { x_millis: 500, y_millis: 500 },
            rotation_degrees: 0,
            opacity_millis: 1_000,
        },
        background: BackgroundFilling::NoFilling,
        visible: true,
        filters,
        has_mask: false,
        has_visual_mask: false,
        blend_is_normal: true,
        visual_blend_is_normal: true,
        transition,
        has_keyframes: false,
    }
}

fn audio_mix(filters: Vec<RenderFilterIntent>) -> RenderAudioMix {
    RenderAudioMix {
        track_id: "audio-track".to_owned(),
        segment_id: "audio-a".to_owned(),
        material_id: "audio-material".to_owned(),
        source_timerange: SourceTimerange::new(0, 100_000),
        target_timerange: TargetTimerange::new(0, 100_000),
        gain_millis: 1_000,
        pan_balance_millis: 0,
        fade_in_duration: 0,
        fade_out_duration: 0,
        retime: retime(),
        volume_keyframes: Vec::new(),
        effect_slots: Vec::new(),
        filters,
        audible: true,
    }
}

fn summary(d: &RenderVisualDiagnostic) -> (String, String, RenderIntentSupport, String) {
    (d.segment_id.clone(), d.property.clone(), d.support, d.reason.clone())
}

#[test]
fn supported_filters_and_transitions_give_no_diagnostic() {
    let id = "id".to_owned();
    assert!(filter_export_diagnostic(&id, &id, &id, &filter(RenderIntentSupport::Supported, "")).is_none());
    assert!(transition_export_diagnostic(&id, &id, &id, &transition(RenderIntentSupport::Supported, "")).is_none());
    let d = transition_export_diagnostic(&id, &id, &id, &transition(RenderIntentSupport::Degraded, "approximated"))
        .expect("degraded transition is reported");
    assert_eq!(d.property, "transition");
    assert_eq!(d.support, RenderIntentSupport::Degraded);
    assert_eq!(d.reason, "approximated");
}

#[test]
fn diagnostics_follow_layers_then_overlays_then_audio() {
    let layers = vec![video_layer(
        vec![
            filter(RenderIntentSupport::Supported, "fine"),
            filter(RenderIntentSupport::Unsupported, "lut"),
            filter(RenderIntentSupport::Degraded, "blur"),
        ],
        Some(transition(RenderIntentSupport::Unsupported, "wipe")),
    )];
    let mixes = vec![audio_mix(vec![filter(RenderIntentSupport::Degraded, "reverb")])];
    let diagnostics = effect_capability_diagnostics(&layers, &Vec::new(), &mixes);
    assert_eq!(
        diagnostics.iter().map(summary).collect::<Vec<_>>(),
        vec![
            ("video-a".to_owned(), "filter".to_owned(), RenderIntentSupport::Unsupported, "lut".to_owned()),
            ("video-a".to_owned(), "filter".to_owned(), RenderIntentSupport::Degraded, "blur".to_owned()),
            ("video-a".to_owned(), "transition".to_owned(), RenderIntentSupport::Unsupported, "wipe".to_owned()),
            ("audio-a".to_owned(), "filter".to_owned(), RenderIntentSupport::Degraded, "reverb".to_owned()),
        ]
    );
    assert_eq!(diagnostics[0].track_id, "video-track");
    assert_eq!(diagnostics[3].material_id, "audio-material");
    assert!(effect_capability_diagnostics(&Vec::new(), &Vec::new(), &Vec::new()).is_empty());
}
