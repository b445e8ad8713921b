use editor_core::compiler::effects::{RenderRetimeAudio, RenderRetimeIntent, RenderRetimeSourceMapping};
use editor_core::compiler::filters::{
    append_audio_output_filters, append_video_output_filters, compose_placed_visual_layers, LayerDimensions,
    LayerTransform, RenderAudioMix, SegmentAnchor, SegmentCrop, SegmentFitMode, SegmentScale,
};
use editor_core::compiler::job::{FfmpegInput, FfmpegSidecar, FfmpegSidecarKind, RenderIntentSupport};
use editor_core::compiler::streams::compile_audio_streams;
use editor_core::compiler::visual::{compile_visual_layer, LayerTimelineAlignment, RenderVideoLayer};
use editor_core::engine::model::{
    AudioRetimePolicy, BackgroundFilling, MaterialKind, RationalFrameRate, RetimeMode, SegmentRetiming,
    SourceTimerange, SpeedRatio, TargetTimerange,
};

fn unity() -> RenderRetimeIntent {
    RenderRetimeIntent {
        retiming: SegmentRetiming {
            mode: RetimeMode::Constant { speed: SpeedRatio { numerator: 1, denominator: 1 } },
            audio_policy: AudioRetimePolicy::FollowVideoSpeed,
        },
        support: RenderIntentSupport::Supported,
        audio: RenderRetimeAudio {
            support: RenderIntentSupport::Supported,
            reason: String::new(),
            follow_speed: true,
            policy: AudioRetimePolicy::FollowVideoSpeed,
        },
        source_mapping: RenderRetimeSourceMapping {
            target_timerange: TargetTimerange::new(0, 0),
            retimed_source_timerange: SourceTimerange::new(0, 0),
        },
    }
}

fn dims(width: u32, height: u32) -> LayerDimensions {
    LayerDimensions { width, height }
}

fn video_layer(segment: &str, material: &str, kind: MaterialKind, transform: LayerTransform) -> RenderVideoLayer {
    RenderVideoLayer {
        track_id: "video-track".to_owned(),
        segment_id: segment.to_owned(),
        material_id: material.to_owned(),
        material_kind: kind,
        stack_index: 0,
        source_timerange: SourceTimerange::new(0, 100_000),
        target_timerange: TargetTimerange::new(0, 100_000),
        retime: unity(),
        transform,
        background: BackgroundFilling::NoFilling,
        visible: true,
        filters: Vec::new(),
        has_mask: false,
        has_visual_mask: false,
        blend_is_normal: true,
        visual_blend_is_normal: true,
        transition: None,
        has_keyframes: false,
    }
}

fn fit_transform() -> LayerTransform {
    LayerTransform {
        fit_mode: SegmentFitMode::Fit,
        crop: SegmentCrop { left_millis: 0, right_millis: 0, top_millis: 0, bottom_millis: 0 },
        scale: SegmentScale { x_millis: 1_000, y_millis: 1_000 },
        position_x: 0,
        position_y: 0,
        anchor: SegmentAnchor { x_millis: 500, y_millis: 500 },
        rotation_degrees: 0,
        opacity_millis: 1_000,
    }
}

fn audio(track: &str, segment: &str, material: &str, source_start: u64) -> RenderAudioMix {
    RenderAudioMix {
        track_id: track.to_owned(),
        segment_id: segment.to_owned(),
        material_id: material.to_owned(),
        source_timerange: SourceTimerange::new(source_start, 100_000),
        target_timerange: TargetTimerange::new(0, 100_000),
        gain_millis: 1_000,
        pan_balance_millis: 0,
        fade_in_duration: 0,
        fade_out_duration: 0,
        retime: unity(),
        volume_keyframes: Vec::new(),
        effect_slots: Vec::new(),
        filters: Vec::new(),
        audible: true,
    }
}

fn input(index: u32, material: &str) -> FfmpegInput {
    FfmpegInput {
        input_index: index,
        material_id: material.to_owned(),
        material_kind: MaterialKind::Video,
        uri: format!("media/{material}"),
        ffmpeg_path: format!("/media/{material}"),
        has_video: true,
        has_audio: true,
    }
}

#[test]
fn filter_script_pieces_compose_a_cropped_scaled_faded_overlay_with_subtitles_and_audio() {
    let output = TargetTimerange::new(0, 100_000);
    let rate = RationalFrameRate::new(30, 1);
    let canvas = dims(1920, 1080);

    let base = video_layer("video-a", "video-material", MaterialKind::Video, fit_transform());
    let mut overlay_transform = fit_transform();
    overlay_transform.crop.left_millis = 100;
    overlay_transform.scale = SegmentScale { x_millis: 500, y_millis: 500 };
    overlay_transform.position_x = 250;
    overlay_transform.position_y = -250;
    overlay_transform.opacity_millis = 760;
    let overlay = video_layer("overlay-a", "overlay-material", MaterialKind::Image, overlay_transform);

    let mut lines = Vec::new();
    let v0 = compile_visual_layer(
        0, 2, &base, &SourceTimerange::new(700_000, 100_000), dims(1280, 720), canvas, &rate, &output,
        LayerTimelineAlignment::OutputTimeline, &Vec::new(), &Vec::new(), dims(1, 1), "",
    );
    let v1 = compile_visual_layer(
        1, 1, &overlay, &SourceTimerange::new(0, 100_000), dims(640, 360), canvas, &rate, &output,
        LayerTimelineAlignment::OutputTimeline, &Vec::new(), &Vec::new(), dims(1, 1), "",
    );
    lines.extend(v0.lines.iter().cloned());
    lines.extend(v1.lines.iter().cloned());
    let video = compose_placed_visual_layers(&mut lines, "black", canvas, &rate, 100_000, &vec![v0, v1]);
    let sidecar = FfmpegSidecar {
        sidecar_id: "text-a".to_owned(),
        kind: FfmpegSidecarKind::AssSubtitle,
        segment_id: Some("text-a".to_owned()),
        path: "/derived/draft-compiler-export-mp4-h264-balanced-text-text-a.ass".to_owned(),
        contents: "[Script Info]\n; FontPath: /fonts/NotoSansCJK.ttc\n".to_owned(),
    };
    append_video_output_filters(&mut lines, video, true, &vec![sidecar]).expect("subtitles are present");

    let mixes = vec![
        audio("audio-track", "audio-a", "audio-material", 600_000),
        audio("video-track", "video-a", "video-material", 700_000),
    ];
    let inputs = vec![input(0, "audio-material"), input(1, "overlay-material"), input(2, "video-material")];
    let streams = compile_audio_streams(&mixes, &inputs, &output, &vec![Vec::new(), Vec::new()]).expect("audio compiles");
    lines.extend(streams.lines.iter().cloned());
    append_audio_output_filters(&mut lines, &streams.labels, &output, streams.concat_tracks);

    assert_eq!(
        lines.join(";\n"),
        [
            "[2:v]trim=start=0.700000:duration=0.100000,setpts=PTS-STARTPTS,scale=1920:1080[vstage0a]",
            "[vstage0a]null[v0]",
            "[1:v]loop=loop=-1:size=1:start=0,fps=30/1,trim=duration=0.100000,setpts=PTS-STARTPTS,crop=576:360:64:0,scale=1728:1080[vstage1a]",
            "[vstage1a]scale=864:540,format=rgba,colorchannelmixer=aa=0.760[v1]",
            "color=c=black:s=1920x1080:r=30/1:d=0.100000[vbase0]",
            "[vbase0][v0]overlay=x=0:y=0:enable='between(t,0.000000,0.100000)'[vbase1]",
            "[vbase1][v1]overlay=x=768:y=405:enable='between(t,0.000000,0.100000)'[vbase2]",
            "[vbase2]subtitles=filename='/derived/draft-compiler-export-mp4-h264-balanced-text-text-a.ass':fontsdir='/fonts'[vtext0]",
            "[vtext0]format=yuv420p[vout]",
            "[0:a]atrim=start=0.600000:duration=0.100000,asetpts=PTS-STARTPTS,volume=1.000[a0]",
            "[2:a]atrim=start=0.700000:duration=0.100000,asetpts=PTS-STARTPTS,volume=1.000[a1]",
            "[a0][a1]amix=inputs=2:duration=longest:normalize=0[aout]",
        ]
        .join(";\n")
    );
}
