use editor_core::compiler::filters::{LayerDimensions, LayerPlacement, RenderTransitionIntent, VisualLayerFilter};
use editor_core::compiler::job::RenderIntentSupport;
use editor_core::compiler::transitions::{
    append_transition_outputs, layer_transition_spec, split_transition_layers, transition_specs,
};
use editor_core::engine::model::TargetTimerange;

fn transition(from: &str, to: &str, support: RenderIntentSupport) -> RenderTransitionIntent {
    RenderTransitionIntent {
        from_segment_id: from.to_owned(),
        to_segment_id: to.to_owned(),
        support,
        reason: format!("{from} to {to}"),
        window: TargetTimerange::new(640_000, 20_000),
    }
}

fn compiled(segment: &str, label: &str, transition: Option<RenderTransitionIntent>, x: i64) -> VisualLayerFilter {
    VisualLayerFilter {
        segment_id: segment.to_owned(),
        label: label.to_owned(),
        transition,
        dimensions: LayerDimensions { width: 1920, height: 1080 },
        placement: LayerPlacement { x, y: 0 },
        active_start: 0,
        active_end: 100_000,
        lines: vec![format!("[0:v]null[{label}]")],
    }
}

fn output() -> TargetTimerange {
    TargetTimerange::new(600_000, 100_000)
}

fn chained_layers() -> Vec<VisualLayerFilter> {
    vec![
        compiled("a", "v0", Some(transition("a", "b", RenderIntentSupport::Supported)), 10),
        compiled("b", "v1", Some(transition("b", "c", RenderIntentSupport::Supported)), 20),
        compiled("c", "v2", None, 30),
    ]
}

#[test]
fn a_transition_joins_the_first_layers_drawing_its_two_segments() {
    let layers = chained_layers();
    let spec = layer_transition_spec(&layers[0], &layers, &output()).expect("supported transition");
    assert_eq!((spec.from_index, spec.to_index), (0, 1));
    assert_eq!(spec.output_label, "vtransition_a_to_b");
    assert_eq!(spec.offset, 40_000);
    assert_eq!((spec.active_start, spec.active_end), (40_000, 60_000));
    assert_eq!(spec.placement, LayerPlacement { x: 10, y: 0 });
    assert!(spec.from_transition_label.is_empty() && spec.to_transition_label.is_empty());
    assert!(layer_transition_spec(&layers[2], &layers, &output()).is_none());
}

#[test]
fn unsupported_missing_or_self_transitions_are_skipped() {
    let layers = vec![
        compiled("a", "v0", Some(transition("a", "b", RenderIntentSupport::Degraded)), 0),
        compiled("b", "v1", Some(transition("b", "missing", RenderIntentSupport::Supported)), 0),
        compiled("c", "v2", Some(transition("c", "c", RenderIntentSupport::Supported)), 0),
    ];
    assert!(transition_specs(&layers, &output()).is_empty());
}

#[test]
fn each_used_layer_is_split_into_a_main_copy_and_one_copy_per_use() {
    let mut layers = chained_layers();
    let specs = transition_specs(&layers, &output());
    assert_eq!(specs.len(), 2);
    let mut lines = vec!["earlier".to_owned()];
    let labeled = split_transition_layers(&mut lines, &mut layers, &specs);
    assert_eq!(
        lines,
        vec![
            "earlier".to_owned(),
            "[v0]split=2[v0main][v0transition0]".to_owned(),
            "[v1]split=3[v1main][v1transition0][v1transition1]".to_owned(),
            "[v2]split=2[v2main][v2transition0]".to_owned(),
        ]
    );
    assert_eq!(
        layers.iter().map(|layer| layer.label.as_str()).collect::<Vec<_>>(),
        vec!["v0main", "v1main", "v2main"]
    );
    assert_eq!(layers[1].lines, vec!["[0:v]null[v1]".to_owned()]);
    assert_eq!((labeled[0].from_transition_label.as_str(), labeled[0].to_transition_label.as_str()), ("v0transition0", "v1transition0"));
    assert_eq!((labeled[1].from_transition_label.as_str(), labeled[1].to_transition_label.as_str()), ("v1transition1", "v2transition0"));
    assert_eq!(labeled[1].output_label, "vtransition_b_to_c");
}

#[test]
fn layers_without_transitions_are_left_alone() {
    let mut layers = vec![compiled("a", "v0", None, 0)];
    let mut lines = Vec::new();
    let labeled = split_transition_layers(&mut lines, &mut layers, &Vec::new());
    assert!(labeled.is_empty());
    assert!(lines.is_empty());
    assert_eq!(layers[0].label, "v0");
}

#[test]
fn compiled_transitions_add_a_line_and_a_layer_each() {
    let mut layers = chained_layers();
    let specs = transition_specs(&layers, &output());
    let mut lines = Vec::new();
    let labeled = split_transition_layers(&mut lines, &mut layers, &specs);
    let filters = vec![Some("[v0transition0][v1transition0]xfade[vtransition_a_to_b]".to_owned()), None];
    append_transition_outputs(&mut lines, &mut layers, &labeled, &filters);
    assert_eq!(lines.len(), 4);
    assert_eq!(lines[3], "[v0transition0][v1transition0]xfade[vtransition_a_to_b]");
    assert_eq!(layers.len(), 4);
    let added = &layers[3];
    assert_eq!(added.label, "vtransition_a_to_b");
    assert_eq!(added.segment_id, "a");
    assert!(added.transition.is_none());
    assert!(added.lines.is_empty());
    assert_eq!((added.active_start, added.active_end), (40_000, 60_000));
    assert_eq!(added.placement, LayerPlacement { x: 10, y: 0 });
}
